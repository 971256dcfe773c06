//! The interpreter engine: registers, memory, call stack and framebuffer,
//! with the fetch and execute steps that drive them.
//!
//! Addresses wrap: memory is read at an address modulo its size, the program
//! counter stays below the memory size, and sprite bits that leave the
//! framebuffer re-enter it on the other side. A word that is no instruction
//! executes as a no-op. A return that finds no address on the stack is
//! reported as an error and leaves the program counter where it is.

use crate::collections::{Stack, StackModel};
use crate::instruction::{decode, decode_spec, Instruction};
use crate::screen::{blank_grid, grid_wf, Grid, Screen};
use crate::sprite::{
    blit, blit_before, collides, collides_before, covers, lemma_blit_twice, lemma_draw_bit,
    lemma_draw_nothing, lemma_second_draw_collides, sprite_rows,
};
use crate::{HEIGHT, WIDTH};
use vstd::prelude::*;

verus! {

/// Size of the addressable memory, in bytes.
pub const MEM_SIZE: usize = 4096;

/// Number of general purpose registers.
pub const REGISTER_COUNT: usize = 16;

/// Address at which programs are loaded and start.
pub const MEM_START: usize = 0x200;

/// Why an instruction could not be carried out.
#[derive(Clone, Copy, Debug, PartialEq, Eq, Structural)]
pub enum ExecError {
    /// A return found no address in the slot it popped.
    StackUnderflow,
}

/// The state of the machine as plain mathematical values.
pub struct Machine {
    /// The index register.
    pub i: int,
    /// The address of the next instruction.
    pub pc: int,
    /// The word fetched last.
    pub opcode: u16,
    /// The delay timer.
    pub delay_timer: u8,
    /// The return addresses.
    pub stack: StackModel<usize>,
    /// The general purpose registers; register 15 doubles as the flag.
    pub v: Seq<u8>,
    /// The bytes of memory.
    pub memory: Seq<u8>,
    /// The pixels.
    pub grid: Grid,
    /// Whether the pixels changed since they were last presented.
    pub dirty: bool,
}

/// The address of the instruction after the one at `pc`.
pub open spec fn next_pc(pc: int) -> int {
    (pc + 2) % (MEM_SIZE as int)
}

/// The sum of two bytes, cut to a byte.
pub open spec fn wrapped_sum(a: u8, b: u8) -> u8 {
    ((a + b) % 256) as u8
}

/// Whether every address held in `stack` lies in memory.
pub open spec fn addresses_in_range(stack: StackModel<usize>) -> bool {
    forall|k: int|
        0 <= k < stack.slots.len() ==> match #[trigger] stack.slots[k] {
            Some(a) => a < MEM_SIZE,
            None => true,
        }
}

/// A push of an address in memory keeps every held address in memory.
pub proof fn lemma_push_in_range(stack: StackModel<usize>, address: usize)
    requires
        stack.wf(),
        addresses_in_range(stack),
        address < MEM_SIZE,
    ensures
        addresses_in_range(stack.after_push(address)),
{
    let pushed = stack.after_push(address);
    assert forall|k: int| 0 <= k < pushed.slots.len() implies match #[trigger] pushed.slots[k] {
        Some(a) => a < MEM_SIZE,
        None => true,
    } by {
        if k != stack.top {
            assert(pushed.slots[k] == stack.slots[k]);
        }
    }
}

/// A pop hands out an address in memory, if any, and keeps the rest there.
pub proof fn lemma_pop_in_range(stack: StackModel<usize>)
    requires
        stack.wf(),
        addresses_in_range(stack),
    ensures
        addresses_in_range(stack.after_pop()),
        match stack.pop_value() {
            Some(a) => a < MEM_SIZE,
            None => true,
        },
{
    let popped = stack.after_pop();
    assert forall|k: int| 0 <= k < popped.slots.len() implies match #[trigger] popped.slots[k] {
        Some(a) => a < MEM_SIZE,
        None => true,
    } by {
        if k != stack.pop_slot() {
            assert(popped.slots[k] == stack.slots[k]);
        }
    }
    if stack.slots.len() > 0 {
        assert(stack.pop_value() == stack.slots[stack.pop_slot() as int]);
    }
}

impl Machine {
    /// The state has sixteen registers, `MEM_SIZE` bytes and a grid of
    /// bits, and every address in it lies in memory.
    pub open spec fn wf(self) -> bool {
        &&& 0 <= self.i < MEM_SIZE
        &&& 0 <= self.pc < MEM_SIZE
        &&& self.stack.wf()
        &&& addresses_in_range(self.stack)
        &&& self.v.len() == REGISTER_COUNT
        &&& self.memory.len() == MEM_SIZE
        &&& grid_wf(self.grid)
    }

    /// The machine at power-on around the pixels `grid`.
    pub open spec fn initial(grid: Grid, dirty: bool) -> Machine {
        Machine {
            i: 0,
            pc: MEM_START as int,
            opcode: 0,
            delay_timer: 0,
            stack: StackModel::empty(MEM_SIZE as nat),
            v: Seq::new(REGISTER_COUNT as nat, |k: int| 0u8),
            memory: Seq::new(MEM_SIZE as nat, |k: int| 0u8),
            grid,
            dirty,
        }
    }

    /// The machine with `program` copied to memory from the start address on.
    pub open spec fn loaded(self, program: Seq<u8>) -> Machine {
        Machine {
            memory: Seq::new(
                MEM_SIZE as nat,
                |a: int|
                    if MEM_START <= a < MEM_START + program.len() {
                        program[a - MEM_START]
                    } else {
                        self.memory[a]
                    },
            ),
            ..self
        }
    }

    /// The byte at `address`, wrapped into memory.
    pub open spec fn byte_at(self, address: int) -> u8 {
        self.memory[address % (MEM_SIZE as int)]
    }

    /// The machine after a fetch: the two bytes at the program counter,
    /// the first one high, are the opcode, and the counter has moved past them.
    pub open spec fn fetched(self) -> Machine {
        Machine {
            opcode: (self.byte_at(self.pc) * 256 + self.byte_at(self.pc + 1)) as u16,
            pc: next_pc(self.pc),
            ..self
        }
    }

    /// The machine with the next instruction skipped if `skip` holds.
    pub open spec fn skipping(self, skip: bool) -> Machine {
        Machine {
            pc: if skip {
                next_pc(self.pc)
            } else {
                self.pc
            },
            ..self
        }
    }

    /// The machine with register `x` set to `value`.
    pub open spec fn with_register(self, x: int, value: u8) -> Machine {
        Machine { v: self.v.update(x, value), ..self }
    }

    /// The machine after the sprite of `n` rows at the index register was
    /// drawn at the place that registers `x` and `y` name.
    pub open spec fn drawn(self, x: int, y: int, n: int) -> Machine {
        let rows = sprite_rows(self.memory, self.i, n);
        let vx = (self.v[x] as int) % (WIDTH as int);
        let vy = (self.v[y] as int) % (HEIGHT as int);
        Machine {
            v: self.v.update(
                0xF,
                if collides(self.grid, rows, vx, vy) {
                    1u8
                } else {
                    0u8
                },
            ),
            grid: blit(self.grid, rows, vx, vy),
            dirty: true,
            ..self
        }
    }

    /// The machine after a return: the slot below the stack cursor is
    /// popped, and the program counter takes the address found there, if any.
    pub open spec fn returned(self) -> Machine {
        Machine {
            pc: match self.stack.pop_value() {
                Some(a) => a as int,
                None => self.pc,
            },
            stack: self.stack.after_pop(),
            ..self
        }
    }

    /// The machine after `ins` was executed.
    pub open spec fn step(self, ins: Instruction) -> Machine {
        match ins {
            Instruction::ClearScreen => Machine { grid: blank_grid(), dirty: true, ..self },
            Instruction::Return => self.returned(),
            Instruction::Jump { nnn } => Machine { pc: nnn as int, ..self },
            Instruction::Call { nnn } => Machine {
                stack: self.stack.after_push(self.pc as usize),
                pc: nnn as int,
                ..self
            },
            Instruction::SkipEqImm { x, nn } => self.skipping(self.v[x as int] == nn),
            Instruction::SkipNeImm { x, nn } => self.skipping(self.v[x as int] != nn),
            Instruction::SkipEqReg { x, y } => self.skipping(self.v[x as int] == self.v[y as int]),
            Instruction::SkipNeReg { x, y } => self.skipping(self.v[x as int] != self.v[y as int]),
            Instruction::SetImm { x, nn } => self.with_register(x as int, nn),
            Instruction::AddImm { x, nn } => self.with_register(
                x as int,
                wrapped_sum(self.v[x as int], nn),
            ),
            Instruction::SetIndex { nnn } => Machine { i: nnn as int, ..self },
            Instruction::Move { x, y } => self.with_register(x as int, self.v[y as int]),
            Instruction::Or { x, y } => self.with_register(
                x as int,
                self.v[x as int] | self.v[y as int],
            ),
            Instruction::And { x, y } => self.with_register(
                x as int,
                self.v[x as int] & self.v[y as int],
            ),
            Instruction::Xor { x, y } => self.with_register(
                x as int,
                self.v[x as int] ^ self.v[y as int],
            ),
            Instruction::AddCarry { x, y } => self.with_register(
                x as int,
                wrapped_sum(self.v[x as int], self.v[y as int]),
            ).with_register(
                0xF,
                if self.v[x as int] + self.v[y as int] >= 256 {
                    1u8
                } else {
                    0u8
                },
            ),
            Instruction::Draw { x, y, n } => self.drawn(x as int, y as int, n as int),
            Instruction::Unknown => self,
        }
    }

    /// Whether executing `ins` fails: only a return that pops an empty slot does.
    pub open spec fn faults(self, ins: Instruction) -> bool {
        ins == Instruction::Return && self.stack.pop_value() is None
    }

    /// The machine after one tick of the timers.
    pub open spec fn ticked(self) -> Machine {
        Machine {
            delay_timer: if self.delay_timer > 0 {
                (self.delay_timer - 1) as u8
            } else {
                0u8
            },
            ..self
        }
    }
}

/// The machine: its registers and memory, and the call stack and framebuffer it owns.
#[allow(non_snake_case)]
pub struct Memory {
    /// Index register, an address for sprite data.
    pub I: usize,
    /// Address of the next instruction.
    pub pc: usize,
    /// The word fetched last.
    pub opcode: u16,
    /// Counts down to zero, one per tick.
    pub delay_timer: u8,
    /// Return addresses of the subroutines being executed.
    pub stack: Stack<usize>,
    /// General purpose registers V0 to VF.
    pub V: [u8; REGISTER_COUNT],
    /// The addressable bytes; programs start at `MEM_START`.
    pub memory: [u8; MEM_SIZE],
    /// The pixels that draw instructions work on.
    pub screen: Screen,
}

impl View for Memory {
    type V = Machine;

    open spec fn view(&self) -> Machine {
        Machine {
            i: self.I as int,
            pc: self.pc as int,
            opcode: self.opcode,
            delay_timer: self.delay_timer,
            stack: self.stack@,
            v: self.V@,
            memory: self.memory@,
            grid: self.screen@,
            dirty: self.screen.update_screen,
        }
    }
}

impl Memory {
    /// Both address registers and every return address lie in memory, and
    /// the stack and the framebuffer are well-formed.
    pub open spec fn wf(&self) -> bool {
        &&& self.I < MEM_SIZE
        &&& self.pc < MEM_SIZE
        &&& self.stack.wf()
        &&& addresses_in_range(self.stack@)
        &&& self.screen.wf()
    }

    /// A well-formed machine has a well-formed state.
    pub proof fn lemma_wf_state(&self)
        requires
            self.wf(),
        ensures
            self@.wf(),
    {
        self.stack.lemma_wf_model();
        self.screen.lemma_wf_grid();
    }

    /// A machine at power-on that draws on `screen`.
    pub fn new(screen: Screen) -> (m: Self)
        requires
            screen.wf(),
        ensures
            m.wf(),
            m@ == Machine::initial(screen@, screen.update_screen),
    {
        let m = Memory {
            I: 0,
            pc: MEM_START,
            opcode: 0,
            delay_timer: 0,
            stack: Stack::new(MEM_SIZE),
            V: [0u8;REGISTER_COUNT],
            memory: [0u8;MEM_SIZE],
            screen,
        };
        proof {
            let init = Machine::initial(screen@, screen.update_screen);
            assert(m@.v =~= init.v);
            assert(m@.memory =~= init.memory);
        }
        m
    }

    /// Copies `program` into memory from `MEM_START` on.
    pub fn load(&mut self, program: Vec<u8>)
        requires
            old(self).wf(),
            program.len() <= MEM_SIZE - MEM_START,
        ensures
            final(self).wf(),
            final(self)@ == old(self)@.loaded(program@),
    {
        let ghost start = self@;
        let mut k: usize = 0;
        while k < program.len()
            invariant
                k <= program.len(),
                program.len() <= MEM_SIZE - MEM_START,
                self.wf(),
                self@ == (Machine { memory: self.memory@, ..start }),
                forall|a: int|
                    0 <= a < MEM_SIZE ==> self.memory@[a] == if MEM_START <= a < MEM_START + k {
                        program[a - MEM_START]
                    } else {
                        start.memory[a]
                    },
            decreases program.len() - k,
        {
            self.memory[MEM_START + k] = program[k];
            k += 1;
        }
        assert(self.memory@ =~= start.loaded(program@).memory);
    }

    /// The byte at `index`, wrapped into memory.
    pub fn read_byte(&self, index: usize) -> (byte: u8)
        ensures
            byte == self@.byte_at(index as int),
    {
        self.memory[index % MEM_SIZE]
    }

    /// One fetch followed by the execution of what was fetched.
    pub fn cycle_cpu(&mut self) -> (r: Result<(), ExecError>)
        requires
            old(self).wf(),
        ensures
            final(self).wf(),
            final(self)@ == old(self)@.fetched().step(decode_spec(old(self)@.fetched().opcode)),
            r is Err <==> old(self)@.fetched().faults(decode_spec(old(self)@.fetched().opcode)),
            r is Err ==> r == Err::<(), ExecError>(ExecError::StackUnderflow),
    {
        self.fetch();
        self.execute()
    }

    /// Reads the two bytes at the program counter into the opcode, high
    /// byte first, and moves the counter past them.
    pub fn fetch(&mut self)
        requires
            old(self).wf(),
        ensures
            final(self).wf(),
            final(self)@ == old(self)@.fetched(),
    {
        let hi: u16 = self.memory[self.pc % MEM_SIZE] as u16;
        let lo: u16 = self.memory[(self.pc + 1) % MEM_SIZE] as u16;
        assert((hi << 8) | lo == hi * 256 + lo) by (bit_vector)
            requires
                hi < 256,
                lo < 256,
        ;
        self.opcode = (hi << 8) | lo;
        self.pc = (self.pc + 2) % MEM_SIZE;
    }

    /// Decodes the opcode and carries out its instruction. A word that is
    /// no instruction changes nothing.
    pub fn execute(&mut self) -> (r: Result<(), ExecError>)
        requires
            old(self).wf(),
        ensures
            final(self).wf(),
            final(self)@ == old(self)@.step(decode_spec(old(self).opcode)),
            r is Err <==> old(self)@.faults(decode_spec(old(self).opcode)),
            r is Err ==> r == Err::<(), ExecError>(ExecError::StackUnderflow),
    {
        match decode(self.opcode) {
            Instruction::ClearScreen => {
                self.clear_screen();
                Ok(())
            },
            Instruction::Return => self.return_from_subroutine(),
            Instruction::Jump { nnn } => {
                self.jump(nnn);
                Ok(())
            },
            Instruction::Call { nnn } => {
                self.call_subroutine(nnn);
                Ok(())
            },
            Instruction::SkipEqImm { x, nn } => {
                self.skip_if_equal(x, nn);
                Ok(())
            },
            Instruction::SkipNeImm { x, nn } => {
                self.skip_if_not_equal(x, nn);
                Ok(())
            },
            Instruction::SkipEqReg { x, y } => {
                self.skip_if_registers_equal(x, y);
                Ok(())
            },
            Instruction::SkipNeReg { x, y } => {
                self.skip_if_registers_not_equal(x, y);
                Ok(())
            },
            Instruction::SetImm { x, nn } => {
                self.set_register(x, nn);
                Ok(())
            },
            Instruction::AddImm { x, nn } => {
                self.add_immediate(x, nn);
                Ok(())
            },
            Instruction::SetIndex { nnn } => {
                self.set_index(nnn);
                Ok(())
            },
            Instruction::Move { x, y } => {
                self.set_vx_vy(x, y);
                Ok(())
            },
            Instruction::Or { x, y } => {
                self.binary_or(x, y);
                Ok(())
            },
            Instruction::And { x, y } => {
                self.binary_and(x, y);
                Ok(())
            },
            Instruction::Xor { x, y } => {
                self.logical_xor(x, y);
                Ok(())
            },
            Instruction::AddCarry { x, y } => {
                self.add_registers(x, y);
                Ok(())
            },
            Instruction::Draw { x, y, n } => {
                self.display(x, y, n);
                Ok(())
            },
            Instruction::Unknown => Ok(()),
        }
    }

    /// Lowers the delay timer by one unless it is zero.
    pub fn tick_timers(&mut self)
        ensures
            final(self)@ == old(self)@.ticked(),
            old(self).wf() ==> final(self).wf(),
    {
        if self.delay_timer > 0 {
            self.delay_timer -= 1;
        }
    }

    /// `00E0`: puts out every pixel and marks the framebuffer as changed.
    pub fn clear_screen(&mut self)
        requires
            old(self).wf(),
        ensures
            final(self).wf(),
            final(self)@ == old(self)@.step(Instruction::ClearScreen),
            final(self).screen@ == blank_grid(),
            final(self).screen.update_screen,
    {
        self.screen.clear();
    }

    /// `00EE`: pops the stack and continues at the address found. Where the
    /// popped slot is empty the program counter stays and the error is returned.
    pub fn return_from_subroutine(&mut self) -> (r: Result<(), ExecError>)
        requires
            old(self).wf(),
        ensures
            final(self).wf(),
            final(self)@ == old(self)@.step(Instruction::Return),
            r is Err <==> old(self)@.stack.pop_value() is None,
            r is Err ==> r == Err::<(), ExecError>(ExecError::StackUnderflow),
    {
        proof {
            self.stack.lemma_wf_model();
            lemma_pop_in_range(self.stack@);
        }
        match self.stack.pop() {
            Some(address) => {
                self.pc = address;
                Ok(())
            },
            None => Err(ExecError::StackUnderflow),
        }
    }

    /// `1nnn`: continues at `nnn`.
    pub fn jump(&mut self, nnn: usize)
        requires
            old(self).wf(),
            nnn < MEM_SIZE,
        ensures
            final(self).wf(),
            final(self)@ == old(self)@.step(Instruction::Jump { nnn }),
    {
        self.pc = nnn;
    }

    /// `2nnn`: pushes the program counter and continues at `nnn`.
    pub fn call_subroutine(&mut self, nnn: usize)
        requires
            old(self).wf(),
            nnn < MEM_SIZE,
        ensures
            final(self).wf(),
            final(self)@ == old(self)@.step(Instruction::Call { nnn }),
    {
        proof {
            self.stack.lemma_wf_model();
            lemma_push_in_range(self.stack@, self.pc);
        }
        self.stack.push(self.pc);
        self.pc = nnn;
    }

    /// `3xnn`: skips the next instruction if `V[x] == nn`.
    pub fn skip_if_equal(&mut self, x: usize, nn: u8)
        requires
            old(self).wf(),
            x < REGISTER_COUNT,
        ensures
            final(self).wf(),
            final(self)@ == old(self)@.step(Instruction::SkipEqImm { x, nn }),
    {
        if self.V[x] == nn {
            self.pc = (self.pc + 2) % MEM_SIZE;
        }
    }

    /// `4xnn`: skips the next instruction if `V[x] != nn`.
    pub fn skip_if_not_equal(&mut self, x: usize, nn: u8)
        requires
            old(self).wf(),
            x < REGISTER_COUNT,
        ensures
            final(self).wf(),
            final(self)@ == old(self)@.step(Instruction::SkipNeImm { x, nn }),
    {
        if self.V[x] != nn {
            self.pc = (self.pc + 2) % MEM_SIZE;
        }
    }

    /// `5xy0`: skips the next instruction if `V[x] == V[y]`.
    pub fn skip_if_registers_equal(&mut self, x: usize, y: usize)
        requires
            old(self).wf(),
            x < REGISTER_COUNT,
            y < REGISTER_COUNT,
        ensures
            final(self).wf(),
            final(self)@ == old(self)@.step(Instruction::SkipEqReg { x, y }),
    {
        if self.V[x] == self.V[y] {
            self.pc = (self.pc + 2) % MEM_SIZE;
        }
    }

    /// `9xy0`: skips the next instruction if `V[x] != V[y]`.
    pub fn skip_if_registers_not_equal(&mut self, x: usize, y: usize)
        requires
            old(self).wf(),
            x < REGISTER_COUNT,
            y < REGISTER_COUNT,
        ensures
            final(self).wf(),
            final(self)@ == old(self)@.step(Instruction::SkipNeReg { x, y }),
    {
        if self.V[x] != self.V[y] {
            self.pc = (self.pc + 2) % MEM_SIZE;
        }
    }

    /// `6xnn`: sets `V[x]` to `nn`.
    pub fn set_register(&mut self, x: usize, nn: u8)
        requires
            old(self).wf(),
            x < REGISTER_COUNT,
        ensures
            final(self).wf(),
            final(self)@ == old(self)@.step(Instruction::SetImm { x, nn }),
            final(self).V[x as int] == nn,
    {
        self.V[x] = nn;
    }

    /// `7xnn`: adds `nn` to `V[x]` modulo 256. No register but `V[x]`
    /// changes, the flag register included.
    pub fn add_immediate(&mut self, x: usize, nn: u8)
        requires
            old(self).wf(),
            x < REGISTER_COUNT,
        ensures
            final(self).wf(),
            final(self)@ == old(self)@.step(Instruction::AddImm { x, nn }),
            final(self).V[x as int] == (old(self).V[x as int] + nn) % 256,
            forall|k: int|
                0 <= k < REGISTER_COUNT && k != x ==> final(self).V[k] == old(self).V[k],
    {
        self.V[x] = nn.wrapping_add(self.V[x]);
    }

    /// `Annn`: sets the index register to `nnn`.
    pub fn set_index(&mut self, nnn: usize)
        requires
            old(self).wf(),
            nnn < MEM_SIZE,
        ensures
            final(self).wf(),
            final(self)@ == old(self)@.step(Instruction::SetIndex { nnn }),
    {
        self.I = nnn;
    }

    /// `8xy0`: copies `V[y]` to `V[x]`.
    pub fn set_vx_vy(&mut self, x: usize, y: usize)
        requires
            old(self).wf(),
            x < REGISTER_COUNT,
            y < REGISTER_COUNT,
        ensures
            final(self).wf(),
            final(self)@ == old(self)@.step(Instruction::Move { x, y }),
    {
        self.V[x] = self.V[y];
    }

    /// `8xy1`: sets `V[x]` to `V[x] | V[y]`.
    pub fn binary_or(&mut self, x: usize, y: usize)
        requires
            old(self).wf(),
            x < REGISTER_COUNT,
            y < REGISTER_COUNT,
        ensures
            final(self).wf(),
            final(self)@ == old(self)@.step(Instruction::Or { x, y }),
    {
        self.V[x] = self.V[x] | self.V[y];
    }

    /// `8xy2`: sets `V[x]` to `V[x] & V[y]`.
    pub fn binary_and(&mut self, x: usize, y: usize)
        requires
            old(self).wf(),
            x < REGISTER_COUNT,
            y < REGISTER_COUNT,
        ensures
            final(self).wf(),
            final(self)@ == old(self)@.step(Instruction::And { x, y }),
    {
        self.V[x] = self.V[x] & self.V[y];
    }

    /// `8xy3`: sets `V[x]` to `V[x] ^ V[y]`.
    pub fn logical_xor(&mut self, x: usize, y: usize)
        requires
            old(self).wf(),
            x < REGISTER_COUNT,
            y < REGISTER_COUNT,
        ensures
            final(self).wf(),
            final(self)@ == old(self)@.step(Instruction::Xor { x, y }),
    {
        self.V[x] = self.V[x] ^ self.V[y];
    }

    /// `8xy4`: adds `V[y]` to `V[x]` modulo 256, then sets the flag
    /// register to 1 if the sum was 256 or more and to 0 if not. With `x`
    /// the flag register itself, the flag is what it holds afterwards.
    pub fn add_registers(&mut self, x: usize, y: usize)
        requires
            old(self).wf(),
            x < REGISTER_COUNT,
            y < REGISTER_COUNT,
        ensures
            final(self).wf(),
            final(self)@ == old(self)@.step(Instruction::AddCarry { x, y }),
            final(self).V[0xF] == 1 <==> old(self).V[x as int] + old(self).V[y as int] >= 256,
            final(self).V[0xF] == 0 <==> old(self).V[x as int] + old(self).V[y as int] < 256,
            x != 0xF ==> final(self).V[x as int] == (old(self).V[x as int] + old(self).V[y as int])
                % 256,
    {
        let sum: u16 = self.V[x] as u16 + self.V[y] as u16;
        self.V[x] = (sum % 256) as u8;
        if sum >= 256 {
            self.V[0xF] = 1;
        } else {
            self.V[0xF] = 0;
        }
    }

    /// `Dxyn`: draws the `n` bytes at the index register as a sprite with
    /// its top left corner at (`V[x]` mod 64, `V[y]` mod 32). Every set bit
    /// flips the pixel under it, wrapping at the edges. The flag register
    /// becomes 1 if a lit pixel was put out and 0 if none was, and the
    /// framebuffer is marked as changed.
    pub fn display(&mut self, x: usize, y: usize, n: u8)
        requires
            old(self).wf(),
            x < REGISTER_COUNT,
            y < REGISTER_COUNT,
            n < 16,
        ensures
            final(self).wf(),
            final(self)@ == old(self)@.step(Instruction::Draw { x, y, n }),
    {
        let vx: usize = (self.V[x] % 64) as usize;
        let vy: usize = (self.V[y] % 32) as usize;
        let ghost start = self@;
        let ghost rows = sprite_rows(start.memory, start.i, n as int);
        self.V[0xF] = 0;
        proof {
            self.screen.lemma_wf_grid();
            lemma_draw_nothing(start.grid, rows, vx as int, vy as int);
            assert(self@.v =~= start.v.update(0xF, 0u8));
        }
        let mut r: u8 = 0;
        while r < n
            invariant
                r <= n < 16,
                vx < WIDTH,
                vy < HEIGHT,
                self.wf(),
                old(self).wf(),
                start == old(self)@,
                rows == sprite_rows(start.memory, start.i, n as int),
                grid_wf(start.grid),
                self@ == (Machine {
                    v: start.v.update(
                        0xF,
                        if collides_before(start.grid, rows, vx as int, vy as int, 8 * r) {
                            1u8
                        } else {
                            0u8
                        },
                    ),
                    grid: blit_before(start.grid, rows, vx as int, vy as int, 8 * r),
                    ..start
                }),
            decreases n - r,
        {
            let sprite_data: u8 = self.memory[(self.I + r as usize) % MEM_SIZE];
            assert(sprite_data == rows[r as int]);
            let mut b: u8 = 0;
            while b < 8
                invariant
                    r < n < 16,
                    b <= 8,
                    vx < WIDTH,
                    vy < HEIGHT,
                    self.wf(),
                    old(self).wf(),
                    start == old(self)@,
                    rows == sprite_rows(start.memory, start.i, n as int),
                    sprite_data == rows[r as int],
                    grid_wf(start.grid),
                    self@ == (Machine {
                        v: start.v.update(
                            0xF,
                            if collides_before(
                                start.grid,
                                rows,
                                vx as int,
                                vy as int,
                                8 * r + b,
                            ) {
                                1u8
                            } else {
                                0u8
                            },
                        ),
                        grid: blit_before(start.grid, rows, vx as int, vy as int, 8 * r + b),
                        ..start
                    }),
                decreases 8 - b,
            {
                proof {
                    lemma_draw_bit(start.grid, rows, vx as int, vy as int, r as int, b as int);
                }
                if sprite_data & (0x80u8 >> b) != 0 {
                    let x_coord: usize = (vx + b as usize) % WIDTH;
                    let y_coord: usize = (vy + r as usize) % HEIGHT;
                    if self.screen.get_pixel(x_coord, y_coord) == 1 {
                        self.V[0xF] = 1;
                    }
                    self.screen.update_pixel(x_coord, y_coord);
                }
                proof {
                    assert(self@.v =~= start.v.update(
                        0xF,
                        if collides_before(
                            start.grid,
                            rows,
                            vx as int,
                            vy as int,
                            8 * r + b + 1,
                        ) {
                            1u8
                        } else {
                            0u8
                        },
                    ));
                }
                b += 1;
            }
            r += 1;
        }
        self.screen.update_screen = true;
    }
}

/// Fetching, and executing an instruction with operands in range, keep the
/// state well-formed.
pub proof fn lemma_step_keeps_wf(m: Machine, ins: Instruction)
    requires
        m.wf(),
        ins.valid(),
    ensures
        m.fetched().wf(),
        m.step(ins).wf(),
{
    lemma_pop_in_range(m.stack);
    lemma_push_in_range(m.stack, m.pc as usize);
}

/// A call followed at once by a return continues behind the call: the
/// program counter is again what it was when the call was executed, the
/// return does not fail, and the stack cursor is back where it was. This
/// holds where the stack has a free slot above the cursor, and where it has
/// one slot only.
pub proof fn lemma_call_then_return(m: Machine, nnn: usize)
    requires
        m.wf(),
        m.stack.top + 1 < m.stack.capacity() || m.stack.capacity() == 1,
    ensures
        !m.step(Instruction::Call { nnn }).faults(Instruction::Return),
        m.step(Instruction::Call { nnn }).step(Instruction::Return).pc == m.pc,
        m.step(Instruction::Call { nnn }).step(Instruction::Return).stack.top == m.stack.top,
{
}

/// A call made with the stack cursor on the last of several slots wraps the
/// cursor to slot 0, and a return that follows at once reads slot 0, not
/// the slot that the call wrote: it continues at the address held there,
/// and fails, staying at the target of the call, where that slot is empty.
pub proof fn lemma_call_on_last_slot_then_return(m: Machine, nnn: usize)
    requires
        m.wf(),
        m.stack.capacity() > 1,
        m.stack.top + 1 == m.stack.capacity(),
    ensures
        m.step(Instruction::Call { nnn }).faults(Instruction::Return) <==> m.stack.slots[0]
            is None,
        m.step(Instruction::Call { nnn }).step(Instruction::Return).pc == match m.stack.slots[0] {
            Some(a) => a as int,
            None => nnn as int,
        },
{
}

/// Drawing one sprite twice at one place restores the framebuffer, and the
/// second draw sets the flag register to 1 exactly if the first one lit a
/// pixel. The place is the same where the first draw leaves the registers
/// that name it as they were: always, unless one of them is the flag register.
pub proof fn lemma_draw_twice(m: Machine, x: usize, y: usize, n: u8)
    requires
        m.wf(),
        x < REGISTER_COUNT,
        y < REGISTER_COUNT,
        m.step(Instruction::Draw { x, y, n }).v[x as int] == m.v[x as int],
        m.step(Instruction::Draw { x, y, n }).v[y as int] == m.v[y as int],
    ensures
        ({
            let ins = Instruction::Draw { x, y, n };
            let rows = sprite_rows(m.memory, m.i, n as int);
            let vx = (m.v[x as int] as int) % (WIDTH as int);
            let vy = (m.v[y as int] as int) % (HEIGHT as int);
            &&& m.step(ins).step(ins).grid == m.grid
            &&& m.step(ins).step(ins).v[0xF] == 1 <==> collides(m.step(ins).grid, rows, vx, vy)
            &&& m.step(ins).step(ins).v[0xF] == 1 <==> exists|px: int, py: int|
                0 <= px < WIDTH && 0 <= py < HEIGHT && #[trigger] covers(rows, vx, vy, px, py)
                    && m.grid[py][px] == 0
        }),
{
    let rows = sprite_rows(m.memory, m.i, n as int);
    let vx = (m.v[x as int] as int) % (WIDTH as int);
    let vy = (m.v[y as int] as int) % (HEIGHT as int);
    lemma_blit_twice(m.grid, rows, vx, vy);
    lemma_second_draw_collides(m.grid, rows, vx, vy);
}

/// A draw leaves every register but the flag register as it was.
pub proof fn lemma_draw_keeps_registers(m: Machine, x: usize, y: usize, n: u8, k: int)
    requires
        m.wf(),
        0 <= k < 0xF,
    ensures
        m.step(Instruction::Draw { x, y, n }).v[k] == m.v[k],
{
}

} // verus!
