//! Opcodes and the instructions they stand for.
//!
//! An opcode is a 16-bit word of four nibbles. The first nibble, and for
//! some families the last one, selects the operation; the others are its
//! operands. A word that matches no pattern decodes to
//! [`Instruction::Unknown`], which the engine executes as a no-op.

use vstd::prelude::*;

verus! {

/// One decoded instruction. `x` and `y` are register numbers, `nnn` is an
/// address, `nn` a byte and `n` a sprite height.
#[derive(Clone, Copy, Debug, PartialEq, Eq, Structural)]
pub enum Instruction {
    /// `00E0`: blank the framebuffer.
    ClearScreen,
    /// `00EE`: return from a subroutine.
    Return,
    /// `1nnn`: continue at `nnn`.
    Jump { nnn: usize },
    /// `2nnn`: call the subroutine at `nnn`.
    Call { nnn: usize },
    /// `3xnn`: skip the next instruction if `V[x] == nn`.
    SkipEqImm { x: usize, nn: u8 },
    /// `4xnn`: skip the next instruction if `V[x] != nn`.
    SkipNeImm { x: usize, nn: u8 },
    /// `5xy0`: skip the next instruction if `V[x] == V[y]`.
    SkipEqReg { x: usize, y: usize },
    /// `9xy0`: skip the next instruction if `V[x] != V[y]`.
    SkipNeReg { x: usize, y: usize },
    /// `6xnn`: `V[x] := nn`.
    SetImm { x: usize, nn: u8 },
    /// `7xnn`: `V[x] := V[x] + nn`, wrapping, flags untouched.
    AddImm { x: usize, nn: u8 },
    /// `Annn`: `I := nnn`.
    SetIndex { nnn: usize },
    /// `8xy0`: `V[x] := V[y]`.
    Move { x: usize, y: usize },
    /// `8xy1`: `V[x] := V[x] | V[y]`.
    Or { x: usize, y: usize },
    /// `8xy2`: `V[x] := V[x] & V[y]`.
    And { x: usize, y: usize },
    /// `8xy3`: `V[x] := V[x] ^ V[y]`.
    Xor { x: usize, y: usize },
    /// `8xy4`: `V[x] := V[x] + V[y]`, wrapping, with the carry in `V[0xF]`.
    AddCarry { x: usize, y: usize },
    /// `Dxyn`: draw the sprite of `n` rows at `I` at (`V[x]`, `V[y]`).
    Draw { x: usize, y: usize, n: u8 },
    /// Any other word.
    Unknown,
}

impl Instruction {
    /// Register numbers are below 16, addresses below 4096 and sprite
    /// heights below 16: what four nibbles can hold.
    pub open spec fn valid(self) -> bool {
        match self {
            Instruction::ClearScreen | Instruction::Return | Instruction::Unknown => true,
            Instruction::Jump { nnn } | Instruction::Call { nnn } | Instruction::SetIndex {
                nnn,
            } => nnn < 0x1000,
            Instruction::SkipEqImm { x, nn: _ }
            | Instruction::SkipNeImm { x, nn: _ }
            | Instruction::SetImm { x, nn: _ }
            | Instruction::AddImm { x, nn: _ } => x < 16,
            Instruction::SkipEqReg { x, y }
            | Instruction::SkipNeReg { x, y }
            | Instruction::Move { x, y }
            | Instruction::Or { x, y }
            | Instruction::And { x, y }
            | Instruction::Xor { x, y }
            | Instruction::AddCarry { x, y } => x < 16 && y < 16,
            Instruction::Draw { x, y, n } => x < 16 && y < 16 && n < 16,
        }
    }
}

/// Nibble `k` of `opcode`, nibble 0 being the highest.
pub open spec fn nibble(opcode: u16, k: int) -> int {
    let word = opcode as int;
    if k == 0 {
        word / 0x1000
    } else if k == 1 {
        (word / 0x100) % 0x10
    } else if k == 2 {
        (word / 0x10) % 0x10
    } else {
        word % 0x10
    }
}

/// The instruction that `opcode` stands for.
pub open spec fn decode_spec(opcode: u16) -> Instruction {
    let kind = nibble(opcode, 0);
    let x = nibble(opcode, 1) as usize;
    let y = nibble(opcode, 2) as usize;
    let n = nibble(opcode, 3) as u8;
    let nnn = (opcode % 0x1000) as usize;
    let nn = (opcode % 0x100) as u8;
    if opcode == 0x00E0 {
        Instruction::ClearScreen
    } else if opcode == 0x00EE {
        Instruction::Return
    } else if kind == 0x1 {
        Instruction::Jump { nnn }
    } else if kind == 0x2 {
        Instruction::Call { nnn }
    } else if kind == 0x3 {
        Instruction::SkipEqImm { x, nn }
    } else if kind == 0x4 {
        Instruction::SkipNeImm { x, nn }
    } else if kind == 0x5 && n == 0 {
        Instruction::SkipEqReg { x, y }
    } else if kind == 0x9 && n == 0 {
        Instruction::SkipNeReg { x, y }
    } else if kind == 0x6 {
        Instruction::SetImm { x, nn }
    } else if kind == 0x7 {
        Instruction::AddImm { x, nn }
    } else if kind == 0xA {
        Instruction::SetIndex { nnn }
    } else if kind == 0xD {
        Instruction::Draw { x, y, n }
    } else if kind == 0x8 && n == 0 {
        Instruction::Move { x, y }
    } else if kind == 0x8 && n == 1 {
        Instruction::Or { x, y }
    } else if kind == 0x8 && n == 2 {
        Instruction::And { x, y }
    } else if kind == 0x8 && n == 3 {
        Instruction::Xor { x, y }
    } else if kind == 0x8 && n == 4 {
        Instruction::AddCarry { x, y }
    } else {
        Instruction::Unknown
    }
}

/// Splits `opcode` into its nibbles and operands and finds its instruction.
pub fn decode(opcode: u16) -> (ins: Instruction)
    ensures
        ins == decode_spec(opcode),
        ins.valid(),
{
    let n0: u8 = ((opcode & 0xF000) >> 12) as u8;
    let n1: u8 = ((opcode & 0x0F00) >> 8) as u8;
    let n2: u8 = ((opcode & 0x00F0) >> 4) as u8;
    let n3: u8 = (opcode & 0x000F) as u8;
    let nnn: usize = (opcode & 0x0FFF) as usize;
    let nn: u8 = (opcode & 0x00FF) as u8;
    let x: usize = n1 as usize;
    let y: usize = n2 as usize;
    let n: u8 = n3;
    assert((opcode & 0xF000) >> 12 == opcode / 0x1000) by (bit_vector);
    assert((opcode & 0x0F00) >> 8 == (opcode / 0x100) % 0x10) by (bit_vector);
    assert((opcode & 0x00F0) >> 4 == (opcode / 0x10) % 0x10) by (bit_vector);
    assert(opcode & 0x000F == opcode % 0x10) by (bit_vector);
    assert(opcode & 0x0FFF == opcode % 0x1000) by (bit_vector);
    assert(opcode & 0x00FF == opcode % 0x100) by (bit_vector);
    if opcode == 0x00E0 {
        Instruction::ClearScreen
    } else if opcode == 0x00EE {
        Instruction::Return
    } else {
        match (n0, n3) {
            (0x1, _) => Instruction::Jump { nnn },
            (0x2, _) => Instruction::Call { nnn },
            (0x3, _) => Instruction::SkipEqImm { x, nn },
            (0x4, _) => Instruction::SkipNeImm { x, nn },
            (0x5, 0x0) => Instruction::SkipEqReg { x, y },
            (0x9, 0x0) => Instruction::SkipNeReg { x, y },
            (0x6, _) => Instruction::SetImm { x, nn },
            (0x7, _) => Instruction::AddImm { x, nn },
            (0xA, _) => Instruction::SetIndex { nnn },
            (0xD, _) => Instruction::Draw { x, y, n },
            (0x8, 0x0) => Instruction::Move { x, y },
            (0x8, 0x1) => Instruction::Or { x, y },
            (0x8, 0x2) => Instruction::And { x, y },
            (0x8, 0x3) => Instruction::Xor { x, y },
            (0x8, 0x4) => Instruction::AddCarry { x, y },
            _ => Instruction::Unknown,
        }
    }
}

} // verus!
