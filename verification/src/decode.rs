//! The instruction decoder: a pure, total function from a raw 16-bit
//! instruction word to a typed instruction. Every 16-bit value decodes;
//! patterns that match no instruction become `Unknown`, which the
//! interpreter treats as a no-op that advances the program counter.

use vstd::prelude::*;

verus! {

/// A decoded instruction. `x` and `y` are register indices (always below 16,
/// being 4-bit fields), `nnn` is a 12-bit address, `kk` an 8-bit immediate
/// and `n` a 4-bit sprite height.
pub enum Instruction {
    /// `00E0`: clear the framebuffer.
    ClearScreen,
    /// `00EE`: return from a subroutine.
    Return,
    /// `1nnn`: jump to `nnn`.
    Jump { nnn: u16 },
    /// `2nnn`: call the subroutine at `nnn`.
    Call { nnn: u16 },
    /// `3xkk`: skip the next instruction if `Vx == kk`.
    SkipEqImm { x: usize, kk: u8 },
    /// `4xkk`: skip the next instruction if `Vx != kk`.
    SkipNeImm { x: usize, kk: u8 },
    /// `5xy0`: skip the next instruction if `Vx == Vy`.
    SkipEqReg { x: usize, y: usize },
    /// `6xkk`: set `Vx = kk`.
    StoreImm { x: usize, kk: u8 },
    /// `7xkk`: set `Vx = Vx + kk` with 8-bit wraparound, no flag.
    AddImm { x: usize, kk: u8 },
    /// `8xy0`: set `Vx = Vy`.
    CopyReg { x: usize, y: usize },
    /// `8xy1`: set `Vx = Vx | Vy`.
    OrReg { x: usize, y: usize },
    /// `8xy2`: set `Vx = Vx & Vy`.
    AndReg { x: usize, y: usize },
    /// `8xy3`: set `Vx = Vx ^ Vy`.
    XorReg { x: usize, y: usize },
    /// `8xy4`: set `Vx = Vx + Vy` with 8-bit wraparound; VF becomes the carry.
    AddReg { x: usize, y: usize },
    /// `8xy5`: VF = 1 iff `Vx > Vy`; `Vx = Vx - Vy` with 8-bit wraparound.
    SubReg { x: usize, y: usize },
    /// `8xy6`: VF = least significant bit of `Vx`; `Vx = Vx >> 1`.
    ShiftRight { x: usize },
    /// `8xy7`: VF = 1 iff `Vy > Vx`; `Vx = Vy - Vx` with 8-bit wraparound.
    SubFromReg { x: usize, y: usize },
    /// `8xyE`: VF = most significant bit of `Vx`; `Vx = Vx << 1` with wraparound.
    ShiftLeft { x: usize },
    /// `9xy0`: skip the next instruction if `Vx != Vy`.
    SkipNeReg { x: usize, y: usize },
    /// `Annn`: set `I = nnn`.
    StoreIndex { nnn: u16 },
    /// `Bnnn`: jump to `nnn + V0`.
    JumpOffset { nnn: u16 },
    /// `Cxkk`: set `Vx` to a random byte masked with `kk`.
    Random { x: usize, kk: u8 },
    /// `Dxyn`: draw the `n`-byte sprite at `memory[I..]` at `(Vx, Vy)`.
    Draw { x: usize, y: usize, n: usize },
    /// `Ex9E`: skip the next instruction if key `Vx` is pressed.
    SkipKeyPressed { x: usize },
    /// `ExA1`: skip the next instruction if key `Vx` is not pressed.
    SkipKeyNotPressed { x: usize },
    /// `Fx07`: set `Vx` to the delay timer.
    ReadDelay { x: usize },
    /// `Fx0A`: suspend execution until a key is pressed; its ID goes to `Vx`.
    WaitKey { x: usize },
    /// `Fx15`: set the delay timer to `Vx`.
    SetDelay { x: usize },
    /// `Fx18`: set the sound timer to `Vx`.
    SetSound { x: usize },
    /// `Fx1E`: set `I = I + Vx` with 16-bit wraparound, no flag.
    AddIndex { x: usize },
    /// `Fx29`: set `I` to the font glyph address for digit `Vx`.
    FontGlyph { x: usize },
    /// `Fx33`: store the decimal digits of `Vx` at `memory[I..I+3]`.
    StoreBcd { x: usize },
    /// `Fx55`: copy `V0..=Vx` into memory starting at `I`.
    StoreRegisters { x: usize },
    /// `Fx65`: copy memory starting at `I` into `V0..=Vx`.
    LoadRegisters { x: usize },
    /// Any other pattern: a no-op that advances the program counter.
    Unknown,
}

impl Instruction {
    /// Every register index carried by the instruction is a 4-bit value, and
    /// so are sprite heights; addresses are 12-bit values.
    pub open spec fn wf(self) -> bool {
        match self {
            Instruction::ClearScreen => true,
            Instruction::Return => true,
            Instruction::Jump { nnn } => nnn < 0x1000,
            Instruction::Call { nnn } => nnn < 0x1000,
            Instruction::SkipEqImm { x, .. } => x < 16,
            Instruction::SkipNeImm { x, .. } => x < 16,
            Instruction::SkipEqReg { x, y } => x < 16 && y < 16,
            Instruction::StoreImm { x, .. } => x < 16,
            Instruction::AddImm { x, .. } => x < 16,
            Instruction::CopyReg { x, y } => x < 16 && y < 16,
            Instruction::OrReg { x, y } => x < 16 && y < 16,
            Instruction::AndReg { x, y } => x < 16 && y < 16,
            Instruction::XorReg { x, y } => x < 16 && y < 16,
            Instruction::AddReg { x, y } => x < 16 && y < 16,
            Instruction::SubReg { x, y } => x < 16 && y < 16,
            Instruction::ShiftRight { x } => x < 16,
            Instruction::SubFromReg { x, y } => x < 16 && y < 16,
            Instruction::ShiftLeft { x } => x < 16,
            Instruction::SkipNeReg { x, y } => x < 16 && y < 16,
            Instruction::StoreIndex { nnn } => nnn < 0x1000,
            Instruction::JumpOffset { nnn } => nnn < 0x1000,
            Instruction::Random { x, .. } => x < 16,
            Instruction::Draw { x, y, n } => x < 16 && y < 16 && n < 16,
            Instruction::SkipKeyPressed { x } => x < 16,
            Instruction::SkipKeyNotPressed { x } => x < 16,
            Instruction::ReadDelay { x } => x < 16,
            Instruction::WaitKey { x } => x < 16,
            Instruction::SetDelay { x } => x < 16,
            Instruction::SetSound { x } => x < 16,
            Instruction::AddIndex { x } => x < 16,
            Instruction::FontGlyph { x } => x < 16,
            Instruction::StoreBcd { x } => x < 16,
            Instruction::StoreRegisters { x } => x < 16,
            Instruction::LoadRegisters { x } => x < 16,
            Instruction::Unknown => true,
        }
    }
}

/// The meaning of a raw instruction word, by nibble pattern, most specific
/// pattern first.
pub open spec fn spec_decode(op: u16) -> Instruction {
    let a = op >> 12u16;
    let x = ((op >> 8u16) & 0xF) as usize;
    let y = ((op >> 4u16) & 0xF) as usize;
    let n = (op & 0xF) as usize;
    let kk = (op & 0xFF) as u8;
    let nnn = op & 0xFFF;
    if op == 0x00E0 {
        Instruction::ClearScreen
    } else if op == 0x00EE {
        Instruction::Return
    } else if a == 0x1 {
        Instruction::Jump { nnn }
    } else if a == 0x2 {
        Instruction::Call { nnn }
    } else if a == 0x3 {
        Instruction::SkipEqImm { x, kk }
    } else if a == 0x4 {
        Instruction::SkipNeImm { x, kk }
    } else if a == 0x5 && n == 0x0 {
        Instruction::SkipEqReg { x, y }
    } else if a == 0x6 {
        Instruction::StoreImm { x, kk }
    } else if a == 0x7 {
        Instruction::AddImm { x, kk }
    } else if a == 0x8 && n == 0x0 {
        Instruction::CopyReg { x, y }
    } else if a == 0x8 && n == 0x1 {
        Instruction::OrReg { x, y }
    } else if a == 0x8 && n == 0x2 {
        Instruction::AndReg { x, y }
    } else if a == 0x8 && n == 0x3 {
        Instruction::XorReg { x, y }
    } else if a == 0x8 && n == 0x4 {
        Instruction::AddReg { x, y }
    } else if a == 0x8 && n == 0x5 {
        Instruction::SubReg { x, y }
    } else if a == 0x8 && n == 0x6 {
        Instruction::ShiftRight { x }
    } else if a == 0x8 && n == 0x7 {
        Instruction::SubFromReg { x, y }
    } else if a == 0x8 && n == 0xE {
        Instruction::ShiftLeft { x }
    } else if a == 0x9 && n == 0x0 {
        Instruction::SkipNeReg { x, y }
    } else if a == 0xA {
        Instruction::StoreIndex { nnn }
    } else if a == 0xB {
        Instruction::JumpOffset { nnn }
    } else if a == 0xC {
        Instruction::Random { x, kk }
    } else if a == 0xD {
        Instruction::Draw { x, y, n }
    } else if a == 0xE && kk == 0x9E {
        Instruction::SkipKeyPressed { x }
    } else if a == 0xE && kk == 0xA1 {
        Instruction::SkipKeyNotPressed { x }
    } else if a == 0xF && kk == 0x07 {
        Instruction::ReadDelay { x }
    } else if a == 0xF && kk == 0x0A {
        Instruction::WaitKey { x }
    } else if a == 0xF && kk == 0x15 {
        Instruction::SetDelay { x }
    } else if a == 0xF && kk == 0x18 {
        Instruction::SetSound { x }
    } else if a == 0xF && kk == 0x1E {
        Instruction::AddIndex { x }
    } else if a == 0xF && kk == 0x29 {
        Instruction::FontGlyph { x }
    } else if a == 0xF && kk == 0x33 {
        Instruction::StoreBcd { x }
    } else if a == 0xF && kk == 0x55 {
        Instruction::StoreRegisters { x }
    } else if a == 0xF && kk == 0x65 {
        Instruction::LoadRegisters { x }
    } else {
        Instruction::Unknown
    }
}

/// The decoded word always carries well-formed operand fields.
pub proof fn lemma_decode_wf(op: u16)
    ensures
        spec_decode(op).wf(),
{
    assert((op >> 8u16) & 0xF < 16 && (op >> 4u16) & 0xF < 16 && (op & 0xF) < 16 && (op & 0xFFF)
        < 0x1000) by (bit_vector);
}

impl Instruction {
    /// Decode a raw instruction word.
    pub fn decode(op: u16) -> (ins: Instruction)
        ensures
            ins == spec_decode(op),
            ins.wf(),
    {
        proof {
            lemma_decode_wf(op);
        }
        let a = op >> 12u16;
        let x = ((op >> 8u16) & 0xF) as usize;
        let y = ((op >> 4u16) & 0xF) as usize;
        let n = (op & 0xF) as usize;
        let kk = (op & 0xFF) as u8;
        let nnn = op & 0xFFF;
        if op == 0x00E0 {
            Instruction::ClearScreen
        } else if op == 0x00EE {
            Instruction::Return
        } else if a == 0x1 {
            Instruction::Jump { nnn }
        } else if a == 0x2 {
            Instruction::Call { nnn }
        } else if a == 0x3 {
            Instruction::SkipEqImm { x, kk }
        } else if a == 0x4 {
            Instruction::SkipNeImm { x, kk }
        } else if a == 0x5 && n == 0x0 {
            Instruction::SkipEqReg { x, y }
        } else if a == 0x6 {
            Instruction::StoreImm { x, kk }
        } else if a == 0x7 {
            Instruction::AddImm { x, kk }
        } else if a == 0x8 && n == 0x0 {
            Instruction::CopyReg { x, y }
        } else if a == 0x8 && n == 0x1 {
            Instruction::OrReg { x, y }
        } else if a == 0x8 && n == 0x2 {
            Instruction::AndReg { x, y }
        } else if a == 0x8 && n == 0x3 {
            Instruction::XorReg { x, y }
        } else if a == 0x8 && n == 0x4 {
            Instruction::AddReg { x, y }
        } else if a == 0x8 && n == 0x5 {
            Instruction::SubReg { x, y }
        } else if a == 0x8 && n == 0x6 {
            Instruction::ShiftRight { x }
        } else if a == 0x8 && n == 0x7 {
            Instruction::SubFromReg { x, y }
        } else if a == 0x8 && n == 0xE {
            Instruction::ShiftLeft { x }
        } else if a == 0x9 && n == 0x0 {
            Instruction::SkipNeReg { x, y }
        } else if a == 0xA {
            Instruction::StoreIndex { nnn }
        } else if a == 0xB {
            Instruction::JumpOffset { nnn }
        } else if a == 0xC {
            Instruction::Random { x, kk }
        } else if a == 0xD {
            Instruction::Draw { x, y, n }
        } else if a == 0xE && kk == 0x9E {
            Instruction::SkipKeyPressed { x }
        } else if a == 0xE && kk == 0xA1 {
            Instruction::SkipKeyNotPressed { x }
        } else if a == 0xF && kk == 0x07 {
            Instruction::ReadDelay { x }
        } else if a == 0xF && kk == 0x0A {
            Instruction::WaitKey { x }
        } else if a == 0xF && kk == 0x15 {
            Instruction::SetDelay { x }
        } else if a == 0xF && kk == 0x18 {
            Instruction::SetSound { x }
        } else if a == 0xF && kk == 0x1E {
            Instruction::AddIndex { x }
        } else if a == 0xF && kk == 0x29 {
            Instruction::FontGlyph { x }
        } else if a == 0xF && kk == 0x33 {
            Instruction::StoreBcd { x }
        } else if a == 0xF && kk == 0x55 {
            Instruction::StoreRegisters { x }
        } else if a == 0xF && kk == 0x65 {
            Instruction::LoadRegisters { x }
        } else {
            Instruction::Unknown
        }
    }
}

} // verus!
