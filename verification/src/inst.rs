//! The instruction set and the decoder.
//!
//! A CHIP-8 opcode is a two-byte word `(b1, b2)`.  Writing `i` for the high
//! nibble of `b1`, `x` for its low nibble, `y` for the high nibble of `b2`,
//! `n` for its low nibble, `nn` for `b2` itself and `nnn` for the 12-bit
//! immediate `(x << 8) | nn`, the decoder maps each recognized bit pattern to
//! one variant of [`Instruction`] and rejects every other pattern.

use vstd::prelude::*;

use crate::errors::VmError;

verus! {

/// A decoded CHIP-8 instruction.
///
/// Variant names carry the opcode pattern they were decoded from; payloads
/// are the operand fields (`x` and `y` as register indices below 16, `n` a
/// 4-bit immediate, `nn` an 8-bit immediate, `nnn` a 12-bit address).
#[derive(Debug, Clone, Copy, PartialEq, Eq, Structural)]
pub enum Instruction {
    Cls00E0,
    SetIndexRegisterANNN(usize),
    SetVRegister6XNN(usize, u8),
    Dxyn(usize, usize, usize),
    Add7XNN(usize, u8),
    Jump1NNN(u16),
    SubroutineCall2NNN(u16),
    SubroutineReturn00EE,
    SkipEqual3XNN(usize, u8),
    SkipNotEqual4XNN(usize, u8),
    BinaryCodedDecimalConversionFX33(usize),
    FontCharacterFX29(usize),
    SetDelayTimerFX15(usize),
    ReadDelayTimerFX07(usize),
    GetKeyFX0A(usize),
    SetSoundTimerFX18(usize),
    AddToIndexFX1E(usize),
    StoreRegistersToMemoryFX55(usize),
    LoadRegistersFromMemoryFX65(usize),
    RandomCXNN(usize, u8),
    SkipIfKeyPressedEX9E(usize),
    SkipIfKeyNotPressedEXA1(usize),
    BinaryAnd8XY2(usize, usize),
    RegisterAdd8XY4(usize, usize),
    RegisterSet8XY0(usize, usize),
    RegisterSub8XY5(usize, usize),
    RegisterSubRev8XY7(usize, usize),
    ShiftRight8XY6(usize, usize),
    ShiftLeft8XYE(usize, usize),
    SkipIfEqual5XY0(usize, usize),
    SkipIfNotEqual9XY0(usize, usize),
    Xor8XY3(usize, usize),
}

/// The decode table as a mathematical function: `Some(instruction)` for each
/// recognized opcode pattern, `None` for every other bit pattern.
pub open spec fn spec_decode(b1: u8, b2: u8) -> Option<Instruction> {
    let i = b1 as int / 16;
    let x = b1 as int % 16;
    let y = b2 as int / 16;
    let n = b2 as int % 16;
    let nnn = x * 256 + b2 as int;
    if b1 == 0x00 && b2 == 0xE0 {
        Some(Instruction::Cls00E0)
    } else if b1 == 0x00 && b2 == 0xEE {
        Some(Instruction::SubroutineReturn00EE)
    } else if i == 0x1 {
        Some(Instruction::Jump1NNN(nnn as u16))
    } else if i == 0x2 {
        Some(Instruction::SubroutineCall2NNN(nnn as u16))
    } else if i == 0x3 {
        Some(Instruction::SkipEqual3XNN(x as usize, b2))
    } else if i == 0x4 {
        Some(Instruction::SkipNotEqual4XNN(x as usize, b2))
    } else if i == 0x5 && n == 0x0 {
        Some(Instruction::SkipIfEqual5XY0(x as usize, y as usize))
    } else if i == 0x6 {
        Some(Instruction::SetVRegister6XNN(x as usize, b2))
    } else if i == 0x7 {
        Some(Instruction::Add7XNN(x as usize, b2))
    } else if i == 0x8 && n == 0x0 {
        Some(Instruction::RegisterSet8XY0(x as usize, y as usize))
    } else if i == 0x8 && n == 0x2 {
        Some(Instruction::BinaryAnd8XY2(x as usize, y as usize))
    } else if i == 0x8 && n == 0x3 {
        Some(Instruction::Xor8XY3(x as usize, y as usize))
    } else if i == 0x8 && n == 0x4 {
        Some(Instruction::RegisterAdd8XY4(x as usize, y as usize))
    } else if i == 0x8 && n == 0x5 {
        Some(Instruction::RegisterSub8XY5(x as usize, y as usize))
    } else if i == 0x8 && n == 0x6 {
        Some(Instruction::ShiftRight8XY6(x as usize, y as usize))
    } else if i == 0x8 && n == 0x7 {
        Some(Instruction::RegisterSubRev8XY7(x as usize, y as usize))
    } else if i == 0x8 && n == 0xE {
        Some(Instruction::ShiftLeft8XYE(x as usize, y as usize))
    } else if i == 0x9 && n == 0x0 {
        Some(Instruction::SkipIfNotEqual9XY0(x as usize, y as usize))
    } else if i == 0xA {
        Some(Instruction::SetIndexRegisterANNN(nnn as usize))
    } else if i == 0xC {
        Some(Instruction::RandomCXNN(x as usize, b2))
    } else if i == 0xD {
        Some(Instruction::Dxyn(x as usize, y as usize, n as usize))
    } else if i == 0xE && b2 == 0x9E {
        Some(Instruction::SkipIfKeyPressedEX9E(x as usize))
    } else if i == 0xE && b2 == 0xA1 {
        Some(Instruction::SkipIfKeyNotPressedEXA1(x as usize))
    } else if i == 0xF && b2 == 0x07 {
        Some(Instruction::ReadDelayTimerFX07(x as usize))
    } else if i == 0xF && b2 == 0x0A {
        Some(Instruction::GetKeyFX0A(x as usize))
    } else if i == 0xF && b2 == 0x15 {
        Some(Instruction::SetDelayTimerFX15(x as usize))
    } else if i == 0xF && b2 == 0x18 {
        Some(Instruction::SetSoundTimerFX18(x as usize))
    } else if i == 0xF && b2 == 0x1E {
        Some(Instruction::AddToIndexFX1E(x as usize))
    } else if i == 0xF && b2 == 0x29 {
        Some(Instruction::FontCharacterFX29(x as usize))
    } else if i == 0xF && b2 == 0x33 {
        Some(Instruction::BinaryCodedDecimalConversionFX33(x as usize))
    } else if i == 0xF && b2 == 0x55 {
        Some(Instruction::StoreRegistersToMemoryFX55(x as usize))
    } else if i == 0xF && b2 == 0x65 {
        Some(Instruction::LoadRegistersFromMemoryFX65(x as usize))
    } else {
        None
    }
}

/// How far the generic program-counter advance moves after an instruction:
/// zero for the two direct control transfers, two for everything else.
pub open spec fn spec_pc_inc(inst: Instruction) -> int {
    match inst {
        Instruction::SubroutineCall2NNN(_) | Instruction::Jump1NNN(_) => 0,
        _ => 2,
    }
}

impl Instruction {
    /// Operand fields are in range: register indices and 4-bit immediates
    /// below 16, 12-bit addresses below 4096.  Every decoded instruction
    /// satisfies this.
    pub open spec fn wf(self) -> bool {
        match self {
            Instruction::Cls00E0 => true,
            Instruction::SetIndexRegisterANNN(nnn) => nnn < 0x1000,
            Instruction::SetVRegister6XNN(x, _nn) => x < 16,
            Instruction::Dxyn(x, y, n) => x < 16 && y < 16 && n < 16,
            Instruction::Add7XNN(x, _nn) => x < 16,
            Instruction::Jump1NNN(nnn) => nnn < 0x1000,
            Instruction::SubroutineCall2NNN(nnn) => nnn < 0x1000,
            Instruction::SubroutineReturn00EE => true,
            Instruction::SkipEqual3XNN(x, _nn) => x < 16,
            Instruction::SkipNotEqual4XNN(x, _nn) => x < 16,
            Instruction::BinaryCodedDecimalConversionFX33(x) => x < 16,
            Instruction::FontCharacterFX29(x) => x < 16,
            Instruction::SetDelayTimerFX15(x) => x < 16,
            Instruction::ReadDelayTimerFX07(x) => x < 16,
            Instruction::GetKeyFX0A(x) => x < 16,
            Instruction::SetSoundTimerFX18(x) => x < 16,
            Instruction::AddToIndexFX1E(x) => x < 16,
            Instruction::StoreRegistersToMemoryFX55(x) => x < 16,
            Instruction::LoadRegistersFromMemoryFX65(x) => x < 16,
            Instruction::RandomCXNN(x, _nn) => x < 16,
            Instruction::SkipIfKeyPressedEX9E(x) => x < 16,
            Instruction::SkipIfKeyNotPressedEXA1(x) => x < 16,
            Instruction::BinaryAnd8XY2(x, y) => x < 16 && y < 16,
            Instruction::RegisterAdd8XY4(x, y) => x < 16 && y < 16,
            Instruction::RegisterSet8XY0(x, y) => x < 16 && y < 16,
            Instruction::RegisterSub8XY5(x, y) => x < 16 && y < 16,
            Instruction::RegisterSubRev8XY7(x, y) => x < 16 && y < 16,
            Instruction::ShiftRight8XY6(x, y) => x < 16 && y < 16,
            Instruction::ShiftLeft8XYE(x, y) => x < 16 && y < 16,
            Instruction::SkipIfEqual5XY0(x, y) => x < 16 && y < 16,
            Instruction::SkipIfNotEqual9XY0(x, y) => x < 16 && y < 16,
            Instruction::Xor8XY3(x, y) => x < 16 && y < 16,
        }
    }

    /// Decodes the two opcode bytes, returning the instruction exactly when
    /// the pattern is in the decode table and `UnknownOpcode` otherwise.
    pub fn new(b1: u8, b2: u8) -> (r: Result<Instruction, VmError>)
        ensures
            match r {
                Ok(inst) => spec_decode(b1, b2) == Some(inst) && inst.wf(),
                Err(e) => spec_decode(b1, b2) is None && e == VmError::UnknownOpcode,
            },
    {
        let i: u8 = b1 >> 4;
        let x: u8 = b1 & 0xf;
        let y: u8 = b2 >> 4;
        let n: u8 = b2 & 0xf;
        let nn: u8 = b2;
        let nnn: u16 = (x as u16) * 256 + (b2 as u16);
        proof {
            assert(b1 >> 4 == b1 / 16 && b1 & 0xf == b1 % 16) by (bit_vector);
            assert(b2 >> 4 == b2 / 16 && b2 & 0xf == b2 % 16) by (bit_vector);
        }
        let xs = x as usize;
        let ys = y as usize;
        let ns = n as usize;
        if b1 == 0x00 && b2 == 0xE0 {
            Ok(Instruction::Cls00E0)
        } else if b1 == 0x00 && b2 == 0xEE {
            Ok(Instruction::SubroutineReturn00EE)
        } else if i == 0x1 {
            Ok(Instruction::Jump1NNN(nnn))
        } else if i == 0x2 {
            Ok(Instruction::SubroutineCall2NNN(nnn))
        } else if i == 0x3 {
            Ok(Instruction::SkipEqual3XNN(xs, nn))
        } else if i == 0x4 {
            Ok(Instruction::SkipNotEqual4XNN(xs, nn))
        } else if i == 0x5 && n == 0x0 {
            Ok(Instruction::SkipIfEqual5XY0(xs, ys))
        } else if i == 0x6 {
            Ok(Instruction::SetVRegister6XNN(xs, nn))
        } else if i == 0x7 {
            Ok(Instruction::Add7XNN(xs, nn))
        } else if i == 0x8 && n == 0x0 {
            Ok(Instruction::RegisterSet8XY0(xs, ys))
        } else if i == 0x8 && n == 0x2 {
            Ok(Instruction::BinaryAnd8XY2(xs, ys))
        } else if i == 0x8 && n == 0x3 {
            Ok(Instruction::Xor8XY3(xs, ys))
        } else if i == 0x8 && n == 0x4 {
            Ok(Instruction::RegisterAdd8XY4(xs, ys))
        } else if i == 0x8 && n == 0x5 {
            Ok(Instruction::RegisterSub8XY5(xs, ys))
        } else if i == 0x8 && n == 0x6 {
            Ok(Instruction::ShiftRight8XY6(xs, ys))
        } else if i == 0x8 && n == 0x7 {
            Ok(Instruction::RegisterSubRev8XY7(xs, ys))
        } else if i == 0x8 && n == 0xE {
            Ok(Instruction::ShiftLeft8XYE(xs, ys))
        } else if i == 0x9 && n == 0x0 {
            Ok(Instruction::SkipIfNotEqual9XY0(xs, ys))
        } else if i == 0xA {
            Ok(Instruction::SetIndexRegisterANNN(nnn as usize))
        } else if i == 0xC {
            Ok(Instruction::RandomCXNN(xs, nn))
        } else if i == 0xD {
            Ok(Instruction::Dxyn(xs, ys, ns))
        } else if i == 0xE && nn == 0x9E {
            Ok(Instruction::SkipIfKeyPressedEX9E(xs))
        } else if i == 0xE && nn == 0xA1 {
            Ok(Instruction::SkipIfKeyNotPressedEXA1(xs))
        } else if i == 0xF && nn == 0x07 {
            Ok(Instruction::ReadDelayTimerFX07(xs))
        } else if i == 0xF && nn == 0x0A {
            Ok(Instruction::GetKeyFX0A(xs))
        } else if i == 0xF && nn == 0x15 {
            Ok(Instruction::SetDelayTimerFX15(xs))
        } else if i == 0xF && nn == 0x18 {
            Ok(Instruction::SetSoundTimerFX18(xs))
        } else if i == 0xF && nn == 0x1E {
            Ok(Instruction::AddToIndexFX1E(xs))
        } else if i == 0xF && nn == 0x29 {
            Ok(Instruction::FontCharacterFX29(xs))
        } else if i == 0xF && nn == 0x33 {
            Ok(Instruction::BinaryCodedDecimalConversionFX33(xs))
        } else if i == 0xF && nn == 0x55 {
            Ok(Instruction::StoreRegistersToMemoryFX55(xs))
        } else if i == 0xF && nn == 0x65 {
            Ok(Instruction::LoadRegistersFromMemoryFX65(xs))
        } else {
            Err(VmError::UnknownOpcode)
        }
    }

    /// How far the generic program-counter advance moves after this
    /// instruction: zero for `jump` and `call`, which set the program counter
    /// directly, and two for everything else.
    pub fn requires_pc_inc(self) -> (r: usize)
        ensures
            r == spec_pc_inc(self),
    {
        match self {
            Instruction::SubroutineCall2NNN(_) | Instruction::Jump1NNN(_) => 0,
            _ => 2,
        }
    }
}

} // verus!
