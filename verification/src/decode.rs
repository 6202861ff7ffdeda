//! Instruction words: their fields, and the instruction each word stands for.

use vstd::prelude::*;
use crate::machine::Fault;

verus! {

/// The fields of an instruction word: its four nibbles, highest first, its
/// low byte and its low twelve bits.
#[derive(Clone, Copy, Debug, PartialEq, Eq, Structural)]
pub struct Fields {
    pub n1: u8,
    pub n2: u8,
    pub n3: u8,
    pub n4: u8,
    pub nn: u8,
    pub nnn: u16,
}

/// One instruction, with its operands: `x` and `y` are register numbers.
#[derive(Clone, Copy, Debug, PartialEq, Eq, Structural)]
pub enum Instruction {
    /// `00E0`
    ClearDisplay,
    /// `00EE`
    Return,
    /// `1nnn`
    Jump { addr: u16 },
    /// `2nnn`
    Call { addr: u16 },
    /// `3xnn`
    SkipIfEqual { x: u8, nn: u8 },
    /// `4xnn`
    SkipIfNotEqual { x: u8, nn: u8 },
    /// `5xy0`
    SkipIfRegistersEqual { x: u8, y: u8 },
    /// `6xnn`
    LoadImmediate { x: u8, nn: u8 },
    /// `7xnn`
    AddImmediate { x: u8, nn: u8 },
    /// `8xy0`
    Copy { x: u8, y: u8 },
    /// `8xy1`
    Or { x: u8, y: u8 },
    /// `8xy2`
    And { x: u8, y: u8 },
    /// `8xy3`
    Xor { x: u8, y: u8 },
    /// `8xy4`
    Add { x: u8, y: u8 },
    /// `8xy5`
    Subtract { x: u8, y: u8 },
    /// `8xy6`
    ShiftRight { x: u8 },
    /// `8xy7`
    SubtractReversed { x: u8, y: u8 },
    /// `8xyE`
    ShiftLeft { x: u8 },
    /// `9xy0`
    SkipIfRegistersDiffer { x: u8, y: u8 },
    /// `Annn`
    SetIndex { addr: u16 },
    /// `Cxnn`
    Random { x: u8, mask: u8 },
    /// `Dxyn`
    Draw { x: u8, y: u8, rows: u8 },
    /// `Ex9E`
    SkipIfKeyDown { x: u8 },
    /// `ExA1`
    SkipIfKeyUp { x: u8 },
    /// `Fx07`
    ReadDelay { x: u8 },
    /// `Fx0A`
    WaitForKey { x: u8 },
    /// `Fx15`
    SetDelay { x: u8 },
    /// `Fx18`
    SetSound { x: u8 },
    /// `Fx1E`
    AddToIndex { x: u8 },
    /// `Fx29`
    Glyph { x: u8 },
    /// `Fx33`
    Decimal { x: u8 },
    /// `Fx55`
    Store { x: u8 },
    /// `Fx65`
    Load { x: u8 },
}

/// The fields of `opcode`, by position.
pub open spec fn fields_of(opcode: u16) -> Fields {
    Fields {
        n1: (opcode / 4096) as u8,
        n2: (opcode / 256 % 16) as u8,
        n3: (opcode / 16 % 16) as u8,
        n4: (opcode % 16) as u8,
        nn: (opcode % 256) as u8,
        nnn: (opcode % 4096) as u16,
    }
}

/// The register-register family `8xy_`, told apart by the last nibble.
pub open spec fn alu_instruction(f: Fields) -> Option<Instruction> {
    let x = f.n2;
    let y = f.n3;
    if f.n4 == 0x0 {
        Some(Instruction::Copy { x, y })
    } else if f.n4 == 0x1 {
        Some(Instruction::Or { x, y })
    } else if f.n4 == 0x2 {
        Some(Instruction::And { x, y })
    } else if f.n4 == 0x3 {
        Some(Instruction::Xor { x, y })
    } else if f.n4 == 0x4 {
        Some(Instruction::Add { x, y })
    } else if f.n4 == 0x5 {
        Some(Instruction::Subtract { x, y })
    } else if f.n4 == 0x6 {
        Some(Instruction::ShiftRight { x })
    } else if f.n4 == 0x7 {
        Some(Instruction::SubtractReversed { x, y })
    } else if f.n4 == 0xE {
        Some(Instruction::ShiftLeft { x })
    } else {
        None
    }
}

/// The family `Fx__`, told apart by the low byte.
pub open spec fn misc_instruction(f: Fields) -> Option<Instruction> {
    let x = f.n2;
    if f.nn == 0x07 {
        Some(Instruction::ReadDelay { x })
    } else if f.nn == 0x0A {
        Some(Instruction::WaitForKey { x })
    } else if f.nn == 0x15 {
        Some(Instruction::SetDelay { x })
    } else if f.nn == 0x18 {
        Some(Instruction::SetSound { x })
    } else if f.nn == 0x1E {
        Some(Instruction::AddToIndex { x })
    } else if f.nn == 0x29 {
        Some(Instruction::Glyph { x })
    } else if f.nn == 0x33 {
        Some(Instruction::Decimal { x })
    } else if f.nn == 0x55 {
        Some(Instruction::Store { x })
    } else if f.nn == 0x65 {
        Some(Instruction::Load { x })
    } else {
        None
    }
}

/// The instruction with the fields `f`, if they match a pattern.
pub open spec fn instruction_of(f: Fields) -> Option<Instruction> {
    let x = f.n2;
    let y = f.n3;
    if f.n1 == 0x0 && f.nnn == 0x0E0 {
        Some(Instruction::ClearDisplay)
    } else if f.n1 == 0x0 && f.nnn == 0x0EE {
        Some(Instruction::Return)
    } else if f.n1 == 0x1 {
        Some(Instruction::Jump { addr: f.nnn })
    } else if f.n1 == 0x2 {
        Some(Instruction::Call { addr: f.nnn })
    } else if f.n1 == 0x3 {
        Some(Instruction::SkipIfEqual { x, nn: f.nn })
    } else if f.n1 == 0x4 {
        Some(Instruction::SkipIfNotEqual { x, nn: f.nn })
    } else if f.n1 == 0x5 && f.n4 == 0 {
        Some(Instruction::SkipIfRegistersEqual { x, y })
    } else if f.n1 == 0x6 {
        Some(Instruction::LoadImmediate { x, nn: f.nn })
    } else if f.n1 == 0x7 {
        Some(Instruction::AddImmediate { x, nn: f.nn })
    } else if f.n1 == 0x8 {
        alu_instruction(f)
    } else if f.n1 == 0x9 && f.n4 == 0 {
        Some(Instruction::SkipIfRegistersDiffer { x, y })
    } else if f.n1 == 0xA {
        Some(Instruction::SetIndex { addr: f.nnn })
    } else if f.n1 == 0xC {
        Some(Instruction::Random { x, mask: f.nn })
    } else if f.n1 == 0xD {
        Some(Instruction::Draw { x, y, rows: f.n4 })
    } else if f.n1 == 0xE && f.nn == 0x9E {
        Some(Instruction::SkipIfKeyDown { x })
    } else if f.n1 == 0xE && f.nn == 0xA1 {
        Some(Instruction::SkipIfKeyUp { x })
    } else if f.n1 == 0xF {
        misc_instruction(f)
    } else {
        None
    }
}

/// The instruction that `opcode` stands for; a word that matches no pattern
/// is a fault that carries the word.
pub open spec fn decoded(opcode: u16) -> Result<Instruction, Fault> {
    match instruction_of(fields_of(opcode)) {
        Some(instr) => Ok(instr),
        None => Err(Fault::UnknownOpcode(opcode)),
    }
}

impl Instruction {
    /// Register numbers are below 16, addresses below 4096, and a sprite has
    /// at most 15 rows.
    pub open spec fn wf(self) -> bool {
        match self {
            Instruction::ClearDisplay | Instruction::Return => true,
            Instruction::Jump { addr } | Instruction::Call { addr } | Instruction::SetIndex {
                addr,
            } => addr < 4096,
            Instruction::SkipIfEqual { x, .. }
            | Instruction::SkipIfNotEqual { x, .. }
            | Instruction::LoadImmediate { x, .. }
            | Instruction::AddImmediate { x, .. }
            | Instruction::Random { x, .. }
            | Instruction::ShiftRight { x }
            | Instruction::ShiftLeft { x }
            | Instruction::SkipIfKeyDown { x }
            | Instruction::SkipIfKeyUp { x }
            | Instruction::ReadDelay { x }
            | Instruction::WaitForKey { x }
            | Instruction::SetDelay { x }
            | Instruction::SetSound { x }
            | Instruction::AddToIndex { x }
            | Instruction::Glyph { x }
            | Instruction::Decimal { x }
            | Instruction::Store { x }
            | Instruction::Load { x } => x < 16,
            Instruction::SkipIfRegistersEqual { x, y }
            | Instruction::SkipIfRegistersDiffer { x, y }
            | Instruction::Copy { x, y }
            | Instruction::Or { x, y }
            | Instruction::And { x, y }
            | Instruction::Xor { x, y }
            | Instruction::Add { x, y }
            | Instruction::Subtract { x, y }
            | Instruction::SubtractReversed { x, y } => x < 16 && y < 16,
            Instruction::Draw { x, y, rows } => x < 16 && y < 16 && rows < 16,
        }
    }
}

/// Every instruction that a word decodes to has operands in range.
pub proof fn lemma_decoded_wf(opcode: u16)
    ensures
        decoded(opcode) matches Ok(instr) ==> instr.wf(),
        decoded(opcode) matches Err(fault) ==> fault == Fault::UnknownOpcode(opcode),
{
    assert(opcode / 4096 < 16);
}

/// Splits an instruction word into its fields.
pub fn split(opcode: u16) -> (f: Fields)
    ensures
        f == fields_of(opcode),
{
    assert((opcode & 0xF000) >> 12 == opcode / 4096 && (opcode & 0xF000) >> 12 < 16)
        by (bit_vector);
    assert((opcode & 0x0F00) >> 8 == opcode / 256 % 16) by (bit_vector);
    assert((opcode & 0x00F0) >> 4 == opcode / 16 % 16) by (bit_vector);
    assert(opcode & 0x000F == opcode % 16) by (bit_vector);
    assert(opcode & 0x00FF == opcode % 256) by (bit_vector);
    assert(opcode & 0x0FFF == opcode % 4096) by (bit_vector);
    Fields {
        n1: ((opcode & 0xF000) >> 12) as u8,
        n2: ((opcode & 0x0F00) >> 8) as u8,
        n3: ((opcode & 0x00F0) >> 4) as u8,
        n4: (opcode & 0x000F) as u8,
        nn: (opcode & 0x00FF) as u8,
        nnn: opcode & 0x0FFF,
    }
}

/// Classifies an instruction word.
pub fn decode(opcode: u16) -> (res: Result<Instruction, Fault>)
    ensures
        res == decoded(opcode),
        res matches Ok(instr) ==> instr.wf(),
        res matches Err(fault) ==> fault == Fault::UnknownOpcode(opcode),
{
    proof {
        lemma_decoded_wf(opcode);
    }
    let f = split(opcode);
    let x = f.n2;
    let y = f.n3;
    match f.n1 {
        0x0 if f.nnn == 0x0E0 => Ok(Instruction::ClearDisplay),
        0x0 if f.nnn == 0x0EE => Ok(Instruction::Return),
        0x1 => Ok(Instruction::Jump { addr: f.nnn }),
        0x2 => Ok(Instruction::Call { addr: f.nnn }),
        0x3 => Ok(Instruction::SkipIfEqual { x, nn: f.nn }),
        0x4 => Ok(Instruction::SkipIfNotEqual { x, nn: f.nn }),
        0x5 if f.n4 == 0 => Ok(Instruction::SkipIfRegistersEqual { x, y }),
        0x6 => Ok(Instruction::LoadImmediate { x, nn: f.nn }),
        0x7 => Ok(Instruction::AddImmediate { x, nn: f.nn }),
        0x8 => match f.n4 {
            0x0 => Ok(Instruction::Copy { x, y }),
            0x1 => Ok(Instruction::Or { x, y }),
            0x2 => Ok(Instruction::And { x, y }),
            0x3 => Ok(Instruction::Xor { x, y }),
            0x4 => Ok(Instruction::Add { x, y }),
            0x5 => Ok(Instruction::Subtract { x, y }),
            0x6 => Ok(Instruction::ShiftRight { x }),
            0x7 => Ok(Instruction::SubtractReversed { x, y }),
            0xE => Ok(Instruction::ShiftLeft { x }),
            _ => Err(Fault::UnknownOpcode(opcode)),
        },
        0x9 if f.n4 == 0 => Ok(Instruction::SkipIfRegistersDiffer { x, y }),
        0xA => Ok(Instruction::SetIndex { addr: f.nnn }),
        0xC => Ok(Instruction::Random { x, mask: f.nn }),
        0xD => Ok(Instruction::Draw { x, y, rows: f.n4 }),
        0xE if f.nn == 0x9E => Ok(Instruction::SkipIfKeyDown { x }),
        0xE if f.nn == 0xA1 => Ok(Instruction::SkipIfKeyUp { x }),
        0xF => match f.nn {
            0x07 => Ok(Instruction::ReadDelay { x }),
            0x0A => Ok(Instruction::WaitForKey { x }),
            0x15 => Ok(Instruction::SetDelay { x }),
            0x18 => Ok(Instruction::SetSound { x }),
            0x1E => Ok(Instruction::AddToIndex { x }),
            0x29 => Ok(Instruction::Glyph { x }),
            0x33 => Ok(Instruction::Decimal { x }),
            0x55 => Ok(Instruction::Store { x }),
            0x65 => Ok(Instruction::Load { x }),
            _ => Err(Fault::UnknownOpcode(opcode)),
        },
        _ => Err(Fault::UnknownOpcode(opcode)),
    }
}

} // verus!
