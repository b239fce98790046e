use vstd::prelude::*;

use crate::error::Error;

verus! {

/// The five operand fields that every 16-bit instruction word carries.
#[derive(Debug, Clone, Copy, PartialEq, Eq)]
pub struct Fields {
    /// Low 12 bits: an address.
    pub nnn: u16,
    /// Low 8 bits: an immediate byte.
    pub nn: u8,
    /// Low 4 bits: a sprite height or a sub-code.
    pub n: u8,
    /// Bits 8 to 11: the first register index.
    pub x: u8,
    /// Bits 4 to 7: the second register index.
    pub y: u8,
}

/// The top nibble of an instruction word, which selects its family.
pub open spec fn family_of(opcode: u16) -> u16 {
    opcode / 0x1000
}

/// The fields of an instruction word, stated arithmetically.
pub open spec fn fields_of(opcode: u16) -> Fields {
    Fields {
        nnn: opcode % 0x1000,
        nn: (opcode % 0x100) as u8,
        n: (opcode % 0x10) as u8,
        x: ((opcode / 0x100) % 0x10) as u8,
        y: ((opcode / 0x10) % 0x10) as u8,
    }
}

/// The masks and shifts used by `fields` agree with the arithmetic statement.
proof fn lemma_masks(opcode: u16)
    ensures
        opcode & 0x0FFF == opcode % 0x1000,
        opcode & 0x00FF == opcode % 0x100,
        opcode & 0x000F == opcode % 0x10,
        (opcode & 0x0F00) >> 8u16 == (opcode / 0x100) % 0x10,
        (opcode & 0x00F0) >> 4u16 == (opcode / 0x10) % 0x10,
        opcode >> 12u16 == opcode / 0x1000,
{
    assert(opcode & 0x0FFF == opcode % 0x1000) by (bit_vector);
    assert(opcode & 0x00FF == opcode % 0x100) by (bit_vector);
    assert(opcode & 0x000F == opcode % 0x10) by (bit_vector);
    assert((opcode & 0x0F00) >> 8u16 == (opcode / 0x100) % 0x10) by (bit_vector);
    assert((opcode & 0x00F0) >> 4u16 == (opcode / 0x10) % 0x10) by (bit_vector);
    assert(opcode >> 12u16 == opcode / 0x1000) by (bit_vector);
}

/// Extracts the operand fields of an instruction word.
pub fn fields(opcode: u16) -> (f: Fields)
    ensures
        f == fields_of(opcode),
{
    proof {
        lemma_masks(opcode);
    }
    Fields {
        nnn: opcode & 0x0FFF,
        nn: (opcode & 0x00FF) as u8,
        n: (opcode & 0x000F) as u8,
        x: ((opcode & 0x0F00) >> 8) as u8,
        y: ((opcode & 0x00F0) >> 4) as u8,
    }
}

/// One decoded CHIP-8 instruction. `x` and `y` are register indices
/// (0 to 15), `nn` an immediate byte, `nnn` a 12-bit address, `n` a
/// sprite height.
#[derive(Debug, Clone, Copy, PartialEq, Eq)]
pub enum Instruction {
    /// `00E0`: clear the screen.
    ClearScreen,
    /// `00EE`: return from a subroutine.
    Return,
    /// `1NNN`: jump to NNN.
    Jump { nnn: u16 },
    /// `2NNN`: call the subroutine at NNN.
    Call { nnn: u16 },
    /// `3XNN`: skip the next instruction if Vx == NN.
    SkipIfEqual { x: u8, nn: u8 },
    /// `4XNN`: skip the next instruction if Vx != NN.
    SkipIfNotEqual { x: u8, nn: u8 },
    /// `5XY0`: skip the next instruction if Vx == Vy.
    SkipIfRegistersEqual { x: u8, y: u8 },
    /// `6XNN`: Vx := NN.
    Load { x: u8, nn: u8 },
    /// `7XNN`: Vx := Vx + NN, wrapping, VF untouched.
    AddImmediate { x: u8, nn: u8 },
    /// `8XY0`: Vx := Vy.
    Assign { x: u8, y: u8 },
    /// `8XY1`: Vx := Vx | Vy.
    Or { x: u8, y: u8 },
    /// `8XY2`: Vx := Vx & Vy.
    And { x: u8, y: u8 },
    /// `8XY3`: Vx := Vx ^ Vy.
    Xor { x: u8, y: u8 },
    /// `8XY4`: Vx := Vx + Vy, VF := carry.
    AddRegisters { x: u8, y: u8 },
    /// `8XY5`: Vx := Vx - Vy, VF := 1 when Vx > Vy.
    Subtract { x: u8, y: u8 },
    /// `8XY6`: Vx := Vx >> 1, VF := the bit shifted out.
    ShiftRight { x: u8, y: u8 },
    /// `8XY7`: Vx := Vy - Vx, VF := 1 when Vy > Vx.
    SubtractReversed { x: u8, y: u8 },
    /// `8XYE`: Vx := Vx << 1, VF := the bit shifted out.
    ShiftLeft { x: u8, y: u8 },
    /// `9XY0`: skip the next instruction if Vx != Vy.
    SkipIfRegistersNotEqual { x: u8, y: u8 },
    /// `ANNN`: I := NNN.
    SetIndex { nnn: u16 },
    /// `BNNN`: jump to NNN + V0.
    JumpOffset { nnn: u16 },
    /// `CXNN`: Vx := a random byte & NN.
    Random { x: u8, nn: u8 },
    /// `DXYN`: draw an N-row sprite from memory at I at (Vx, Vy).
    Draw { x: u8, y: u8, n: u8 },
    /// `EX9E`: skip the next instruction if key Vx is down.
    SkipIfKey { x: u8 },
    /// `EXA1`: skip the next instruction if key Vx is up.
    SkipIfNotKey { x: u8 },
    /// `FX07`: Vx := delay timer.
    GetDelay { x: u8 },
    /// `FX0A`: wait until a key is down and store it in Vx.
    WaitKey { x: u8 },
    /// `FX15`: delay timer := Vx.
    SetDelay { x: u8 },
    /// `FX18`: sound timer := Vx.
    SetSound { x: u8 },
    /// `FX1E`: I := I + Vx.
    AddIndex { x: u8 },
    /// `FX29`: I := address of the font glyph for digit Vx.
    FontCharacter { x: u8 },
    /// `FX33`: store the decimal digits of Vx at I, I+1, I+2.
    StoreBcd { x: u8 },
    /// `FX55`: store V0..=Vx in memory from I.
    StoreRegisters { x: u8 },
    /// `FX65`: load V0..=Vx from memory from I.
    LoadRegisters { x: u8 },
}

impl Instruction {
    /// Register operands name one of the sixteen registers, as they do in
    /// every decoded instruction.
    pub open spec fn wf(self) -> bool {
        match self {
            Instruction::ClearScreen | Instruction::Return => true,
            Instruction::Jump { .. } | Instruction::Call { .. } => true,
            Instruction::SetIndex { .. } | Instruction::JumpOffset { .. } => true,
            Instruction::SkipIfEqual { x, .. } | Instruction::SkipIfNotEqual { x, .. } => x < 16,
            Instruction::Load { x, .. } | Instruction::AddImmediate { x, .. } => x < 16,
            Instruction::Random { x, .. } => x < 16,
            Instruction::SkipIfRegistersEqual { x, y } | Instruction::SkipIfRegistersNotEqual {
                x,
                y,
            } => x < 16 && y < 16,
            Instruction::Assign { x, y } | Instruction::Or { x, y } | Instruction::And { x, y }
            | Instruction::Xor { x, y } => x < 16 && y < 16,
            Instruction::AddRegisters { x, y } | Instruction::Subtract { x, y }
            | Instruction::ShiftRight { x, y } => x < 16 && y < 16,
            Instruction::SubtractReversed { x, y } | Instruction::ShiftLeft { x, y } => x < 16
                && y < 16,
            Instruction::Draw { x, y, .. } => x < 16 && y < 16,
            Instruction::SkipIfKey { x } | Instruction::SkipIfNotKey { x } => x < 16,
            Instruction::GetDelay { x } | Instruction::WaitKey { x } => x < 16,
            Instruction::SetDelay { x } | Instruction::SetSound { x } => x < 16,
            Instruction::AddIndex { x } | Instruction::FontCharacter { x } => x < 16,
            Instruction::StoreBcd { x } | Instruction::StoreRegisters { x } => x < 16,
            Instruction::LoadRegisters { x } => x < 16,
        }
    }
}

/// What an instruction word decodes to: dispatch on the top nibble, then on
/// the low byte (families 0, E, F) or the low nibble (family 8).
pub open spec fn decode_spec(opcode: u16) -> Result<Instruction, Error> {
    let f = fields_of(opcode);
    let family = family_of(opcode);
    if family == 0x0 {
        if f.nn == 0xE0 {
            Ok(Instruction::ClearScreen)
        } else if f.nn == 0xEE {
            Ok(Instruction::Return)
        } else {
            Err(Error::UnknownOpcode(opcode))
        }
    } else if family == 0x1 {
        Ok(Instruction::Jump { nnn: f.nnn })
    } else if family == 0x2 {
        Ok(Instruction::Call { nnn: f.nnn })
    } else if family == 0x3 {
        Ok(Instruction::SkipIfEqual { x: f.x, nn: f.nn })
    } else if family == 0x4 {
        Ok(Instruction::SkipIfNotEqual { x: f.x, nn: f.nn })
    } else if family == 0x5 {
        Ok(Instruction::SkipIfRegistersEqual { x: f.x, y: f.y })
    } else if family == 0x6 {
        Ok(Instruction::Load { x: f.x, nn: f.nn })
    } else if family == 0x7 {
        Ok(Instruction::AddImmediate { x: f.x, nn: f.nn })
    } else if family == 0x8 {
        if f.n == 0x0 {
            Ok(Instruction::Assign { x: f.x, y: f.y })
        } else if f.n == 0x1 {
            Ok(Instruction::Or { x: f.x, y: f.y })
        } else if f.n == 0x2 {
            Ok(Instruction::And { x: f.x, y: f.y })
        } else if f.n == 0x3 {
            Ok(Instruction::Xor { x: f.x, y: f.y })
        } else if f.n == 0x4 {
            Ok(Instruction::AddRegisters { x: f.x, y: f.y })
        } else if f.n == 0x5 {
            Ok(Instruction::Subtract { x: f.x, y: f.y })
        } else if f.n == 0x6 {
            Ok(Instruction::ShiftRight { x: f.x, y: f.y })
        } else if f.n == 0x7 {
            Ok(Instruction::SubtractReversed { x: f.x, y: f.y })
        } else if f.n == 0xE {
            Ok(Instruction::ShiftLeft { x: f.x, y: f.y })
        } else {
            Err(Error::UnknownOpcode(opcode))
        }
    } else if family == 0x9 {
        Ok(Instruction::SkipIfRegistersNotEqual { x: f.x, y: f.y })
    } else if family == 0xA {
        Ok(Instruction::SetIndex { nnn: f.nnn })
    } else if family == 0xB {
        Ok(Instruction::JumpOffset { nnn: f.nnn })
    } else if family == 0xC {
        Ok(Instruction::Random { x: f.x, nn: f.nn })
    } else if family == 0xD {
        Ok(Instruction::Draw { x: f.x, y: f.y, n: f.n })
    } else if family == 0xE {
        if f.nn == 0x9E {
            Ok(Instruction::SkipIfKey { x: f.x })
        } else if f.nn == 0xA1 {
            Ok(Instruction::SkipIfNotKey { x: f.x })
        } else {
            Err(Error::UnknownOpcode(opcode))
        }
    } else {
        if f.nn == 0x07 {
            Ok(Instruction::GetDelay { x: f.x })
        } else if f.nn == 0x0A {
            Ok(Instruction::WaitKey { x: f.x })
        } else if f.nn == 0x15 {
            Ok(Instruction::SetDelay { x: f.x })
        } else if f.nn == 0x18 {
            Ok(Instruction::SetSound { x: f.x })
        } else if f.nn == 0x1E {
            Ok(Instruction::AddIndex { x: f.x })
        } else if f.nn == 0x29 {
            Ok(Instruction::FontCharacter { x: f.x })
        } else if f.nn == 0x33 {
            Ok(Instruction::StoreBcd { x: f.x })
        } else if f.nn == 0x55 {
            Ok(Instruction::StoreRegisters { x: f.x })
        } else if f.nn == 0x65 {
            Ok(Instruction::LoadRegisters { x: f.x })
        } else {
            Err(Error::UnknownOpcode(opcode))
        }
    }
}

/// Decodes an instruction word into an instruction, or reports it as unknown.
pub fn decode(opcode: u16) -> (r: Result<Instruction, Error>)
    ensures
        r == decode_spec(opcode),
        r matches Ok(ins) ==> ins.wf(),
{
    let f = fields(opcode);
    let family = opcode >> 12;
    proof {
        lemma_masks(opcode);
    }
    let (x, y, nn, nnn) = (f.x, f.y, f.nn, f.nnn);
    match family {
        0x0 => match nn {
            0xE0 => Ok(Instruction::ClearScreen),
            0xEE => Ok(Instruction::Return),
            _ => Err(Error::UnknownOpcode(opcode)),
        },
        0x1 => Ok(Instruction::Jump { nnn }),
        0x2 => Ok(Instruction::Call { nnn }),
        0x3 => Ok(Instruction::SkipIfEqual { x, nn }),
        0x4 => Ok(Instruction::SkipIfNotEqual { x, nn }),
        0x5 => Ok(Instruction::SkipIfRegistersEqual { x, y }),
        0x6 => Ok(Instruction::Load { x, nn }),
        0x7 => Ok(Instruction::AddImmediate { x, nn }),
        0x8 => match f.n {
            0x0 => Ok(Instruction::Assign { x, y }),
            0x1 => Ok(Instruction::Or { x, y }),
            0x2 => Ok(Instruction::And { x, y }),
            0x3 => Ok(Instruction::Xor { x, y }),
            0x4 => Ok(Instruction::AddRegisters { x, y }),
            0x5 => Ok(Instruction::Subtract { x, y }),
            0x6 => Ok(Instruction::ShiftRight { x, y }),
            0x7 => Ok(Instruction::SubtractReversed { x, y }),
            0xE => Ok(Instruction::ShiftLeft { x, y }),
            _ => Err(Error::UnknownOpcode(opcode)),
        },
        0x9 => Ok(Instruction::SkipIfRegistersNotEqual { x, y }),
        0xA => Ok(Instruction::SetIndex { nnn }),
        0xB => Ok(Instruction::JumpOffset { nnn }),
        0xC => Ok(Instruction::Random { x, nn }),
        0xD => Ok(Instruction::Draw { x, y, n: f.n }),
        0xE => match nn {
            0x9E => Ok(Instruction::SkipIfKey { x }),
            0xA1 => Ok(Instruction::SkipIfNotKey { x }),
            _ => Err(Error::UnknownOpcode(opcode)),
        },
        _ => match nn {
            0x07 => Ok(Instruction::GetDelay { x }),
            0x0A => Ok(Instruction::WaitKey { x }),
            0x15 => Ok(Instruction::SetDelay { x }),
            0x18 => Ok(Instruction::SetSound { x }),
            0x1E => Ok(Instruction::AddIndex { x }),
            0x29 => Ok(Instruction::FontCharacter { x }),
            0x33 => Ok(Instruction::StoreBcd { x }),
            0x55 => Ok(Instruction::StoreRegisters { x }),
            0x65 => Ok(Instruction::LoadRegisters { x }),
            _ => Err(Error::UnknownOpcode(opcode)),
        },
    }
}

/// A word of family 0 whose low byte is neither `E0` nor `EE` is rejected
/// as an unknown opcode carrying the word itself.
pub proof fn lemma_unknown_system_opcode(opcode: u16)
    requires
        family_of(opcode) == 0,
        opcode % 0x100 != 0xE0,
        opcode % 0x100 != 0xEE,
    ensures
        decode_spec(opcode) == Err::<Instruction, Error>(Error::UnknownOpcode(opcode)),
{
}

/// Decoding only reads the word: equal words give equal fields, and the
/// fields put back together give the word.
pub proof fn lemma_fields_deterministic(a: u16, b: u16)
    requires
        a == b,
    ensures
        fields_of(a) == fields_of(b),
        family_of(a) * 0x1000 + fields_of(a).nnn == a,
        fields_of(a).nnn == fields_of(a).x * 0x100 + fields_of(a).nn,
        fields_of(a).nn == fields_of(a).y * 0x10 + fields_of(a).n,
        fields_of(a).x < 16,
        fields_of(a).y < 16,
        fields_of(a).n < 16,
{
}

} // verus!
