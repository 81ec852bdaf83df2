use crate::error::Error;
use vstd::prelude::*;

verus! {

/// The bytes below this one that do not draw polygons are looked up in
/// the table of opcodes.
pub const NUM_OPCODES: u8 = 0x1b;

/// An instruction of the bytecode.
#[derive(Clone, Copy, Debug, PartialEq, Eq, Structural)]
pub enum Opcode {
    MovConst,
    Mov,
    Add,
    AddConst,
    Call,
    Ret,
    PauseThread,
    Jmp,
    SetSetVect,
    Jnz,
    CondJmp,
    SetPalette,
    ResetThread,
    SelectVideoPage,
    FillVideoPage,
    CopyVideoPage,
    BlitFrameBuffer,
    KillThread,
    DrawString,
    Sub,
    And,
    Or,
    Shl,
    Shr,
    PlaySound,
    UpdateMemList,
    PlayMusic,
    /// Draw a polygon as a sprite; the flags tell where its place and
    /// its zoom come from.
    DrawPolySprite(u8),
    /// Draw a polygon of the background; the bits are the high byte of
    /// half the position of the polygon in its segment.
    DrawPolyBackground(u8),
}

/// The instruction that a byte of the bytecode stands for. A byte with
/// bit 7 draws a sprite, with its low seven bits as flags. Else a byte
/// with bit 6 draws a polygon of the background, with its low seven bits
/// as the high byte of the place of the polygon. Any other byte is the
/// index of an instruction in the table; beyond the table it is an
/// unknown opcode.
pub open spec fn spec_decode(byte: u8) -> Result<Opcode, Error> {
    if byte & 0x80 != 0 {
        Ok(Opcode::DrawPolySprite(byte & 0x7f))
    } else if byte & 0x40 != 0 {
        Ok(Opcode::DrawPolyBackground(byte & 0x7f))
    } else if byte == 0x00 {
        Ok(Opcode::MovConst)
    } else if byte == 0x01 {
        Ok(Opcode::Mov)
    } else if byte == 0x02 {
        Ok(Opcode::Add)
    } else if byte == 0x03 {
        Ok(Opcode::AddConst)
    } else if byte == 0x04 {
        Ok(Opcode::Call)
    } else if byte == 0x05 {
        Ok(Opcode::Ret)
    } else if byte == 0x06 {
        Ok(Opcode::PauseThread)
    } else if byte == 0x07 {
        Ok(Opcode::Jmp)
    } else if byte == 0x08 {
        Ok(Opcode::SetSetVect)
    } else if byte == 0x09 {
        Ok(Opcode::Jnz)
    } else if byte == 0x0a {
        Ok(Opcode::CondJmp)
    } else if byte == 0x0b {
        Ok(Opcode::SetPalette)
    } else if byte == 0x0c {
        Ok(Opcode::ResetThread)
    } else if byte == 0x0d {
        Ok(Opcode::SelectVideoPage)
    } else if byte == 0x0e {
        Ok(Opcode::FillVideoPage)
    } else if byte == 0x0f {
        Ok(Opcode::CopyVideoPage)
    } else if byte == 0x10 {
        Ok(Opcode::BlitFrameBuffer)
    } else if byte == 0x11 {
        Ok(Opcode::KillThread)
    } else if byte == 0x12 {
        Ok(Opcode::DrawString)
    } else if byte == 0x13 {
        Ok(Opcode::Sub)
    } else if byte == 0x14 {
        Ok(Opcode::And)
    } else if byte == 0x15 {
        Ok(Opcode::Or)
    } else if byte == 0x16 {
        Ok(Opcode::Shl)
    } else if byte == 0x17 {
        Ok(Opcode::Shr)
    } else if byte == 0x18 {
        Ok(Opcode::PlaySound)
    } else if byte == 0x19 {
        Ok(Opcode::UpdateMemList)
    } else if byte == 0x1a {
        Ok(Opcode::PlayMusic)
    } else {
        Err(Error::UnknownOpcode)
    }
}

impl Opcode {
    /// The instruction that a byte of the bytecode stands for.
    pub fn decode(byte: u8) -> (r: Result<Opcode, Error>)
        ensures
            r == spec_decode(byte),
    {
        if byte & 0x80 != 0 {
            Ok(Opcode::DrawPolySprite(byte & 0x7f))
        } else if byte & 0x40 != 0 {
            Ok(Opcode::DrawPolyBackground(byte & 0x7f))
        } else if byte == 0x00 {
            Ok(Opcode::MovConst)
        } else if byte == 0x01 {
            Ok(Opcode::Mov)
        } else if byte == 0x02 {
            Ok(Opcode::Add)
        } else if byte == 0x03 {
            Ok(Opcode::AddConst)
        } else if byte == 0x04 {
            Ok(Opcode::Call)
        } else if byte == 0x05 {
            Ok(Opcode::Ret)
        } else if byte == 0x06 {
            Ok(Opcode::PauseThread)
        } else if byte == 0x07 {
            Ok(Opcode::Jmp)
        } else if byte == 0x08 {
            Ok(Opcode::SetSetVect)
        } else if byte == 0x09 {
            Ok(Opcode::Jnz)
        } else if byte == 0x0a {
            Ok(Opcode::CondJmp)
        } else if byte == 0x0b {
            Ok(Opcode::SetPalette)
        } else if byte == 0x0c {
            Ok(Opcode::ResetThread)
        } else if byte == 0x0d {
            Ok(Opcode::SelectVideoPage)
        } else if byte == 0x0e {
            Ok(Opcode::FillVideoPage)
        } else if byte == 0x0f {
            Ok(Opcode::CopyVideoPage)
        } else if byte == 0x10 {
            Ok(Opcode::BlitFrameBuffer)
        } else if byte == 0x11 {
            Ok(Opcode::KillThread)
        } else if byte == 0x12 {
            Ok(Opcode::DrawString)
        } else if byte == 0x13 {
            Ok(Opcode::Sub)
        } else if byte == 0x14 {
            Ok(Opcode::And)
        } else if byte == 0x15 {
            Ok(Opcode::Or)
        } else if byte == 0x16 {
            Ok(Opcode::Shl)
        } else if byte == 0x17 {
            Ok(Opcode::Shr)
        } else if byte == 0x18 {
            Ok(Opcode::PlaySound)
        } else if byte == 0x19 {
            Ok(Opcode::UpdateMemList)
        } else if byte == 0x1a {
            Ok(Opcode::PlayMusic)
        } else {
            Err(Error::UnknownOpcode)
        }
    }
}

} // verus!
