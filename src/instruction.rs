//! Decoding of instruction words into a tagged instruction.

use vstd::prelude::*;
use crate::error::Chip8Error;

verus! {

/// One decoded instruction. `x` and `y` name registers, `n` a nibble, `nn`
/// a byte and `addr` a 12-bit address, all taken from the instruction word.
#[derive(Debug, Clone, Copy, PartialEq, Eq, Structural)]
pub enum Instruction {
    ClearDisplay,
    Return,
    Jump(u16),
    Call(u16),
    SkipIfRegEqImm(u8, u8),
    SkipIfRegNeqImm(u8, u8),
    SkipIfRegEqReg(u8, u8),
    SetRegToImm(u8, u8),
    AddImmToReg(u8, u8),
    SetRegToReg(u8, u8),
    BitwiseOr(u8, u8),
    BitwiseAnd(u8, u8),
    BitwiseXor(u8, u8),
    AddRegToReg(u8, u8),
    SubRegFromReg(u8, u8),
    RightShift(u8),
    RsbRegFromReg(u8, u8),
    LeftShift(u8),
    SkipIfRegNeqReg(u8, u8),
    SetIToAddr(u16),
    JumpWithOffset(u16),
    SetRegToRand(u8, u8),
    Draw(u8, u8, u8),
    SkipIfKeyPressed(u8),
    SkipIfKeyNotPressed(u8),
    GetDelayTimer(u8),
    GetKey(u8),
    SetDelayTimer(u8),
    SetSoundTimer(u8),
    AddRegToI(u8),
    SetIToFont(u8),
    SetBcd(u8),
    RegDump(u8),
    RegLoad(u8),
}

/// Bits 12-15: the operation family.
pub open spec fn family(op: u16) -> u16 {
    op / 4096
}

/// Bits 8-11: the first register operand.
pub open spec fn field_x(op: u16) -> u8 {
    ((op / 256) % 16) as u8
}

/// Bits 4-7: the second register operand.
pub open spec fn field_y(op: u16) -> u8 {
    ((op / 16) % 16) as u8
}

/// Bits 0-3.
pub open spec fn field_n(op: u16) -> u8 {
    (op % 16) as u8
}

/// Bits 0-7.
pub open spec fn field_nn(op: u16) -> u8 {
    (op % 256) as u8
}

/// Bits 0-11.
pub open spec fn field_nnn(op: u16) -> u16 {
    op % 4096
}

/// The instruction that `op` encodes, if any.
pub open spec fn decode_spec(op: u16) -> Option<Instruction> {
    let x = field_x(op);
    let y = field_y(op);
    let n = field_n(op);
    let nn = field_nn(op);
    let nnn = field_nnn(op);
    let f = family(op);
    if f == 0x0 {
        if nnn == 0x0e0 {
            Some(Instruction::ClearDisplay)
        } else if nnn == 0x0ee {
            Some(Instruction::Return)
        } else {
            None
        }
    } else if f == 0x1 {
        Some(Instruction::Jump(nnn))
    } else if f == 0x2 {
        Some(Instruction::Call(nnn))
    } else if f == 0x3 {
        Some(Instruction::SkipIfRegEqImm(x, nn))
    } else if f == 0x4 {
        Some(Instruction::SkipIfRegNeqImm(x, nn))
    } else if f == 0x5 {
        if n == 0 { Some(Instruction::SkipIfRegEqReg(x, y)) } else { None }
    } else if f == 0x6 {
        Some(Instruction::SetRegToImm(x, nn))
    } else if f == 0x7 {
        Some(Instruction::AddImmToReg(x, nn))
    } else if f == 0x8 {
        if n == 0x0 {
            Some(Instruction::SetRegToReg(x, y))
        } else if n == 0x1 {
            Some(Instruction::BitwiseOr(x, y))
        } else if n == 0x2 {
            Some(Instruction::BitwiseAnd(x, y))
        } else if n == 0x3 {
            Some(Instruction::BitwiseXor(x, y))
        } else if n == 0x4 {
            Some(Instruction::AddRegToReg(x, y))
        } else if n == 0x5 {
            Some(Instruction::SubRegFromReg(x, y))
        } else if n == 0x6 {
            Some(Instruction::RightShift(x))
        } else if n == 0x7 {
            Some(Instruction::RsbRegFromReg(x, y))
        } else if n == 0xe {
            Some(Instruction::LeftShift(x))
        } else {
            None
        }
    } else if f == 0x9 {
        if n == 0 { Some(Instruction::SkipIfRegNeqReg(x, y)) } else { None }
    } else if f == 0xa {
        Some(Instruction::SetIToAddr(nnn))
    } else if f == 0xb {
        Some(Instruction::JumpWithOffset(nnn))
    } else if f == 0xc {
        Some(Instruction::SetRegToRand(x, nn))
    } else if f == 0xd {
        Some(Instruction::Draw(x, y, n))
    } else if f == 0xe {
        if nn == 0x9e {
            Some(Instruction::SkipIfKeyPressed(x))
        } else if nn == 0xa1 {
            Some(Instruction::SkipIfKeyNotPressed(x))
        } else {
            None
        }
    } else {
        if nn == 0x07 {
            Some(Instruction::GetDelayTimer(x))
        } else if nn == 0x0a {
            Some(Instruction::GetKey(x))
        } else if nn == 0x15 {
            Some(Instruction::SetDelayTimer(x))
        } else if nn == 0x18 {
            Some(Instruction::SetSoundTimer(x))
        } else if nn == 0x1e {
            Some(Instruction::AddRegToI(x))
        } else if nn == 0x29 {
            Some(Instruction::SetIToFont(x))
        } else if nn == 0x33 {
            Some(Instruction::SetBcd(x))
        } else if nn == 0x55 {
            Some(Instruction::RegDump(x))
        } else if nn == 0x65 {
            Some(Instruction::RegLoad(x))
        } else {
            None
        }
    }
}

/// Decodes an instruction word; a word that encodes no instruction is an
/// `UnknownInstruction` error carrying the word.
pub fn decode(opcode: u16) -> (r: Result<Instruction, Chip8Error>)
    ensures
        match r {
            Ok(inst) => decode_spec(opcode) == Some(inst),
            Err(e) => decode_spec(opcode) is None && e == Chip8Error::UnknownInstruction(opcode),
        },
{
    let x = ((opcode / 256) % 16) as u8;
    let y = ((opcode / 16) % 16) as u8;
    let n = (opcode % 16) as u8;
    let nn = (opcode % 256) as u8;
    let nnn = opcode % 4096;
    let unknown = Err(Chip8Error::UnknownInstruction(opcode));
    match opcode / 4096 {
        0x0 => match nnn {
            0x0e0 => Ok(Instruction::ClearDisplay),
            0x0ee => Ok(Instruction::Return),
            _ => unknown,
        },
        0x1 => Ok(Instruction::Jump(nnn)),
        0x2 => Ok(Instruction::Call(nnn)),
        0x3 => Ok(Instruction::SkipIfRegEqImm(x, nn)),
        0x4 => Ok(Instruction::SkipIfRegNeqImm(x, nn)),
        0x5 => if n == 0 { Ok(Instruction::SkipIfRegEqReg(x, y)) } else { unknown },
        0x6 => Ok(Instruction::SetRegToImm(x, nn)),
        0x7 => Ok(Instruction::AddImmToReg(x, nn)),
        0x8 => match n {
            0x0 => Ok(Instruction::SetRegToReg(x, y)),
            0x1 => Ok(Instruction::BitwiseOr(x, y)),
            0x2 => Ok(Instruction::BitwiseAnd(x, y)),
            0x3 => Ok(Instruction::BitwiseXor(x, y)),
            0x4 => Ok(Instruction::AddRegToReg(x, y)),
            0x5 => Ok(Instruction::SubRegFromReg(x, y)),
            0x6 => Ok(Instruction::RightShift(x)),
            0x7 => Ok(Instruction::RsbRegFromReg(x, y)),
            0xe => Ok(Instruction::LeftShift(x)),
            _ => unknown,
        },
        0x9 => if n == 0 { Ok(Instruction::SkipIfRegNeqReg(x, y)) } else { unknown },
        0xa => Ok(Instruction::SetIToAddr(nnn)),
        0xb => Ok(Instruction::JumpWithOffset(nnn)),
        0xc => Ok(Instruction::SetRegToRand(x, nn)),
        0xd => Ok(Instruction::Draw(x, y, n)),
        0xe => match nn {
            0x9e => Ok(Instruction::SkipIfKeyPressed(x)),
            0xa1 => Ok(Instruction::SkipIfKeyNotPressed(x)),
            _ => unknown,
        },
        _ => match nn {
            0x07 => Ok(Instruction::GetDelayTimer(x)),
            0x0a => Ok(Instruction::GetKey(x)),
            0x15 => Ok(Instruction::SetDelayTimer(x)),
            0x18 => Ok(Instruction::SetSoundTimer(x)),
            0x1e => Ok(Instruction::AddRegToI(x)),
            0x29 => Ok(Instruction::SetIToFont(x)),
            0x33 => Ok(Instruction::SetBcd(x)),
            0x55 => Ok(Instruction::RegDump(x)),
            0x65 => Ok(Instruction::RegLoad(x)),
            _ => unknown,
        },
    }
}

} // verus!
