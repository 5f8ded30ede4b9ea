//! The opcode decoder: a pure, total function from a raw 16-bit opcode to a
//! typed instruction, or `None` for a word outside the canonical table.
use vstd::prelude::*;

use crate::instruction::Instruction;

verus! {

/// The top nibble of an opcode, selecting the instruction family.
pub open spec fn op_major(op: u16) -> u16 {
    op / 0x1000
}

/// The second nibble: the register index `x`.
pub open spec fn op_x(op: u16) -> u8 {
    ((op / 0x100) % 0x10) as u8
}

/// The third nibble: the register index `y`.
pub open spec fn op_y(op: u16) -> u8 {
    ((op / 0x10) % 0x10) as u8
}

/// The bottom nibble: the sub-opcode or count `n`.
pub open spec fn op_n(op: u16) -> u8 {
    (op % 0x10) as u8
}

/// The bottom byte: the immediate `kk`.
pub open spec fn op_kk(op: u16) -> u8 {
    (op % 0x100) as u8
}

/// The bottom three nibbles: the 12-bit address `nnn`.
pub open spec fn op_nnn(op: u16) -> u16 {
    op % 0x1000
}

/// The canonical decode table: every `u16` maps to exactly one instruction or
/// to `None`. `decode` is proved to return exactly this.
pub open spec fn spec_decode(op: u16) -> Option<Instruction> {
    let x = op_x(op);
    let y = op_y(op);
    let n = op_n(op);
    let kk = op_kk(op);
    let nnn = op_nnn(op);
    if op_major(op) == 0x0 {
        if kk == 0xE0 {
            Some(Instruction::Cls)
        } else if kk == 0xEE {
            Some(Instruction::Ret)
        } else {
            None
        }
    } else if op_major(op) == 0x1 {
        Some(Instruction::Jump(nnn))
    } else if op_major(op) == 0x2 {
        Some(Instruction::Call(nnn))
    } else if op_major(op) == 0x3 {
        Some(Instruction::SkipEq(x, kk))
    } else if op_major(op) == 0x4 {
        Some(Instruction::SkipNotEq(x, kk))
    } else if op_major(op) == 0x5 {
        if n == 0x0 {
            Some(Instruction::SkipRegEq(x, y))
        } else {
            None
        }
    } else if op_major(op) == 0x6 {
        Some(Instruction::Load(x, kk))
    } else if op_major(op) == 0x7 {
        Some(Instruction::Add(x, kk))
    } else if op_major(op) == 0x8 {
        if n == 0x0 {
            Some(Instruction::LoadReg(x, y))
        } else if n == 0x1 {
            Some(Instruction::Or(x, y))
        } else if n == 0x2 {
            Some(Instruction::And(x, y))
        } else if n == 0x3 {
            Some(Instruction::Xor(x, y))
        } else if n == 0x4 {
            Some(Instruction::AddReg(x, y))
        } else if n == 0x5 {
            Some(Instruction::SubReg(x, y))
        } else if n == 0x6 {
            Some(Instruction::Shr(x, y))
        } else if n == 0x7 {
            Some(Instruction::Subn(x, y))
        } else if n == 0xE {
            Some(Instruction::Shl(x, y))
        } else {
            None
        }
    } else if op_major(op) == 0x9 {
        if n == 0x0 {
            Some(Instruction::SkipRegNotEq(x, y))
        } else {
            None
        }
    } else if op_major(op) == 0xA {
        Some(Instruction::LoadI(nnn))
    } else if op_major(op) == 0xB {
        Some(Instruction::JumpOffset(nnn))
    } else if op_major(op) == 0xC {
        Some(Instruction::Rand(x, kk))
    } else if op_major(op) == 0xD {
        Some(Instruction::Draw(x, y, n))
    } else if op_major(op) == 0xE {
        if kk == 0x9E {
            Some(Instruction::SkipIfPressed(x))
        } else if kk == 0xA1 {
            Some(Instruction::SkipIfNotPressed(x))
        } else {
            None
        }
    } else {
        if kk == 0x07 {
            Some(Instruction::LoadRegFromDelay(x))
        } else if kk == 0x0A {
            Some(Instruction::WaitForKey(x))
        } else if kk == 0x15 {
            Some(Instruction::LoadDelayFromReg(x))
        } else if kk == 0x18 {
            Some(Instruction::LoadSoundFromReg(x))
        } else if kk == 0x1E {
            Some(Instruction::AddIndex(x))
        } else if kk == 0x29 {
            Some(Instruction::LoadFont(x))
        } else if kk == 0x33 {
            Some(Instruction::Bcd(x))
        } else if kk == 0x55 {
            Some(Instruction::DumpRegs(x))
        } else if kk == 0x65 {
            Some(Instruction::FillRegs(x))
        } else {
            None
        }
    }
}

/// The five fixed bit-fields of an opcode, extracted once and shared by the
/// decode dispatch.
#[derive(Clone, Copy, Debug, PartialEq, Eq, Structural)]
pub struct OpcodeComponents {
    pub op: u8,
    pub x: u8,
    pub y: u8,
    pub n: u8,
    pub kk: u8,
    pub nnn: u16,
}

impl From<u16> for OpcodeComponents {
    fn from(opcode: u16) -> (r: Self) {
        proof {
            assert((opcode & 0xF000) >> 12 == opcode / 0x1000 && opcode / 0x1000 < 0x10)
                by (bit_vector);
            assert((opcode & 0x0F00) >> 8 == (opcode / 0x100) % 0x10) by (bit_vector);
            assert((opcode & 0x00F0) >> 4 == (opcode / 0x10) % 0x10) by (bit_vector);
            assert(opcode & 0x000F == opcode % 0x10) by (bit_vector);
            assert(opcode & 0x00FF == opcode % 0x100) by (bit_vector);
            assert(opcode & 0x0FFF == opcode % 0x1000) by (bit_vector);
        }
        OpcodeComponents {
            op: ((opcode & 0xF000) >> 12) as u8,
            x: ((opcode & 0x0F00) >> 8) as u8,
            y: ((opcode & 0x00F0) >> 4) as u8,
            n: (opcode & 0x000F) as u8,
            kk: (opcode & 0x00FF) as u8,
            nnn: opcode & 0x0FFF,
        }
    }
}

impl vstd::std_specs::convert::FromSpecImpl<u16> for OpcodeComponents {
    open spec fn obeys_from_spec() -> bool {
        true
    }

    open spec fn from_spec(opcode: u16) -> Self {
        OpcodeComponents {
            op: op_major(opcode) as u8,
            x: op_x(opcode),
            y: op_y(opcode),
            n: op_n(opcode),
            kk: op_kk(opcode),
            nnn: op_nnn(opcode),
        }
    }
}

/// Maps a 16-bit opcode to its instruction. Total over `u16`: every word
/// either decodes to exactly one variant of the canonical table or yields
/// `None`, deterministically and without side effects.
pub fn decode(opcode: u16) -> (r: Option<Instruction>)
    ensures
        r == spec_decode(opcode),
{
    let c = OpcodeComponents::from(opcode);
    match c.op {
        0x0 => match c.kk {
            0xE0 => Some(Instruction::Cls),
            0xEE => Some(Instruction::Ret),
            _ => None,
        },
        0x1 => Some(Instruction::Jump(c.nnn)),
        0x2 => Some(Instruction::Call(c.nnn)),
        0x3 => Some(Instruction::SkipEq(c.x, c.kk)),
        0x4 => Some(Instruction::SkipNotEq(c.x, c.kk)),
        0x5 => match c.n {
            0x0 => Some(Instruction::SkipRegEq(c.x, c.y)),
            _ => None,
        },
        0x6 => Some(Instruction::Load(c.x, c.kk)),
        0x7 => Some(Instruction::Add(c.x, c.kk)),
        0x8 => match c.n {
            0x0 => Some(Instruction::LoadReg(c.x, c.y)),
            0x1 => Some(Instruction::Or(c.x, c.y)),
            0x2 => Some(Instruction::And(c.x, c.y)),
            0x3 => Some(Instruction::Xor(c.x, c.y)),
            0x4 => Some(Instruction::AddReg(c.x, c.y)),
            0x5 => Some(Instruction::SubReg(c.x, c.y)),
            0x6 => Some(Instruction::Shr(c.x, c.y)),
            0x7 => Some(Instruction::Subn(c.x, c.y)),
            0xE => Some(Instruction::Shl(c.x, c.y)),
            _ => None,
        },
        0x9 => match c.n {
            0x0 => Some(Instruction::SkipRegNotEq(c.x, c.y)),
            _ => None,
        },
        0xA => Some(Instruction::LoadI(c.nnn)),
        0xB => Some(Instruction::JumpOffset(c.nnn)),
        0xC => Some(Instruction::Rand(c.x, c.kk)),
        0xD => Some(Instruction::Draw(c.x, c.y, c.n)),
        0xE => match c.kk {
            0x9E => Some(Instruction::SkipIfPressed(c.x)),
            0xA1 => Some(Instruction::SkipIfNotPressed(c.x)),
            _ => None,
        },
        _ => match c.kk {
            0x07 => Some(Instruction::LoadRegFromDelay(c.x)),
            0x0A => Some(Instruction::WaitForKey(c.x)),
            0x15 => Some(Instruction::LoadDelayFromReg(c.x)),
            0x18 => Some(Instruction::LoadSoundFromReg(c.x)),
            0x1E => Some(Instruction::AddIndex(c.x)),
            0x29 => Some(Instruction::LoadFont(c.x)),
            0x33 => Some(Instruction::Bcd(c.x)),
            0x55 => Some(Instruction::DumpRegs(c.x)),
            0x65 => Some(Instruction::FillRegs(c.x)),
            _ => None,
        },
    }
}

} // verus!

