//! The BELLE instruction set: operands, instructions, opcodes, and the
//! decoding of a 16-bit instruction word.
//!
//! Word layout (bit 15 is the most significant bit):
//! - bits 15..12: opcode
//! - bit 11: invert / alternate-form flag
//! - bits 11..9: destination register
//! - bit 10: on jump-class opcodes, the target is a register indirect
//! - bit 8: source is a literal; bit 7: source is a memory indirect (or,
//!   with bit 8, the literal is negative); bit 6: source is a register indirect
use vstd::prelude::*;

verus! {

pub const HLT_OP: i16 = 0b0000;

pub const ADD_OP: i16 = 0b0001;

pub const BO_OP: i16 = 0b0010;

pub const POP_OP: i16 = 0b0011;

pub const DIV_OP: i16 = 0b0100;

pub const RET_OP: i16 = 0b0101;

pub const LD_OP: i16 = 0b0110;

pub const ST_OP: i16 = 0b0111;

pub const JMP_OP: i16 = 0b1000;

pub const BZ_OP: i16 = 0b1001;

pub const CMP_OP: i16 = 0b1010;

pub const NAND_OP: i16 = 0b1011;

pub const PUSH_OP: i16 = 0b1100;

pub const INT_OP: i16 = 0b1101;

pub const MOV_OP: i16 = 0b1110;

pub const LEA_OP: i16 = 0b1111;

/// An operand of an instruction.
#[derive(Clone, Copy, Debug, PartialEq, Eq, Structural)]
pub enum Argument {
    Register(i16),
    MemAddr(i16),
    Literal(i16),
    RegPtr(i16),
    MemPtr(i16),
}

/// A decoded instruction.
#[derive(Clone, Copy, Debug, PartialEq, Eq, Structural)]
pub enum Instruction {
    HLT,
    ADD(Argument, Argument),
    BO(Argument),
    BNO(Argument),
    POP(Argument),
    DIV(Argument, Argument),
    RET,
    LD(Argument, Argument),
    ST(Argument, Argument),
    JMP(Argument),
    BZ(Argument),
    BNZ(Argument),
    BL(Argument),
    BG(Argument),
    CMP(Argument, Argument),
    NAND(Argument, Argument),
    PUSH(Argument),
    INT(Argument),
    MOV(Argument, Argument),
    LEA(Argument, Argument),
}

impl Argument {
    /// Whether the operand is a pointer (register indirect or memory indirect).
    pub fn is_ptr(&self) -> (r: bool)
        ensures
            r == (*self is RegPtr || *self is MemPtr),
    {
        match self {
            Argument::RegPtr(_) | Argument::MemPtr(_) => true,
            _ => false,
        }
    }
}

impl Argument {
    /// Whether the operand is a literal.
    pub fn is_literal(&self) -> (r: bool)
        ensures
            r == (*self is Literal),
    {
        match self {
            Argument::Literal(_) => true,
            _ => false,
        }
    }
}

/// Bits `lo .. lo + width` of a word, as a number.
pub open spec fn field(w: u16, lo: u16, mask: u16) -> u16 {
    (w >> lo) & mask
}

/// Whether bit `k` of a word is set.
pub open spec fn bit(w: u16, k: u16) -> bool {
    (w >> k) & 1 == 1
}

/// The opcode of an instruction word (its top four bits).
pub open spec fn opcode_of(w: u16) -> u16 {
    field(w, 12, 0xf)
}

/// Jump-class opcodes take a 10-bit address or, with bit 10 set, a register indirect.
pub open spec fn is_jump_class(op: u16) -> bool {
    op == BZ_OP as u16 || op == BO_OP as u16 || op == JMP_OP as u16 || op == RET_OP as u16
}

/// The addressing mode of the source operand: 0 register, 1 literal,
/// 2 memory indirect, 3 register indirect, 4 register-indirect jump target.
pub open spec fn mode_of(w: u16) -> u16 {
    if is_jump_class(opcode_of(w)) && bit(w, 10) {
        4
    } else if bit(w, 8) {
        1
    } else if bit(w, 7) {
        2
    } else if bit(w, 6) {
        3
    } else {
        0
    }
}

/// The raw source field of an instruction word.
pub open spec fn source_of(w: u16) -> i16 {
    if is_jump_class(opcode_of(w)) {
        if bit(w, 10) {
            (w & 0xf) as i16
        } else {
            (w & 0x3ff) as i16
        }
    } else if bit(w, 8) && bit(w, 7) {
        (-((w & 0x7f) as int)) as i16
    } else {
        (w & 0x7f) as i16
    }
}

/// The destination register field (bits 11..9).
pub open spec fn dest_of(w: u16) -> i16 {
    field(w, 9, 0x7) as i16
}

/// The source operand of a two-operand instruction word.
pub open spec fn part_of(w: u16) -> Argument {
    let s = source_of(w);
    let m = mode_of(w);
    if m == 0 {
        Argument::Register(s & 0xf)
    } else if m == 1 {
        Argument::Literal(s)
    } else if m == 2 {
        Argument::MemPtr(s & 0x7f)
    } else {
        Argument::RegPtr(s & 0xf)
    }
}

/// The target of a jump-class instruction word.
pub open spec fn jump_target_of(w: u16) -> Argument {
    if mode_of(w) == 4 {
        Argument::RegPtr(source_of(w))
    } else {
        Argument::MemAddr(source_of(w))
    }
}

/// What the instruction word `ir` means.
#[verifier::opaque]
pub open spec fn decode_spec(ir: i16) -> Instruction {
    let w = ir as u16;
    let op = opcode_of(w);
    let dest = Argument::Register(dest_of(w));
    let invert = bit(w, 11);
    if op == 0 {
        Instruction::HLT
    } else if op == 1 {
        Instruction::ADD(dest, part_of(w))
    } else if op == 2 {
        if invert {
            Instruction::BNO(jump_target_of(w))
        } else {
            Instruction::BO(jump_target_of(w))
        }
    } else if op == 3 {
        if !invert {
            Instruction::POP(Argument::Register(source_of(w)))
        } else {
            Instruction::POP(Argument::MemAddr((w & 0x7ff) as i16))
        }
    } else if op == 4 {
        Instruction::DIV(dest, part_of(w))
    } else if op == 5 {
        if w & 0xfff == 0 {
            Instruction::RET
        } else if invert {
            Instruction::BG(jump_target_of(w))
        } else {
            Instruction::BL(jump_target_of(w))
        }
    } else if op == 6 {
        Instruction::LD(dest, Argument::MemAddr((w & 0x1ff) as i16))
    } else if op == 7 {
        if invert {
            Instruction::ST(
                Argument::RegPtr(field(w, 7, 0x7) as i16),
                Argument::Register((w & 0x7) as i16),
            )
        } else {
            Instruction::ST(
                Argument::MemAddr(field(w, 3, 0x1ff) as i16),
                Argument::Register((w & 0x7) as i16),
            )
        }
    } else if op == 8 {
        Instruction::JMP(jump_target_of(w))
    } else if op == 9 {
        if invert {
            Instruction::BNZ(jump_target_of(w))
        } else {
            Instruction::BZ(jump_target_of(w))
        }
    } else if op == 10 {
        Instruction::CMP(dest, part_of(w))
    } else if op == 11 {
        Instruction::NAND(dest, part_of(w))
    } else if op == 12 {
        Instruction::PUSH(part_of(w))
    } else if op == 13 {
        Instruction::INT(Argument::Literal(source_of(w)))
    } else if op == 14 {
        Instruction::MOV(dest, part_of(w))
    } else {
        Instruction::LEA(dest, Argument::MemAddr((w & 0x1ff) as i16))
    }
}

proof fn lemma_word_fields(w: u16)
    ensures
        field(w, 12, 0xf) < 16,
        field(w, 9, 0x7) < 8,
        field(w, 7, 0x7) < 8,
        field(w, 3, 0x1ff) < 512,
        w & 0xf < 16,
        w & 0x7f < 128,
        w & 0x3ff < 1024,
        w & 0x7ff < 2048,
        w & 0x1ff < 512,
        w & 0x7 < 8,
        (w >> 8) & 1 < 2,
        (w >> 7) & 1 < 2,
        (w >> 6) & 1 < 2,
        (w >> 10) & 1 < 2,
        (w >> 11) & 1 < 2,
{
    assert(field(w, 12, 0xf) < 16) by (bit_vector);
    assert(field(w, 9, 0x7) < 8) by (bit_vector);
    assert(field(w, 7, 0x7) < 8) by (bit_vector);
    assert(field(w, 3, 0x1ff) < 512) by (bit_vector);
    assert(w & 0xf < 16) by (bit_vector);
    assert(w & 0x7f < 128) by (bit_vector);
    assert(w & 0x3ff < 1024) by (bit_vector);
    assert(w & 0x7ff < 2048) by (bit_vector);
    assert(w & 0x1ff < 512) by (bit_vector);
    assert(w & 0x7 < 8) by (bit_vector);
    assert((w >> 8) & 1 < 2) by (bit_vector);
    assert((w >> 7) & 1 < 2) by (bit_vector);
    assert((w >> 6) & 1 < 2) by (bit_vector);
    assert((w >> 10) & 1 < 2) by (bit_vector);
    assert((w >> 11) & 1 < 2) by (bit_vector);
}

/// Decodes an instruction word.
pub fn decode(ir: i16) -> (ins: Instruction)
    ensures
        ins == decode_spec(ir),
{
    let w = ir as u16;
    proof {
        lemma_word_fields(w);
        reveal(decode_spec);
    }
    let op = (w >> 12) & 0xf;
    let bouncy = op == BZ_OP as u16 || op == BO_OP as u16 || op == JMP_OP as u16 || op
        == RET_OP as u16;
    let b10 = (w >> 10) & 1 == 1;
    let b8 = (w >> 8) & 1 == 1;
    let b7 = (w >> 7) & 1 == 1;
    let b6 = (w >> 6) & 1 == 1;
    let mode: u16 = if bouncy && b10 {
        4
    } else if b8 {
        1
    } else if b7 {
        2
    } else if b6 {
        3
    } else {
        0
    };
    let source: i16 = if bouncy {
        if b10 {
            (w & 0xf) as i16
        } else {
            (w & 0x3ff) as i16
        }
    } else if b8 && b7 {
        -((w & 0x7f) as i16)
    } else {
        (w & 0x7f) as i16
    };
    let destination = Argument::Register(((w >> 9) & 0x7) as i16);
    let part = if mode == 0 {
        Argument::Register(source & 0xf)
    } else if mode == 1 {
        Argument::Literal(source)
    } else if mode == 2 {
        Argument::MemPtr(source & 0x7f)
    } else {
        Argument::RegPtr(source & 0xf)
    };
    let j_dest = if mode == 4 {
        Argument::RegPtr(source)
    } else {
        Argument::MemAddr(source)
    };
    let invert = (w >> 11) & 1 == 1;
    if op == 0 {
        Instruction::HLT
    } else if op == 1 {
        Instruction::ADD(destination, part)
    } else if op == 2 {
        if invert {
            Instruction::BNO(j_dest)
        } else {
            Instruction::BO(j_dest)
        }
    } else if op == 3 {
        if !invert {
            Instruction::POP(Argument::Register(source))
        } else {
            Instruction::POP(Argument::MemAddr((w & 0x7ff) as i16))
        }
    } else if op == 4 {
        Instruction::DIV(destination, part)
    } else if op == 5 {
        if w & 0xfff == 0 {
            Instruction::RET
        } else if invert {
            Instruction::BG(j_dest)
        } else {
            Instruction::BL(j_dest)
        }
    } else if op == 6 {
        Instruction::LD(destination, Argument::MemAddr((w & 0x1ff) as i16))
    } else if op == 7 {
        if invert {
            Instruction::ST(
                Argument::RegPtr(((w >> 7) & 0x7) as i16),
                Argument::Register((w & 0x7) as i16),
            )
        } else {
            Instruction::ST(
                Argument::MemAddr(((w >> 3) & 0x1ff) as i16),
                Argument::Register((w & 0x7) as i16),
            )
        }
    } else if op == 8 {
        Instruction::JMP(j_dest)
    } else if op == 9 {
        if invert {
            Instruction::BNZ(j_dest)
        } else {
            Instruction::BZ(j_dest)
        }
    } else if op == 10 {
        Instruction::CMP(destination, part)
    } else if op == 11 {
        Instruction::NAND(destination, part)
    } else if op == 12 {
        Instruction::PUSH(part)
    } else if op == 13 {
        Instruction::INT(Argument::Literal(source))
    } else if op == 14 {
        Instruction::MOV(destination, part)
    } else {
        Instruction::LEA(destination, Argument::MemAddr((w & 0x1ff) as i16))
    }
}

} // verus!
