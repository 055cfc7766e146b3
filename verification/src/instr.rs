use vstd::prelude::*;

use crate::error::Error;

verus! {

/// The opcode of an instruction: a 6-bit identifier whose low bit selects the
/// encoded size (even: 32-bit wide form, odd: 16-bit compressed form).
/// Discriminants 0x00 and 0x01 are reserved and never decode.
#[allow(non_camel_case_types)]
#[derive(Copy, Clone, Debug, PartialEq, Eq, Structural)]
pub enum OpCode {
    ADD,
    SUB,
    AND,
    OR,
    XOR,
    SLL,
    SRL,
    SRA,
    ADDI,
    ANDI,
    ORI,
    XORI,
    SLLI,
    SRLI,
    SRAI,
    BEZ,
    BNZ,
    BEQ,
    BNE,
    BLT,
    BGE,
    BLT_U,
    BGE_U,
    LI,
    LUI,
    LOAD,
    STORE,
    CALL,
    BREAK,
    C_ADD,
    C_SUB,
    C_AND,
    C_OR,
    C_XOR,
    C_SLL,
    C_SRL,
    C_SRA,
    C_ADDI,
    C_ANDI,
    C_ORI,
    C_XORI,
    C_SLLI,
    C_SRLI,
    C_SRAI,
    C_BEZ,
    C_BNZ,
    C_LI,
    C_LUI,
    C_LOAD,
    C_STORE,
    MV,
    C_CALL,
    C_BREAK,
}

/// The encoding shape of an opcode: which fields the instruction word carries
/// and where they sit.
#[derive(Copy, Clone, Debug, PartialEq, Eq, Structural)]
pub enum Shape {
    /// Wide register-register: dst, src1, src2 (5 bits each).
    WideR,
    /// Wide immediate: dst, src1 (5 bits each), 16-bit signed immediate.
    WideI,
    /// Wide store/branch: src1, src2 (5 bits each), split 16-bit signed immediate.
    WideS,
    /// Wide upper-immediate: dst (5 bits), immediate in the upper 16 bits.
    WideU,
    /// Compressed register-register: dst (= src1) and src2 (5 bits each).
    CompR,
    /// Compressed immediate: dst (= src1, 3 bits), 7-bit signed immediate.
    CompI,
    /// Compressed load: dst, src1 (2 bits each), split 7-bit signed immediate
    /// whose low bit is forced to zero.
    CompL,
    /// Compressed store: src1, src2 (2 bits each), split immediate as CompL.
    CompS,
    /// Compressed upper-immediate: dst (3 bits), 7-bit signed immediate placed
    /// at bits 16..23 of the value.
    CompU,
}

impl OpCode {
    /// The 6-bit discriminant of this opcode in the binary encoding.
    pub open spec fn spec_code(self) -> u32 {
        match self {
            OpCode::ADD => 0x02,
            OpCode::SUB => 0x04,
            OpCode::AND => 0x06,
            OpCode::OR => 0x08,
            OpCode::XOR => 0x0a,
            OpCode::SLL => 0x0c,
            OpCode::SRL => 0x0e,
            OpCode::SRA => 0x10,
            OpCode::ADDI => 0x12,
            OpCode::ANDI => 0x14,
            OpCode::ORI => 0x16,
            OpCode::XORI => 0x18,
            OpCode::SLLI => 0x1a,
            OpCode::SRLI => 0x1c,
            OpCode::SRAI => 0x1e,
            OpCode::BEZ => 0x20,
            OpCode::BNZ => 0x22,
            OpCode::BEQ => 0x24,
            OpCode::BNE => 0x26,
            OpCode::BLT => 0x28,
            OpCode::BGE => 0x2a,
            OpCode::BLT_U => 0x2c,
            OpCode::BGE_U => 0x2e,
            OpCode::LI => 0x30,
            OpCode::LUI => 0x32,
            OpCode::LOAD => 0x34,
            OpCode::STORE => 0x36,
            OpCode::CALL => 0x3c,
            OpCode::BREAK => 0x3e,
            OpCode::C_ADD => 0x03,
            OpCode::C_SUB => 0x05,
            OpCode::C_AND => 0x07,
            OpCode::C_OR => 0x09,
            OpCode::C_XOR => 0x0b,
            OpCode::C_SLL => 0x0d,
            OpCode::C_SRL => 0x0f,
            OpCode::C_SRA => 0x11,
            OpCode::C_ADDI => 0x13,
            OpCode::C_ANDI => 0x15,
            OpCode::C_ORI => 0x17,
            OpCode::C_XORI => 0x19,
            OpCode::C_SLLI => 0x1b,
            OpCode::C_SRLI => 0x1d,
            OpCode::C_SRAI => 0x1f,
            OpCode::C_BEZ => 0x21,
            OpCode::C_BNZ => 0x23,
            OpCode::C_LI => 0x31,
            OpCode::C_LUI => 0x33,
            OpCode::C_LOAD => 0x35,
            OpCode::C_STORE => 0x37,
            OpCode::MV => 0x39,
            OpCode::C_CALL => 0x3d,
            OpCode::C_BREAK => 0x3f,
        }
    }

    /// Executable form of [`Self::spec_code`].
    #[verifier::when_used_as_spec(spec_code)]
    pub fn code(self) -> (r: u32)
        ensures
            r == self.spec_code(),
    {
        match self {
            OpCode::ADD => 0x02,
            OpCode::SUB => 0x04,
            OpCode::AND => 0x06,
            OpCode::OR => 0x08,
            OpCode::XOR => 0x0a,
            OpCode::SLL => 0x0c,
            OpCode::SRL => 0x0e,
            OpCode::SRA => 0x10,
            OpCode::ADDI => 0x12,
            OpCode::ANDI => 0x14,
            OpCode::ORI => 0x16,
            OpCode::XORI => 0x18,
            OpCode::SLLI => 0x1a,
            OpCode::SRLI => 0x1c,
            OpCode::SRAI => 0x1e,
            OpCode::BEZ => 0x20,
            OpCode::BNZ => 0x22,
            OpCode::BEQ => 0x24,
            OpCode::BNE => 0x26,
            OpCode::BLT => 0x28,
            OpCode::BGE => 0x2a,
            OpCode::BLT_U => 0x2c,
            OpCode::BGE_U => 0x2e,
            OpCode::LI => 0x30,
            OpCode::LUI => 0x32,
            OpCode::LOAD => 0x34,
            OpCode::STORE => 0x36,
            OpCode::CALL => 0x3c,
            OpCode::BREAK => 0x3e,
            OpCode::C_ADD => 0x03,
            OpCode::C_SUB => 0x05,
            OpCode::C_AND => 0x07,
            OpCode::C_OR => 0x09,
            OpCode::C_XOR => 0x0b,
            OpCode::C_SLL => 0x0d,
            OpCode::C_SRL => 0x0f,
            OpCode::C_SRA => 0x11,
            OpCode::C_ADDI => 0x13,
            OpCode::C_ANDI => 0x15,
            OpCode::C_ORI => 0x17,
            OpCode::C_XORI => 0x19,
            OpCode::C_SLLI => 0x1b,
            OpCode::C_SRLI => 0x1d,
            OpCode::C_SRAI => 0x1f,
            OpCode::C_BEZ => 0x21,
            OpCode::C_BNZ => 0x23,
            OpCode::C_LI => 0x31,
            OpCode::C_LUI => 0x33,
            OpCode::C_LOAD => 0x35,
            OpCode::C_STORE => 0x37,
            OpCode::MV => 0x39,
            OpCode::C_CALL => 0x3d,
            OpCode::C_BREAK => 0x3f,
        }
    }

    /// The encoding shape this opcode uses.
    pub open spec fn spec_shape(self) -> Shape {
        match self {
            OpCode::ADD | OpCode::SUB | OpCode::AND | OpCode::OR | OpCode::XOR | OpCode::SLL
            | OpCode::SRL | OpCode::SRA => Shape::WideR,
            OpCode::ADDI | OpCode::ANDI | OpCode::ORI | OpCode::XORI | OpCode::SLLI
            | OpCode::SRLI | OpCode::SRAI | OpCode::BEZ | OpCode::BNZ | OpCode::LI
            | OpCode::LOAD | OpCode::CALL | OpCode::BREAK => Shape::WideI,
            OpCode::STORE | OpCode::BEQ | OpCode::BNE | OpCode::BLT | OpCode::BGE
            | OpCode::BLT_U | OpCode::BGE_U => Shape::WideS,
            OpCode::LUI => Shape::WideU,
            OpCode::C_ADD | OpCode::C_SUB | OpCode::C_AND | OpCode::C_OR | OpCode::C_XOR
            | OpCode::C_SLL | OpCode::C_SRL | OpCode::C_SRA | OpCode::MV => Shape::CompR,
            OpCode::C_ADDI | OpCode::C_ANDI | OpCode::C_ORI | OpCode::C_XORI | OpCode::C_SLLI
            | OpCode::C_SRLI | OpCode::C_SRAI | OpCode::C_BEZ | OpCode::C_BNZ | OpCode::C_LI
            | OpCode::C_CALL | OpCode::C_BREAK => Shape::CompI,
            OpCode::C_LOAD => Shape::CompL,
            OpCode::C_STORE => Shape::CompS,
            OpCode::C_LUI => Shape::CompU,
        }
    }

    /// Executable form of [`Self::spec_shape`].
    #[verifier::when_used_as_spec(spec_shape)]
    pub fn shape(self) -> (r: Shape)
        ensures
            r == self.spec_shape(),
    {
        match self {
            OpCode::ADD | OpCode::SUB | OpCode::AND | OpCode::OR | OpCode::XOR | OpCode::SLL
            | OpCode::SRL | OpCode::SRA => Shape::WideR,
            OpCode::ADDI | OpCode::ANDI | OpCode::ORI | OpCode::XORI | OpCode::SLLI
            | OpCode::SRLI | OpCode::SRAI | OpCode::BEZ | OpCode::BNZ | OpCode::LI
            | OpCode::LOAD | OpCode::CALL | OpCode::BREAK => Shape::WideI,
            OpCode::STORE | OpCode::BEQ | OpCode::BNE | OpCode::BLT | OpCode::BGE
            | OpCode::BLT_U | OpCode::BGE_U => Shape::WideS,
            OpCode::LUI => Shape::WideU,
            OpCode::C_ADD | OpCode::C_SUB | OpCode::C_AND | OpCode::C_OR | OpCode::C_XOR
            | OpCode::C_SLL | OpCode::C_SRL | OpCode::C_SRA | OpCode::MV => Shape::CompR,
            OpCode::C_ADDI | OpCode::C_ANDI | OpCode::C_ORI | OpCode::C_XORI | OpCode::C_SLLI
            | OpCode::C_SRLI | OpCode::C_SRAI | OpCode::C_BEZ | OpCode::C_BNZ | OpCode::C_LI
            | OpCode::C_CALL | OpCode::C_BREAK => Shape::CompI,
            OpCode::C_LOAD => Shape::CompL,
            OpCode::C_STORE => Shape::CompS,
            OpCode::C_LUI => Shape::CompU,
        }
    }

    /// The opcode with the given 6-bit discriminant, if any.
    pub open spec fn spec_from_code(c: u32) -> Option<OpCode> {
        if c == 0x02 {
            Some(OpCode::ADD)
        } else if c == 0x04 {
            Some(OpCode::SUB)
        } else if c == 0x06 {
            Some(OpCode::AND)
        } else if c == 0x08 {
            Some(OpCode::OR)
        } else if c == 0x0a {
            Some(OpCode::XOR)
        } else if c == 0x0c {
            Some(OpCode::SLL)
        } else if c == 0x0e {
            Some(OpCode::SRL)
        } else if c == 0x10 {
            Some(OpCode::SRA)
        } else if c == 0x12 {
            Some(OpCode::ADDI)
        } else if c == 0x14 {
            Some(OpCode::ANDI)
        } else if c == 0x16 {
            Some(OpCode::ORI)
        } else if c == 0x18 {
            Some(OpCode::XORI)
        } else if c == 0x1a {
            Some(OpCode::SLLI)
        } else if c == 0x1c {
            Some(OpCode::SRLI)
        } else if c == 0x1e {
            Some(OpCode::SRAI)
        } else if c == 0x20 {
            Some(OpCode::BEZ)
        } else if c == 0x22 {
            Some(OpCode::BNZ)
        } else if c == 0x24 {
            Some(OpCode::BEQ)
        } else if c == 0x26 {
            Some(OpCode::BNE)
        } else if c == 0x28 {
            Some(OpCode::BLT)
        } else if c == 0x2a {
            Some(OpCode::BGE)
        } else if c == 0x2c {
            Some(OpCode::BLT_U)
        } else if c == 0x2e {
            Some(OpCode::BGE_U)
        } else if c == 0x30 {
            Some(OpCode::LI)
        } else if c == 0x32 {
            Some(OpCode::LUI)
        } else if c == 0x34 {
            Some(OpCode::LOAD)
        } else if c == 0x36 {
            Some(OpCode::STORE)
        } else if c == 0x3c {
            Some(OpCode::CALL)
        } else if c == 0x3e {
            Some(OpCode::BREAK)
        } else if c == 0x03 {
            Some(OpCode::C_ADD)
        } else if c == 0x05 {
            Some(OpCode::C_SUB)
        } else if c == 0x07 {
            Some(OpCode::C_AND)
        } else if c == 0x09 {
            Some(OpCode::C_OR)
        } else if c == 0x0b {
            Some(OpCode::C_XOR)
        } else if c == 0x0d {
            Some(OpCode::C_SLL)
        } else if c == 0x0f {
            Some(OpCode::C_SRL)
        } else if c == 0x11 {
            Some(OpCode::C_SRA)
        } else if c == 0x13 {
            Some(OpCode::C_ADDI)
        } else if c == 0x15 {
            Some(OpCode::C_ANDI)
        } else if c == 0x17 {
            Some(OpCode::C_ORI)
        } else if c == 0x19 {
            Some(OpCode::C_XORI)
        } else if c == 0x1b {
            Some(OpCode::C_SLLI)
        } else if c == 0x1d {
            Some(OpCode::C_SRLI)
        } else if c == 0x1f {
            Some(OpCode::C_SRAI)
        } else if c == 0x21 {
            Some(OpCode::C_BEZ)
        } else if c == 0x23 {
            Some(OpCode::C_BNZ)
        } else if c == 0x31 {
            Some(OpCode::C_LI)
        } else if c == 0x33 {
            Some(OpCode::C_LUI)
        } else if c == 0x35 {
            Some(OpCode::C_LOAD)
        } else if c == 0x37 {
            Some(OpCode::C_STORE)
        } else if c == 0x39 {
            Some(OpCode::MV)
        } else if c == 0x3d {
            Some(OpCode::C_CALL)
        } else if c == 0x3f {
            Some(OpCode::C_BREAK)
        } else {
            None
        }
    }

    /// Executable form of [`Self::spec_from_code`].
    pub fn from_code(c: u32) -> (r: Option<OpCode>)
        ensures
            r == Self::spec_from_code(c),
    {
        if c == 0x02 {
            Some(OpCode::ADD)
        } else if c == 0x04 {
            Some(OpCode::SUB)
        } else if c == 0x06 {
            Some(OpCode::AND)
        } else if c == 0x08 {
            Some(OpCode::OR)
        } else if c == 0x0a {
            Some(OpCode::XOR)
        } else if c == 0x0c {
            Some(OpCode::SLL)
        } else if c == 0x0e {
            Some(OpCode::SRL)
        } else if c == 0x10 {
            Some(OpCode::SRA)
        } else if c == 0x12 {
            Some(OpCode::ADDI)
        } else if c == 0x14 {
            Some(OpCode::ANDI)
        } else if c == 0x16 {
            Some(OpCode::ORI)
        } else if c == 0x18 {
            Some(OpCode::XORI)
        } else if c == 0x1a {
            Some(OpCode::SLLI)
        } else if c == 0x1c {
            Some(OpCode::SRLI)
        } else if c == 0x1e {
            Some(OpCode::SRAI)
        } else if c == 0x20 {
            Some(OpCode::BEZ)
        } else if c == 0x22 {
            Some(OpCode::BNZ)
        } else if c == 0x24 {
            Some(OpCode::BEQ)
        } else if c == 0x26 {
            Some(OpCode::BNE)
        } else if c == 0x28 {
            Some(OpCode::BLT)
        } else if c == 0x2a {
            Some(OpCode::BGE)
        } else if c == 0x2c {
            Some(OpCode::BLT_U)
        } else if c == 0x2e {
            Some(OpCode::BGE_U)
        } else if c == 0x30 {
            Some(OpCode::LI)
        } else if c == 0x32 {
            Some(OpCode::LUI)
        } else if c == 0x34 {
            Some(OpCode::LOAD)
        } else if c == 0x36 {
            Some(OpCode::STORE)
        } else if c == 0x3c {
            Some(OpCode::CALL)
        } else if c == 0x3e {
            Some(OpCode::BREAK)
        } else if c == 0x03 {
            Some(OpCode::C_ADD)
        } else if c == 0x05 {
            Some(OpCode::C_SUB)
        } else if c == 0x07 {
            Some(OpCode::C_AND)
        } else if c == 0x09 {
            Some(OpCode::C_OR)
        } else if c == 0x0b {
            Some(OpCode::C_XOR)
        } else if c == 0x0d {
            Some(OpCode::C_SLL)
        } else if c == 0x0f {
            Some(OpCode::C_SRL)
        } else if c == 0x11 {
            Some(OpCode::C_SRA)
        } else if c == 0x13 {
            Some(OpCode::C_ADDI)
        } else if c == 0x15 {
            Some(OpCode::C_ANDI)
        } else if c == 0x17 {
            Some(OpCode::C_ORI)
        } else if c == 0x19 {
            Some(OpCode::C_XORI)
        } else if c == 0x1b {
            Some(OpCode::C_SLLI)
        } else if c == 0x1d {
            Some(OpCode::C_SRLI)
        } else if c == 0x1f {
            Some(OpCode::C_SRAI)
        } else if c == 0x21 {
            Some(OpCode::C_BEZ)
        } else if c == 0x23 {
            Some(OpCode::C_BNZ)
        } else if c == 0x31 {
            Some(OpCode::C_LI)
        } else if c == 0x33 {
            Some(OpCode::C_LUI)
        } else if c == 0x35 {
            Some(OpCode::C_LOAD)
        } else if c == 0x37 {
            Some(OpCode::C_STORE)
        } else if c == 0x39 {
            Some(OpCode::MV)
        } else if c == 0x3d {
            Some(OpCode::C_CALL)
        } else if c == 0x3f {
            Some(OpCode::C_BREAK)
        } else {
            None
        }
    }
}

/// Discriminants are injective: the discriminant of an opcode decodes back to
/// that opcode.
pub proof fn lemma_code_from_code(op: OpCode)
    ensures
        OpCode::spec_from_code(op.spec_code()) == Some(op),
        op.spec_code() <= 0x3f,
{
}

/// Representation of a decoded instruction.
#[derive(Copy, Clone, Debug, PartialEq, Eq, Structural)]
pub enum Instruction {
    /// R-Type and CR-Type instructions.
    Register { op: OpCode, dst: usize, src1: usize, src2: usize },
    /// I-Type, CI-Type and CL-Type instructions.
    Immediate { op: OpCode, dst: usize, src1: usize, imm: u32 },
    /// S-Type and CS-Type instructions.
    Store { op: OpCode, src1: usize, src2: usize, imm: u32 },
    /// U-Type and CU-Type instructions.
    Upper { op: OpCode, dst: usize, imm: u32 },
}

impl Instruction {
    /// The opcode of this instruction.
    pub open spec fn spec_op(self) -> OpCode {
        match self {
            Instruction::Register { op, .. } => op,
            Instruction::Immediate { op, .. } => op,
            Instruction::Store { op, .. } => op,
            Instruction::Upper { op, .. } => op,
        }
    }

    /// The size of this instruction in bytes: 4 for even opcodes, 2 for odd.
    pub open spec fn spec_size(self) -> u32 {
        if self.spec_op().spec_code() % 2 == 0 {
            4
        } else {
            2
        }
    }

    /// Returns the size of this instruction in bytes.
    pub fn size(&self) -> (r: u32)
        ensures
            r == self.spec_size(),
    {
        let op = match *self {
            Instruction::Register { op, .. } => op,
            Instruction::Immediate { op, .. } => op,
            Instruction::Store { op, .. } => op,
            Instruction::Upper { op, .. } => op,
        };
        let c = op.code();
        proof {
            assert(c % 2 == 0 <==> c & 1 == 0) by (bit_vector);
        }
        if c & 1 == 0 {
            4
        } else {
            2
        }
    }
}

/// Sign extension of a 16-bit field to 32 bits (the field is taken from the
/// low 16 bits of the argument).
pub open spec fn sext16(x: u32) -> u32 {
    if x & 0x8000 == 0 {
        x & 0xffff
    } else {
        (x & 0xffff) | 0xffff0000
    }
}

/// Sign extension of a 7-bit field to 32 bits (the field is taken from the
/// low 7 bits of the argument).
pub open spec fn sext7(x: u32) -> u32 {
    if x & 0x40 == 0 {
        x & 0x7f
    } else {
        (x & 0x7f) | 0xffffff80
    }
}

/// A register index reduced to its low 5 bits, as encoded in wide fields.
pub open spec fn reg5(x: usize) -> u32 {
    (x % 32) as u32
}

/// A register index reduced to its low 3 bits, as encoded in compressed
/// immediate and upper fields.
pub open spec fn reg3(x: usize) -> u32 {
    (x % 8) as u32
}

/// A register index reduced to its low 2 bits, as encoded in compressed
/// load/store fields.
pub open spec fn reg2(x: usize) -> u32 {
    (x % 4) as u32
}

/// The split immediate bits of a compressed load/store: imm[3:1] goes to
/// bits 8..11 and imm[6:4] to bits 13..16 of the word.
pub open spec fn cls_imm_bits(imm: u32) -> u32 {
    ((imm << 7) & 0x700) | ((imm << 9) & 0xe000)
}

/// The immediate recovered from a compressed load/store word: a 7-bit signed
/// value whose low bit is forced to zero by the layout.
pub open spec fn cls_imm_value(w: u32) -> u32 {
    sext7(((w >> 7) & 0x0e) | ((w >> 9) & 0x70))
}

impl Instruction {
    /// The encoded word of this instruction. For compressed instructions only
    /// the low 16 bits are meaningful. Register and immediate fields outside
    /// their encoded width are reduced to it.
    pub open spec fn spec_encode_word(self) -> u32 {
        if self.spec_size() == 2 {
            match self {
                Instruction::Register { op, dst, src1: _, src2 } => op.spec_code() | (reg5(dst)
                    << 6) | (reg5(src2) << 11),
                Instruction::Immediate { op, dst, src1, imm } => if op == OpCode::C_LOAD {
                    op.spec_code() | (reg2(dst) << 6) | (reg2(src1) << 11) | cls_imm_bits(imm)
                } else {
                    op.spec_code() | (reg3(dst) << 6) | ((imm & 0x7f) << 9)
                },
                Instruction::Store { op, src1, src2, imm } => op.spec_code() | (reg2(src1) << 6) | (
                reg2(src2) << 11) | cls_imm_bits(imm),
                Instruction::Upper { op, dst, imm } => op.spec_code() | (reg3(dst) << 6) | ((imm
                    >> 7) & 0xfe00),
            }
        } else {
            match self {
                Instruction::Register { op, dst, src1, src2 } => op.spec_code() | (reg5(dst) << 6)
                    | (reg5(src1) << 11) | (reg5(src2) << 16),
                Instruction::Immediate { op, dst, src1, imm } => op.spec_code() | (reg5(dst) << 6)
                    | (reg5(src1) << 11) | (imm << 16),
                Instruction::Store { op, src1, src2, imm } => op.spec_code() | (reg5(src1) << 11) | (
                reg5(src2) << 16) | ((imm << 6) & 0x7c0) | ((imm << 16) & 0xffe00000),
                Instruction::Upper { op, dst, imm } => op.spec_code() | (reg5(dst) << 6) | (imm
                    & 0xffff0000),
            }
        }
    }

    /// The little-endian byte encoding of this instruction: 2 bytes for
    /// compressed opcodes, 4 for wide ones.
    pub open spec fn spec_encoding(self) -> Seq<u8> {
        let w = self.spec_encode_word();
        if self.spec_size() == 2 {
            seq![(w & 0xff) as u8, ((w >> 8) & 0xff) as u8]
        } else {
            seq![
                (w & 0xff) as u8,
                ((w >> 8) & 0xff) as u8,
                ((w >> 16) & 0xff) as u8,
                ((w >> 24) & 0xff) as u8,
            ]
        }
    }

    /// The instruction denoted by a word whose low 6 bits are the given
    /// opcode's discriminant.
    pub open spec fn spec_decode_with(op: OpCode, w: u32) -> Instruction {
        match op.spec_shape() {
            Shape::WideR => Instruction::Register {
                op,
                dst: ((w >> 6) & 0x1f) as usize,
                src1: ((w >> 11) & 0x1f) as usize,
                src2: ((w >> 16) & 0x1f) as usize,
            },
            Shape::WideI => Instruction::Immediate {
                op,
                dst: ((w >> 6) & 0x1f) as usize,
                src1: ((w >> 11) & 0x1f) as usize,
                imm: sext16(w >> 16),
            },
            Shape::WideS => Instruction::Store {
                op,
                src1: ((w >> 11) & 0x1f) as usize,
                src2: ((w >> 16) & 0x1f) as usize,
                imm: sext16(((w >> 6) & 0x1f) | (((w >> 21) & 0x7ff) << 5)),
            },
            Shape::WideU => Instruction::Upper {
                op,
                dst: ((w >> 6) & 0x1f) as usize,
                imm: w & 0xffff0000,
            },
            Shape::CompR => Instruction::Register {
                op,
                dst: ((w >> 6) & 0x1f) as usize,
                src1: ((w >> 6) & 0x1f) as usize,
                src2: ((w >> 11) & 0x1f) as usize,
            },
            Shape::CompI => Instruction::Immediate {
                op,
                dst: ((w >> 6) & 0x7) as usize,
                src1: ((w >> 6) & 0x7) as usize,
                imm: sext7(w >> 9),
            },
            Shape::CompL => Instruction::Immediate {
                op,
                dst: ((w >> 6) & 0x3) as usize,
                src1: ((w >> 11) & 0x3) as usize,
                imm: cls_imm_value(w),
            },
            Shape::CompS => Instruction::Store {
                op,
                src1: ((w >> 6) & 0x3) as usize,
                src2: ((w >> 11) & 0x3) as usize,
                imm: cls_imm_value(w),
            },
            Shape::CompU => Instruction::Upper {
                op,
                dst: ((w >> 6) & 0x7) as usize,
                imm: sext7(w >> 9) << 16,
            },
        }
    }

    /// The instruction denoted by a 32-bit word, or `None` when the low 6 bits
    /// are a reserved discriminant. Compressed instructions only inspect the
    /// low 16 bits of the word.
    pub open spec fn spec_decode(w: u32) -> Option<Instruction> {
        match OpCode::spec_from_code(w & 0x3f) {
            Some(op) => Some(Self::spec_decode_with(op, w)),
            None => None,
        }
    }

    /// Whether every field of this instruction is within the width of its
    /// encoding: the shape matches the variant, register indices fit their
    /// fields, and the immediate is the sign extension of its encoded bits.
    pub open spec fn wf(self) -> bool {
        match self {
            Instruction::Register { op, dst, src1, src2 } => match op.spec_shape() {
                Shape::WideR => dst < 32 && src1 < 32 && src2 < 32,
                Shape::CompR => dst < 32 && src1 == dst && src2 < 32,
                _ => false,
            },
            Instruction::Immediate { op, dst, src1, imm } => match op.spec_shape() {
                Shape::WideI => dst < 32 && src1 < 32 && imm == sext16(imm),
                Shape::CompI => dst < 8 && src1 == dst && imm == sext7(imm),
                Shape::CompL => dst < 4 && src1 < 4 && imm == sext7(imm) && imm & 1 == 0,
                _ => false,
            },
            Instruction::Store { op, src1, src2, imm } => match op.spec_shape() {
                Shape::WideS => src1 < 32 && src2 < 32 && imm == sext16(imm),
                Shape::CompS => src1 < 4 && src2 < 4 && imm == sext7(imm) && imm & 1 == 0,
                _ => false,
            },
            Instruction::Upper { op, dst, imm } => match op.spec_shape() {
                Shape::WideU => dst < 32 && imm == (imm & 0xffff0000),
                Shape::CompU => dst < 8 && imm == (sext7(imm >> 16) << 16),
                _ => false,
            },
        }
    }

    /// Appends the little-endian byte encoding of this instruction to `buf`:
    /// 2 bytes for a compressed opcode, 4 for a wide one.
    pub fn write_bytes(&self, buf: &mut Vec<u8>)
        ensures
            final(buf)@ == old(buf)@ + self.spec_encoding(),
    {
        let w = self.encode_word();
        buf.push((w & 0xff) as u8);
        buf.push(((w >> 8) & 0xff) as u8);
        if self.size() == 4 {
            buf.push(((w >> 16) & 0xff) as u8);
            buf.push(((w >> 24) & 0xff) as u8);
        }
        proof {
            assert(final(buf)@ =~= old(buf)@ + self.spec_encoding());
        }
    }

    /// Computes the encoded word of this instruction.
    pub fn encode_word(&self) -> (w: u32)
        ensures
            w == self.spec_encode_word(),
    {
        if self.size() == 2 {
            match *self {
                Instruction::Register { op, dst, src1: _, src2 } => op.code() | (((dst % 32) as u32)
                    << 6) | (((src2 % 32) as u32) << 11),
                Instruction::Immediate { op, dst, src1, imm } => if op == OpCode::C_LOAD {
                    op.code() | (((dst % 4) as u32) << 6) | (((src1 % 4) as u32) << 11) | (((imm
                        << 7) & 0x700) | ((imm << 9) & 0xe000))
                } else {
                    op.code() | (((dst % 8) as u32) << 6) | ((imm & 0x7f) << 9)
                },
                Instruction::Store { op, src1, src2, imm } => op.code() | (((src1 % 4) as u32) << 6)
                    | (((src2 % 4) as u32) << 11) | (((imm << 7) & 0x700) | ((imm << 9) & 0xe000)),
                Instruction::Upper { op, dst, imm } => op.code() | (((dst % 8) as u32) << 6) | ((imm
                    >> 7) & 0xfe00),
            }
        } else {
            match *self {
                Instruction::Register { op, dst, src1, src2 } => op.code() | (((dst % 32) as u32)
                    << 6) | (((src1 % 32) as u32) << 11) | (((src2 % 32) as u32) << 16),
                Instruction::Immediate { op, dst, src1, imm } => op.code() | (((dst % 32) as u32)
                    << 6) | (((src1 % 32) as u32) << 11) | (imm << 16),
                Instruction::Store { op, src1, src2, imm } => op.code() | (((src1 % 32) as u32)
                    << 11) | (((src2 % 32) as u32) << 16) | ((imm << 6) & 0x7c0) | ((imm << 16)
                    & 0xffe00000),
                Instruction::Upper { op, dst, imm } => op.code() | (((dst % 32) as u32) << 6) | (imm
                    & 0xffff0000),
            }
        }
    }

    /// Decodes a 32-bit little-endian word into an instruction, or reports the
    /// reserved 6-bit discriminant that was found.
    pub fn try_from(w: u32) -> (r: Result<Instruction, Error>)
        ensures
            match r {
                Ok(i) => Self::spec_decode(w) == Some(i),
                Err(e) => Self::spec_decode(w) is None && e == Error::InvalidOpCode(w & 0x3f),
            },
    {
        let op = match OpCode::from_code(w & 0x3f) {
            Some(op) => op,
            None => {
                return Err(Error::InvalidOpCode(w & 0x3f));
            },
        };
        Ok(
            match op.shape() {
                Shape::WideR => Instruction::Register {
                    op,
                    dst: ((w >> 6) & 0x1f) as usize,
                    src1: ((w >> 11) & 0x1f) as usize,
                    src2: ((w >> 16) & 0x1f) as usize,
                },
                Shape::WideI => Instruction::Immediate {
                    op,
                    dst: ((w >> 6) & 0x1f) as usize,
                    src1: ((w >> 11) & 0x1f) as usize,
                    imm: sext16_exec(w >> 16),
                },
                Shape::WideS => Instruction::Store {
                    op,
                    src1: ((w >> 11) & 0x1f) as usize,
                    src2: ((w >> 16) & 0x1f) as usize,
                    imm: sext16_exec(((w >> 6) & 0x1f) | (((w >> 21) & 0x7ff) << 5)),
                },
                Shape::WideU => Instruction::Upper {
                    op,
                    dst: ((w >> 6) & 0x1f) as usize,
                    imm: w & 0xffff0000,
                },
                Shape::CompR => Instruction::Register {
                    op,
                    dst: ((w >> 6) & 0x1f) as usize,
                    src1: ((w >> 6) & 0x1f) as usize,
                    src2: ((w >> 11) & 0x1f) as usize,
                },
                Shape::CompI => Instruction::Immediate {
                    op,
                    dst: ((w >> 6) & 0x7) as usize,
                    src1: ((w >> 6) & 0x7) as usize,
                    imm: sext7_exec(w >> 9),
                },
                Shape::CompL => Instruction::Immediate {
                    op,
                    dst: ((w >> 6) & 0x3) as usize,
                    src1: ((w >> 11) & 0x3) as usize,
                    imm: sext7_exec(((w >> 7) & 0x0e) | ((w >> 9) & 0x70)),
                },
                Shape::CompS => Instruction::Store {
                    op,
                    src1: ((w >> 6) & 0x3) as usize,
                    src2: ((w >> 11) & 0x3) as usize,
                    imm: sext7_exec(((w >> 7) & 0x0e) | ((w >> 9) & 0x70)),
                },
                Shape::CompU => Instruction::Upper {
                    op,
                    dst: ((w >> 6) & 0x7) as usize,
                    imm: sext7_exec(w >> 9) << 16,
                },
            },
        )
    }
}

/// The mask of the bits of a word that its encoding shape defines; undefined
/// bits are zero after a decode/encode round trip. Words with a reserved
/// opcode define no bits.
pub open spec fn spec_defined_mask(w: u32) -> u32 {
    match OpCode::spec_from_code(w & 0x3f) {
        None => 0,
        Some(op) => match op.spec_shape() {
            Shape::WideR => 0x001fffff,
            Shape::WideI => 0xffffffff,
            Shape::WideS => 0xffffffff,
            Shape::WideU => 0xffff07ff,
            _ => 0xffff,
        },
    }
}

proof fn bv_rt_wide_r(c: u32, d: u32, s1: u32, s2: u32)
    by (bit_vector)
    requires
        c < 64,
        d < 32,
        s1 < 32,
        s2 < 32,
    ensures
        (c | (d << 6) | (s1 << 11) | (s2 << 16)) & 0x3f == c,
        ((c | (d << 6) | (s1 << 11) | (s2 << 16)) >> 6) & 0x1f == d,
        ((c | (d << 6) | (s1 << 11) | (s2 << 16)) >> 11) & 0x1f == s1,
        ((c | (d << 6) | (s1 << 11) | (s2 << 16)) >> 16) & 0x1f == s2,
{
}

proof fn bv_rt_wide_i(c: u32, d: u32, s1: u32, imm: u32)
    by (bit_vector)
    requires
        c < 64,
        d < 32,
        s1 < 32,
        imm == sext16(imm),
    ensures
        (c | (d << 6) | (s1 << 11) | (imm << 16)) & 0x3f == c,
        ((c | (d << 6) | (s1 << 11) | (imm << 16)) >> 6) & 0x1f == d,
        ((c | (d << 6) | (s1 << 11) | (imm << 16)) >> 11) & 0x1f == s1,
        sext16((c | (d << 6) | (s1 << 11) | (imm << 16)) >> 16) == imm,
{
}

proof fn bv_rt_wide_s(c: u32, s1: u32, s2: u32, imm: u32)
    by (bit_vector)
    requires
        c < 64,
        s1 < 32,
        s2 < 32,
        imm == sext16(imm),
    ensures
        ({
            let w = c | (s1 << 11) | (s2 << 16) | ((imm << 6) & 0x7c0) | ((imm << 16) & 0xffe00000);
            w & 0x3f == c && (w >> 11) & 0x1f == s1 && (w >> 16) & 0x1f == s2 && sext16(
                ((w >> 6) & 0x1f) | (((w >> 21) & 0x7ff) << 5),
            ) == imm
        }),
{
}

proof fn bv_rt_wide_u(c: u32, d: u32, imm: u32)
    by (bit_vector)
    requires
        c < 64,
        d < 32,
        imm == (imm & 0xffff0000),
    ensures
        (c | (d << 6) | (imm & 0xffff0000)) & 0x3f == c,
        ((c | (d << 6) | (imm & 0xffff0000)) >> 6) & 0x1f == d,
        (c | (d << 6) | (imm & 0xffff0000)) & 0xffff0000 == imm,
{
}

proof fn bv_rt_comp_r(c: u32, d: u32, s2: u32)
    by (bit_vector)
    requires
        c < 64,
        d < 32,
        s2 < 32,
    ensures
        (c | (d << 6) | (s2 << 11)) & 0x3f == c,
        ((c | (d << 6) | (s2 << 11)) >> 6) & 0x1f == d,
        ((c | (d << 6) | (s2 << 11)) >> 11) & 0x1f == s2,
{
}

proof fn bv_rt_comp_i(c: u32, d: u32, imm: u32)
    by (bit_vector)
    requires
        c < 64,
        d < 8,
        imm == sext7(imm),
    ensures
        (c | (d << 6) | ((imm & 0x7f) << 9)) & 0x3f == c,
        ((c | (d << 6) | ((imm & 0x7f) << 9)) >> 6) & 0x7 == d,
        sext7((c | (d << 6) | ((imm & 0x7f) << 9)) >> 9) == imm,
{
}

proof fn bv_rt_comp_ls(c: u32, d: u32, s: u32, imm: u32)
    by (bit_vector)
    requires
        c < 64,
        d < 4,
        s < 4,
        imm == sext7(imm),
        imm & 1 == 0,
    ensures
        ({
            let w = c | (d << 6) | (s << 11) | (((imm << 7) & 0x700) | ((imm << 9) & 0xe000));
            w & 0x3f == c && (w >> 6) & 0x3 == d && (w >> 11) & 0x3 == s && sext7(
                ((w >> 7) & 0x0e) | ((w >> 9) & 0x70),
            ) == imm
        }),
{
}

proof fn bv_rt_comp_u(c: u32, d: u32, imm: u32)
    by (bit_vector)
    requires
        c < 64,
        d < 8,
        imm == (sext7(imm >> 16) << 16),
    ensures
        (c | (d << 6) | ((imm >> 7) & 0xfe00)) & 0x3f == c,
        ((c | (d << 6) | ((imm >> 7) & 0xfe00)) >> 6) & 0x7 == d,
        (sext7((c | (d << 6) | ((imm >> 7) & 0xfe00)) >> 9) << 16) == imm,
{
}

/// Codec round-trip law, first direction: decoding the encoded word of any
/// well-formed instruction yields that instruction back.
pub proof fn lemma_decode_encode(i: Instruction)
    requires
        i.wf(),
    ensures
        Instruction::spec_decode(i.spec_encode_word()) == Some(i),
{
    let op = i.spec_op();
    let c = op.spec_code();
    lemma_code_from_code(op);
    let w = i.spec_encode_word();
    match i {
        Instruction::Register { op, dst, src1, src2 } => {
            match op.spec_shape() {
                Shape::WideR => {
                    bv_rt_wide_r(c, dst as u32, src1 as u32, src2 as u32);
                },
                Shape::CompR => {
                    bv_rt_comp_r(c, dst as u32, src2 as u32);
                },
                _ => {},
            }
        },
        Instruction::Immediate { op, dst, src1, imm } => {
            match op.spec_shape() {
                Shape::WideI => {
                    bv_rt_wide_i(c, dst as u32, src1 as u32, imm);
                },
                Shape::CompI => {
                    bv_rt_comp_i(c, dst as u32, imm);
                },
                Shape::CompL => {
                    bv_rt_comp_ls(c, dst as u32, src1 as u32, imm);
                },
                _ => {},
            }
        },
        Instruction::Store { op, src1, src2, imm } => {
            match op.spec_shape() {
                Shape::WideS => {
                    bv_rt_wide_s(c, src1 as u32, src2 as u32, imm);
                },
                Shape::CompS => {
                    bv_rt_comp_ls(c, src1 as u32, src2 as u32, imm);
                },
                _ => {},
            }
        },
        Instruction::Upper { op, dst, imm } => {
            match op.spec_shape() {
                Shape::WideU => {
                    bv_rt_wide_u(c, dst as u32, imm);
                },
                Shape::CompU => {
                    bv_rt_comp_u(c, dst as u32, imm);
                },
                _ => {},
            }
        },
    }
}

proof fn bv_ed_wide_r(w: u32, c: u32)
    by (bit_vector)
    requires
        c == w & 0x3f,
    ensures
        c | (((w >> 6) & 0x1f) << 6) | (((w >> 11) & 0x1f) << 11) | (((w >> 16) & 0x1f) << 16) == w
            & 0x1fffff,
        (w >> 6) & 0x1f < 32,
        (w >> 11) & 0x1f < 32,
        (w >> 16) & 0x1f < 32,
{
}

proof fn bv_ed_wide_i(w: u32, c: u32)
    by (bit_vector)
    requires
        c == w & 0x3f,
    ensures
        c | (((w >> 6) & 0x1f) << 6) | (((w >> 11) & 0x1f) << 11) | (sext16(w >> 16) << 16) == w,
        (w >> 6) & 0x1f < 32,
        (w >> 11) & 0x1f < 32,
        sext16(sext16(w >> 16)) == sext16(w >> 16),
{
}

proof fn bv_ed_wide_s(w: u32, c: u32)
    by (bit_vector)
    requires
        c == w & 0x3f,
    ensures
        ({
            let imm = sext16(((w >> 6) & 0x1f) | (((w >> 21) & 0x7ff) << 5));
            c | (((w >> 11) & 0x1f) << 11) | (((w >> 16) & 0x1f) << 16) | ((imm << 6) & 0x7c0) | ((
            imm << 16) & 0xffe00000) == w && sext16(imm) == imm
        }),
        (w >> 11) & 0x1f < 32,
        (w >> 16) & 0x1f < 32,
{
}

proof fn bv_ed_wide_u(w: u32, c: u32)
    by (bit_vector)
    requires
        c == w & 0x3f,
    ensures
        c | (((w >> 6) & 0x1f) << 6) | ((w & 0xffff0000) & 0xffff0000) == w & 0xffff07ff,
        (w >> 6) & 0x1f < 32,
        (w & 0xffff0000) & 0xffff0000 == w & 0xffff0000,
{
}

proof fn bv_ed_comp_r(w: u32, c: u32)
    by (bit_vector)
    requires
        c == w & 0x3f,
    ensures
        c | (((w >> 6) & 0x1f) << 6) | (((w >> 11) & 0x1f) << 11) == w & 0xffff,
        (w >> 6) & 0x1f < 32,
        (w >> 11) & 0x1f < 32,
{
}

proof fn bv_ed_comp_i(w: u32, c: u32)
    by (bit_vector)
    requires
        c == w & 0x3f,
    ensures
        c | (((w >> 6) & 0x7) << 6) | ((sext7(w >> 9) & 0x7f) << 9) == w & 0xffff,
        (w >> 6) & 0x7 < 8,
        sext7(sext7(w >> 9)) == sext7(w >> 9),
{
}

proof fn bv_ed_comp_ls(w: u32, c: u32)
    by (bit_vector)
    requires
        c == w & 0x3f,
    ensures
        ({
            let imm = sext7(((w >> 7) & 0x0e) | ((w >> 9) & 0x70));
            c | (((w >> 6) & 0x3) << 6) | (((w >> 11) & 0x3) << 11) | (((imm << 7) & 0x700) | ((imm
                << 9) & 0xe000)) == w & 0xffff && sext7(imm) == imm && imm & 1 == 0
        }),
        (w >> 6) & 0x3 < 4,
        (w >> 11) & 0x3 < 4,
{
}

proof fn bv_ed_comp_u(w: u32, c: u32)
    by (bit_vector)
    requires
        c == w & 0x3f,
    ensures
        c | (((w >> 6) & 0x7) << 6) | (((sext7(w >> 9) << 16) >> 7) & 0xfe00) == w & 0xffff,
        (w >> 6) & 0x7 < 8,
        (sext7((sext7(w >> 9) << 16) >> 16) << 16) == sext7(w >> 9) << 16,
{
}

/// Codec round-trip law, second direction: any word with a valid opcode
/// decodes to a well-formed instruction, and re-encoding that instruction
/// reproduces the word on every bit the shape defines (undefined bits come
/// back as zero).
pub proof fn lemma_encode_decode(w: u32)
    requires
        Instruction::spec_decode(w) is Some,
    ensures
        Instruction::spec_decode(w) matches Some(i) ==> i.wf() && i.spec_encode_word() == w
            & spec_defined_mask(w),
{
    let op = OpCode::spec_from_code(w & 0x3f).unwrap();
    let c = op.spec_code();
    assert(c == w & 0x3f);
    let i = Instruction::spec_decode_with(op, w);
    assert(Instruction::spec_decode(w) == Some(i));
    match op.spec_shape() {
        Shape::WideR => {
            assert(c % 2 == 0);
            bv_ed_wide_r(w, c);
            assert(i.wf());
            assert(i.spec_encode_word() == w & 0x1fffff);
            assert(spec_defined_mask(w) == 0x1fffff);
        },
        Shape::WideI => {
            assert(c % 2 == 0);
            bv_ed_wide_i(w, c);
            assert(i.wf());
            assert(i.spec_encode_word() == w);
            assert(spec_defined_mask(w) == 0xffffffffu32);
            assert(w & 0xffffffffu32 == w) by (bit_vector);
        },
        Shape::WideS => {
            assert(c % 2 == 0);
            bv_ed_wide_s(w, c);
            assert(i.wf());
            assert(i.spec_encode_word() == w);
            assert(spec_defined_mask(w) == 0xffffffffu32);
            assert(w & 0xffffffffu32 == w) by (bit_vector);
        },
        Shape::WideU => {
            assert(c % 2 == 0);
            bv_ed_wide_u(w, c);
            assert(i.wf());
            assert(i.spec_encode_word() == w & 0xffff07ff);
            assert(spec_defined_mask(w) == 0xffff07ff);
        },
        Shape::CompR => {
            assert(c % 2 == 1);
            bv_ed_comp_r(w, c);
            assert(i.wf());
            assert(i.spec_encode_word() == w & 0xffff);
            assert(spec_defined_mask(w) == 0xffff);
        },
        Shape::CompI => {
            assert(c % 2 == 1);
            bv_ed_comp_i(w, c);
            assert(i.wf());
            assert(i.spec_encode_word() == w & 0xffff);
            assert(spec_defined_mask(w) == 0xffff);
        },
        Shape::CompL => {
            assert(c % 2 == 1);
            assert(op == OpCode::C_LOAD);
            bv_ed_comp_ls(w, c);
            assert(i.wf());
            assert(i.spec_encode_word() == w & 0xffff);
            assert(spec_defined_mask(w) == 0xffff);
        },
        Shape::CompS => {
            assert(c % 2 == 1);
            bv_ed_comp_ls(w, c);
            assert(i.wf());
            assert(i.spec_encode_word() == w & 0xffff);
            assert(spec_defined_mask(w) == 0xffff);
        },
        Shape::CompU => {
            assert(c % 2 == 1);
            bv_ed_comp_u(w, c);
            assert(i.wf());
            assert(i.spec_encode_word() == w & 0xffff);
            assert(spec_defined_mask(w) == 0xffff);
        },
    }
}


/// Sign-extension law: in every immediate shape, the all-ones encoded
/// immediate field decodes to the sign-extended 32-bit value: 0xffffffff for
/// the wide immediate, store and compressed immediate shapes, 0xfffffffe for
/// compressed load/store (whose lowest immediate bit is forced to zero by the
/// layout), and the all-ones upper field to 0xffff0000 for both upper shapes.
pub proof fn lemma_sign_extension()
    ensures
        Instruction::spec_decode(0xffff0012) == Some(
            Instruction::Immediate { op: OpCode::ADDI, dst: 0, src1: 0, imm: 0xffffffff },
        ),
        Instruction::spec_decode(0xffe007f6) == Some(
            Instruction::Store { op: OpCode::STORE, src1: 0, src2: 0, imm: 0xffffffff },
        ),
        Instruction::spec_decode(0xfe13) == Some(
            Instruction::Immediate { op: OpCode::C_ADDI, dst: 0, src1: 0, imm: 0xffffffff },
        ),
        Instruction::spec_decode(0xe735) == Some(
            Instruction::Immediate { op: OpCode::C_LOAD, dst: 0, src1: 0, imm: 0xfffffffe },
        ),
        Instruction::spec_decode(0xe737) == Some(
            Instruction::Store { op: OpCode::C_STORE, src1: 0, src2: 0, imm: 0xfffffffe },
        ),
        Instruction::spec_decode(0xfe33) == Some(
            Instruction::Upper { op: OpCode::C_LUI, dst: 0, imm: 0xffff0000 },
        ),
        Instruction::spec_decode(0xffff0032) == Some(
            Instruction::Upper { op: OpCode::LUI, dst: 0, imm: 0xffff0000 },
        ),
{
    assert(0xffff0012u32 & 0x3f == 0x12 && (0xffff0012u32 >> 6) & 0x1f == 0 && (0xffff0012u32
        >> 11) & 0x1f == 0 && sext16(0xffff0012u32 >> 16) == 0xffffffff) by (bit_vector);
    assert(0xffe007f6u32 & 0x3f == 0x36 && (0xffe007f6u32 >> 11) & 0x1f == 0 && (0xffe007f6u32
        >> 16) & 0x1f == 0 && sext16(((0xffe007f6u32 >> 6) & 0x1f) | (((0xffe007f6u32 >> 21)
        & 0x7ff) << 5)) == 0xffffffff) by (bit_vector);
    assert(0xfe13u32 & 0x3f == 0x13 && (0xfe13u32 >> 6) & 0x7 == 0 && sext7(0xfe13u32 >> 9)
        == 0xffffffff) by (bit_vector);
    assert(0xe735u32 & 0x3f == 0x35 && (0xe735u32 >> 6) & 0x3 == 0 && (0xe735u32 >> 11) & 0x3 == 0
        && sext7(((0xe735u32 >> 7) & 0x0e) | ((0xe735u32 >> 9) & 0x70)) == 0xfffffffe) by (bit_vector);
    assert(0xe737u32 & 0x3f == 0x37 && (0xe737u32 >> 6) & 0x3 == 0 && (0xe737u32 >> 11) & 0x3 == 0
        && sext7(((0xe737u32 >> 7) & 0x0e) | ((0xe737u32 >> 9) & 0x70)) == 0xfffffffe) by (bit_vector);
    assert(0xfe33u32 & 0x3f == 0x33 && (0xfe33u32 >> 6) & 0x7 == 0 && (sext7(0xfe33u32 >> 9) << 16)
        == 0xffff0000) by (bit_vector);
    assert(0xffff0032u32 & 0x3f == 0x32 && (0xffff0032u32 >> 6) & 0x1f == 0 && 0xffff0032u32
        & 0xffff0000 == 0xffff0000) by (bit_vector);
}

/// Executable form of [`sext16`].
#[verifier::when_used_as_spec(sext16)]
pub fn sext16_exec(x: u32) -> (r: u32)
    ensures
        r == sext16(x),
{
    if x & 0x8000 == 0 {
        x & 0xffff
    } else {
        (x & 0xffff) | 0xffff0000
    }
}

/// Executable form of [`sext7`].
#[verifier::when_used_as_spec(sext7)]
pub fn sext7_exec(x: u32) -> (r: u32)
    ensures
        r == sext7(x),
{
    if x & 0x40 == 0 {
        x & 0x7f
    } else {
        (x & 0x7f) | 0xffffff80
    }
}

} // verus!
