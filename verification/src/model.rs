//! The mathematical model of the instruction set: ghost counterparts of the
//! instruction and error types, the opcode table, and the bit-exact encoding
//! of each instruction format.

use vstd::prelude::*;

verus! {

/// Model of an absolute label: a name, and the full word address it resolves
/// to once the resolution pass has run.
pub ghost struct AbsLabelModel {
    pub name: Seq<char>,
    pub addr: Option<u32>,
}

/// Model of a relative label: a name, and the signed 16-bit word displacement
/// (stored as its bit pattern) it resolves to.
pub ghost struct RelLabelModel {
    pub name: Seq<char>,
    pub addr: Option<u16>,
}

/// Model of one primitive instruction.
#[allow(inconsistent_fields)]
pub ghost enum InstrModel {
    Add { rs: u8, rt: u8 },
    Comp { rs: u8, rt: u8 },
    AddImm { rs: u8, imm: u16 },
    CompImm { rs: u8, imm: u16 },
    And { rs: u8, rt: u8 },
    Xor { rs: u8, rt: u8 },
    Sll { rs: u8, sh: u8 },
    Srl { rs: u8, sh: u8 },
    Sra { rs: u8, sh: u8 },
    Sllv { rs: u8, rt: u8 },
    Srlv { rs: u8, rt: u8 },
    Srav { rs: u8, rt: u8 },
    Lw { rt: u8, imm: u16, rs: u8 },
    Sw { rt: u8, imm: u16, rs: u8 },
    B { label: AbsLabelModel },
    Br { rs: u8 },
    Bltz { rs: u8, label: RelLabelModel },
    Bz { rs: u8, label: RelLabelModel },
    Bnz { rs: u8, label: RelLabelModel },
    Bl { label: AbsLabelModel },
    Bcy { label: RelLabelModel },
    Bncy { label: RelLabelModel },
}

/// Model of an assembler error.
pub ghost enum ErrModel {
    OpcodeMissing { line: Seq<char> },
    UnknownInstruction { mnemonic: Seq<char> },
    InvalidNoOfArgs { expected: usize, found: usize },
    UnknownRegister { name: Seq<char> },
    InvalidNumber { literal: Seq<char> },
    InvalidInstruction { text: Seq<char> },
    FloatingLabel { name: Seq<char> },
    UndefinedLabel { name: Seq<char> },
}

/// The fixed opcode table. The numbering is a binary-compatibility contract:
/// every value here must stay exactly as it is.
pub open spec fn opcode_of(m: InstrModel) -> u8 {
    match m {
        InstrModel::Add { .. } => 0,
        InstrModel::Comp { .. } => 1,
        InstrModel::AddImm { .. } => 2,
        InstrModel::CompImm { .. } => 3,
        InstrModel::And { .. } => 4,
        InstrModel::Xor { .. } => 5,
        InstrModel::Sll { .. } => 6,
        InstrModel::Srl { .. } => 7,
        InstrModel::Sra { .. } => 8,
        InstrModel::Sllv { .. } => 9,
        InstrModel::Srlv { .. } => 10,
        InstrModel::Srav { .. } => 11,
        InstrModel::Lw { .. } => 12,
        InstrModel::Sw { .. } => 13,
        InstrModel::B { .. } => 14,
        InstrModel::Br { .. } => 15,
        InstrModel::Bltz { .. } => 16,
        InstrModel::Bz { .. } => 17,
        InstrModel::Bnz { .. } => 18,
        InstrModel::Bl { .. } => 19,
        InstrModel::Bcy { .. } => 20,
        InstrModel::Bncy { .. } => 21,
    }
}

/// A 32-bit word in the field layout `opcode(6) | rs(5) | rt(5) | imm(16)`.
/// Every field is masked to its width, so no field can disturb another.
pub open spec fn word_fields(op: u8, rs: u8, rt: u8, imm: u16) -> u32 {
    (((op & 0x3f) as u32) << 26) | (((rs & 0x1f) as u32) << 21) | (((rt & 0x1f) as u32) << 16) | (
    imm as u32)
}

/// A 32-bit word in the absolute-jump layout `opcode(6) | addr(26)`.
pub open spec fn word_jump(op: u8, addr: u32) -> u32 {
    (((op & 0x3f) as u32) << 26) | (addr & 0x03ff_ffff)
}

/// The bit-exact encoding of an instruction, or the floating-label error when
/// a label-carrying instruction still has no resolved address.
pub open spec fn encode_model(m: InstrModel) -> Result<u32, ErrModel> {
    match m {
        InstrModel::Add { rs, rt } => Ok(word_fields(0, rs, rt, 0)),
        InstrModel::Comp { rs, rt } => Ok(word_fields(1, rs, rt, 0)),
        InstrModel::AddImm { rs, imm } => Ok(word_fields(2, rs, 0, imm)),
        InstrModel::CompImm { rs, imm } => Ok(word_fields(3, rs, 0, imm)),
        InstrModel::And { rs, rt } => Ok(word_fields(4, rs, rt, 0)),
        InstrModel::Xor { rs, rt } => Ok(word_fields(5, rs, rt, 0)),
        InstrModel::Sll { rs, sh } => Ok(word_fields(6, rs, sh, 0)),
        InstrModel::Srl { rs, sh } => Ok(word_fields(7, rs, sh, 0)),
        InstrModel::Sra { rs, sh } => Ok(word_fields(8, rs, sh, 0)),
        InstrModel::Sllv { rs, rt } => Ok(word_fields(9, rs, rt, 0)),
        InstrModel::Srlv { rs, rt } => Ok(word_fields(10, rs, rt, 0)),
        InstrModel::Srav { rs, rt } => Ok(word_fields(11, rs, rt, 0)),
        InstrModel::Lw { rt, imm, rs } => Ok(word_fields(12, rs, rt, imm)),
        InstrModel::Sw { rt, imm, rs } => Ok(word_fields(13, rs, rt, imm)),
        InstrModel::B { label } => match label.addr {
            Some(a) => Ok(word_jump(14, a)),
            None => Err(ErrModel::FloatingLabel { name: label.name }),
        },
        InstrModel::Br { rs } => Ok(word_fields(15, rs, 0, 0)),
        InstrModel::Bltz { rs, label } => match label.addr {
            Some(d) => Ok(word_fields(16, rs, 0, d)),
            None => Err(ErrModel::FloatingLabel { name: label.name }),
        },
        InstrModel::Bz { rs, label } => match label.addr {
            Some(d) => Ok(word_fields(17, rs, 0, d)),
            None => Err(ErrModel::FloatingLabel { name: label.name }),
        },
        InstrModel::Bnz { rs, label } => match label.addr {
            Some(d) => Ok(word_fields(18, rs, 0, d)),
            None => Err(ErrModel::FloatingLabel { name: label.name }),
        },
        InstrModel::Bl { label } => match label.addr {
            Some(a) => Ok(word_jump(19, a)),
            None => Err(ErrModel::FloatingLabel { name: label.name }),
        },
        InstrModel::Bcy { label } => match label.addr {
            Some(d) => Ok(word_fields(20, 0, 0, d)),
            None => Err(ErrModel::FloatingLabel { name: label.name }),
        },
        InstrModel::Bncy { label } => match label.addr {
            Some(d) => Ok(word_fields(21, 0, 0, d)),
            None => Err(ErrModel::FloatingLabel { name: label.name }),
        },
    }
}

/// The name of the absolute label an instruction carries, if any.
pub open spec fn abs_label_of(m: InstrModel) -> Option<Seq<char>> {
    match m {
        InstrModel::B { label } => Some(label.name),
        InstrModel::Bl { label } => Some(label.name),
        _ => None,
    }
}

/// The name of the relative label an instruction carries, if any.
pub open spec fn rel_label_of(m: InstrModel) -> Option<Seq<char>> {
    match m {
        InstrModel::Bltz { label, .. } => Some(label.name),
        InstrModel::Bz { label, .. } => Some(label.name),
        InstrModel::Bnz { label, .. } => Some(label.name),
        InstrModel::Bcy { label } => Some(label.name),
        InstrModel::Bncy { label } => Some(label.name),
        _ => None,
    }
}

/// `m` with its absolute label resolved to address `a`.
pub open spec fn with_abs_addr(m: InstrModel, a: u32) -> InstrModel {
    match m {
        InstrModel::B { label } => InstrModel::B {
            label: AbsLabelModel { name: label.name, addr: Some(a) },
        },
        InstrModel::Bl { label } => InstrModel::Bl {
            label: AbsLabelModel { name: label.name, addr: Some(a) },
        },
        _ => m,
    }
}

/// `m` with its relative label resolved to displacement pattern `d`.
pub open spec fn with_rel_addr(m: InstrModel, d: u16) -> InstrModel {
    match m {
        InstrModel::Bltz { rs, label } => InstrModel::Bltz {
            rs,
            label: RelLabelModel { name: label.name, addr: Some(d) },
        },
        InstrModel::Bz { rs, label } => InstrModel::Bz {
            rs,
            label: RelLabelModel { name: label.name, addr: Some(d) },
        },
        InstrModel::Bnz { rs, label } => InstrModel::Bnz {
            rs,
            label: RelLabelModel { name: label.name, addr: Some(d) },
        },
        InstrModel::Bcy { label } => InstrModel::Bcy {
            label: RelLabelModel { name: label.name, addr: Some(d) },
        },
        InstrModel::Bncy { label } => InstrModel::Bncy {
            label: RelLabelModel { name: label.name, addr: Some(d) },
        },
        _ => m,
    }
}

/// Encoding never hides the opcode: whenever an instruction encodes at all,
/// the top six bits of the word are exactly its opcode.
pub proof fn lemma_word_opcode(m: InstrModel)
    ensures
        encode_model(m) matches Ok(w) ==> w >> 26 == opcode_of(m),
{
    if let Ok(w) = encode_model(m) {
        let op = opcode_of(m);
        assert(op < 64);
        match m {
            InstrModel::B { label } | InstrModel::Bl { label } => {
                let a = label.addr->Some_0;
                assert(((((op & 0x3f) as u32) << 26) | (a & 0x03ff_ffff)) >> 26 == (op & 0x3f)
                    as u32 && (op < 64 ==> (op & 0x3f) == op)) by (bit_vector);
            },
            _ => {
                let (rs, rt, imm) = fields_of(m);
                assert(((((op & 0x3f) as u32) << 26) | (((rs & 0x1f) as u32) << 21) | (((rt & 0x1f)
                    as u32) << 16) | (imm as u32)) >> 26 == (op & 0x3f) as u32 && (op < 64 ==> (op
                    & 0x3f) == op)) by (bit_vector);
            },
        }
    }
}

/// The register and immediate fields an instruction's word carries, in the
/// `opcode | rs | rt | imm` layout; zero where a format has no such field.
pub open spec fn fields_of(m: InstrModel) -> (u8, u8, u16) {
    match m {
        InstrModel::Add { rs, rt } => (rs, rt, 0),
        InstrModel::Comp { rs, rt } => (rs, rt, 0),
        InstrModel::AddImm { rs, imm } => (rs, 0, imm),
        InstrModel::CompImm { rs, imm } => (rs, 0, imm),
        InstrModel::And { rs, rt } => (rs, rt, 0),
        InstrModel::Xor { rs, rt } => (rs, rt, 0),
        InstrModel::Sll { rs, sh } => (rs, sh, 0),
        InstrModel::Srl { rs, sh } => (rs, sh, 0),
        InstrModel::Sra { rs, sh } => (rs, sh, 0),
        InstrModel::Sllv { rs, rt } => (rs, rt, 0),
        InstrModel::Srlv { rs, rt } => (rs, rt, 0),
        InstrModel::Srav { rs, rt } => (rs, rt, 0),
        InstrModel::Lw { rt, imm, rs } => (rs, rt, imm),
        InstrModel::Sw { rt, imm, rs } => (rs, rt, imm),
        InstrModel::B { .. } => (0, 0, 0),
        InstrModel::Br { rs } => (rs, 0, 0),
        InstrModel::Bltz { rs, label } => (rs, 0, label.addr->Some_0),
        InstrModel::Bz { rs, label } => (rs, 0, label.addr->Some_0),
        InstrModel::Bnz { rs, label } => (rs, 0, label.addr->Some_0),
        InstrModel::Bl { .. } => (0, 0, 0),
        InstrModel::Bcy { label } => (0, 0, label.addr->Some_0),
        InstrModel::Bncy { label } => (0, 0, label.addr->Some_0),
    }
}

/// Every register index the instruction stores fits the 5-bit register
/// field. (A shift amount is an 8-bit datum, not a register, and is not
/// constrained here.)
pub open spec fn regs_in_range(m: InstrModel) -> bool {
    match m {
        InstrModel::Add { rs, rt } => rs < 32 && rt < 32,
        InstrModel::Comp { rs, rt } => rs < 32 && rt < 32,
        InstrModel::AddImm { rs, .. } => rs < 32,
        InstrModel::CompImm { rs, .. } => rs < 32,
        InstrModel::And { rs, rt } => rs < 32 && rt < 32,
        InstrModel::Xor { rs, rt } => rs < 32 && rt < 32,
        InstrModel::Sll { rs, .. } => rs < 32,
        InstrModel::Srl { rs, .. } => rs < 32,
        InstrModel::Sra { rs, .. } => rs < 32,
        InstrModel::Sllv { rs, rt } => rs < 32 && rt < 32,
        InstrModel::Srlv { rs, rt } => rs < 32 && rt < 32,
        InstrModel::Srav { rs, rt } => rs < 32 && rt < 32,
        InstrModel::Lw { rt, rs, .. } => rs < 32 && rt < 32,
        InstrModel::Sw { rt, rs, .. } => rs < 32 && rt < 32,
        InstrModel::B { .. } => true,
        InstrModel::Br { rs } => rs < 32,
        InstrModel::Bltz { rs, .. } => rs < 32,
        InstrModel::Bz { rs, .. } => rs < 32,
        InstrModel::Bnz { rs, .. } => rs < 32,
        InstrModel::Bl { .. } => true,
        InstrModel::Bcy { .. } => true,
        InstrModel::Bncy { .. } => true,
    }
}

/// Two distinct `(opcode, rs, rt)` triples with in-range register indices
/// never encode to the same word.
pub proof fn lemma_fields_injective(op1: u8, rs1: u8, rt1: u8, op2: u8, rs2: u8, rt2: u8, imm: u16)
    requires
        op1 < 64,
        op2 < 64,
        rs1 < 32,
        rs2 < 32,
        rt1 < 32,
        rt2 < 32,
        op1 != op2 || rs1 != rs2 || rt1 != rt2,
    ensures
        word_fields(op1, rs1, rt1, imm) != word_fields(op2, rs2, rt2, imm),
{
    assert((op1 < 64 && op2 < 64 && rs1 < 32 && rs2 < 32 && rt1 < 32 && rt2 < 32 && (op1 != op2
        || rs1 != rs2 || rt1 != rt2)) ==> ((((op1 & 0x3f) as u32) << 26) | (((rs1 & 0x1f) as u32)
        << 21) | (((rt1 & 0x1f) as u32) << 16) | (imm as u32)) != ((((op2 & 0x3f) as u32) << 26) | (
    ((rs2 & 0x1f) as u32) << 21) | (((rt2 & 0x1f) as u32) << 16) | (imm as u32)))
        by (bit_vector);
}

} // verus!
