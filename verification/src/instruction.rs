//! The instruction model: the closed set of instruction variants, the parse
//! dispatch over the fixed mnemonic vocabulary, the pseudo-instruction
//! expansion, and the bit-exact encoding of each variant.

use vstd::prelude::*;
use crate::error::AssemblerError;
use crate::model::{
    abs_label_of, encode_model, opcode_of, rel_label_of, with_abs_addr, with_rel_addr,
    AbsLabelModel, ErrModel, InstrModel, RelLabelModel,
};
use crate::parse::{
    extract_command, mem_spec, one_reg_spec, parse_mem_access, parse_one_register,
    parse_register_and_label, parse_register_and_value, parse_two_registers, reg_label_spec,
    reg_val_spec, split_first, two_regs_spec,
};
use crate::scan::{str_eq, trim, trim_str};

verus! {

/// An absolute label: created unresolved at parse time, its address written
/// exactly once by the resolution pass.
#[derive(Debug, PartialEq, Eq)]
pub struct AbsLabel {
    pub name: String,
    pub addr: Option<u32>,
}

impl View for AbsLabel {
    type V = AbsLabelModel;

    open spec fn view(&self) -> AbsLabelModel {
        AbsLabelModel { name: self.name@, addr: self.addr }
    }
}

impl AbsLabel {
    /// A fresh, still-unresolved absolute label.
    pub fn new(name: String) -> (r: Self)
        ensures
            r@ == (AbsLabelModel { name: name@, addr: None }),
    {
        AbsLabel { name, addr: None }
    }
}

/// A relative label: created unresolved at parse time, its displacement
/// pattern written exactly once by the resolution pass.
#[derive(Debug, PartialEq, Eq)]
pub struct RelLabel {
    pub name: String,
    pub addr: Option<u16>,
}

impl View for RelLabel {
    type V = RelLabelModel;

    open spec fn view(&self) -> RelLabelModel {
        RelLabelModel { name: self.name@, addr: self.addr }
    }
}

impl RelLabel {
    /// A fresh, still-unresolved relative label.
    pub fn new(name: String) -> (r: Self)
        ensures
            r@ == (RelLabelModel { name: name@, addr: None }),
    {
        RelLabel { name, addr: None }
    }
}

/// One primitive instruction of the machine.
#[allow(inconsistent_fields)]
#[derive(Debug, PartialEq, Eq)]
pub enum Instruction {
    Add { rs: u8, rt: u8 },
    Comp { rs: u8, rt: u8 },
    AddImm { rs: u8, imm: u16 },
    CompImm { rs: u8, imm: u16 },
    And { rs: u8, rt: u8 },
    Xor { rs: u8, rt: u8 },
    Sll { rs: u8, sh: u8 },
    Srl { rs: u8, sh: u8 },
    Sra { rs: u8, sh: u8 },
    Sllv { rs: u8, rt: u8 },
    Srlv { rs: u8, rt: u8 },
    Srav { rs: u8, rt: u8 },
    Lw { rt: u8, imm: u16, rs: u8 },
    Sw { rt: u8, imm: u16, rs: u8 },
    B { label: AbsLabel },
    Br { rs: u8 },
    Bltz { rs: u8, label: RelLabel },
    Bz { rs: u8, label: RelLabel },
    Bnz { rs: u8, label: RelLabel },
    Bl { label: AbsLabel },
    Bcy { label: RelLabel },
    Bncy { label: RelLabel },
}

impl View for Instruction {
    type V = InstrModel;

    open spec fn view(&self) -> InstrModel {
        match self {
            Instruction::Add { rs, rt } => InstrModel::Add { rs: *rs, rt: *rt },
            Instruction::Comp { rs, rt } => InstrModel::Comp { rs: *rs, rt: *rt },
            Instruction::AddImm { rs, imm } => InstrModel::AddImm { rs: *rs, imm: *imm },
            Instruction::CompImm { rs, imm } => InstrModel::CompImm { rs: *rs, imm: *imm },
            Instruction::And { rs, rt } => InstrModel::And { rs: *rs, rt: *rt },
            Instruction::Xor { rs, rt } => InstrModel::Xor { rs: *rs, rt: *rt },
            Instruction::Sll { rs, sh } => InstrModel::Sll { rs: *rs, sh: *sh },
            Instruction::Srl { rs, sh } => InstrModel::Srl { rs: *rs, sh: *sh },
            Instruction::Sra { rs, sh } => InstrModel::Sra { rs: *rs, sh: *sh },
            Instruction::Sllv { rs, rt } => InstrModel::Sllv { rs: *rs, rt: *rt },
            Instruction::Srlv { rs, rt } => InstrModel::Srlv { rs: *rs, rt: *rt },
            Instruction::Srav { rs, rt } => InstrModel::Srav { rs: *rs, rt: *rt },
            Instruction::Lw { rt, imm, rs } => InstrModel::Lw { rt: *rt, imm: *imm, rs: *rs },
            Instruction::Sw { rt, imm, rs } => InstrModel::Sw { rt: *rt, imm: *imm, rs: *rs },
            Instruction::B { label } => InstrModel::B { label: label@ },
            Instruction::Br { rs } => InstrModel::Br { rs: *rs },
            Instruction::Bltz { rs, label } => InstrModel::Bltz { rs: *rs, label: label@ },
            Instruction::Bz { rs, label } => InstrModel::Bz { rs: *rs, label: label@ },
            Instruction::Bnz { rs, label } => InstrModel::Bnz { rs: *rs, label: label@ },
            Instruction::Bl { label } => InstrModel::Bl { label: label@ },
            Instruction::Bcy { label } => InstrModel::Bcy { label: label@ },
            Instruction::Bncy { label } => InstrModel::Bncy { label: label@ },
        }
    }
}

/// What one instruction line denotes: the primitive instruction it names, or
/// the error that rejects it. The line must be `mnemonic operand-text`; the
/// three pseudo-mnemonics are not handled here.
pub open spec fn line_to_instr(s: Seq<char>) -> Result<InstrModel, ErrModel> {
    match split_first(s, ' ') {
        None => Err(ErrModel::OpcodeMissing { line: s }),
        Some(p) => {
            let comm = p.0;
            let rest = p.1;
            if comm == "add"@ {
                match two_regs_spec(rest) {
                    Ok(q) => Ok(InstrModel::Add { rs: q.0, rt: q.1 }),
                    Err(e) => Err(e),
                }
            } else if comm == "comp"@ {
                match two_regs_spec(rest) {
                    Ok(q) => Ok(InstrModel::Comp { rs: q.0, rt: q.1 }),
                    Err(e) => Err(e),
                }
            } else if comm == "addi"@ {
                match reg_val_spec(rest, 65536) {
                    Ok(q) => Ok(InstrModel::AddImm { rs: q.0, imm: q.1 }),
                    Err(e) => Err(e),
                }
            } else if comm == "compi"@ {
                match reg_val_spec(rest, 65536) {
                    Ok(q) => Ok(InstrModel::CompImm { rs: q.0, imm: q.1 }),
                    Err(e) => Err(e),
                }
            } else if comm == "and"@ {
                match two_regs_spec(rest) {
                    Ok(q) => Ok(InstrModel::And { rs: q.0, rt: q.1 }),
                    Err(e) => Err(e),
                }
            } else if comm == "xor"@ {
                match two_regs_spec(rest) {
                    Ok(q) => Ok(InstrModel::Xor { rs: q.0, rt: q.1 }),
                    Err(e) => Err(e),
                }
            } else if comm == "sll"@ {
                match reg_val_spec(rest, 256) {
                    Ok(q) => Ok(InstrModel::Sll { rs: q.0, sh: q.1 as u8 }),
                    Err(e) => Err(e),
                }
            } else if comm == "srl"@ {
                match reg_val_spec(rest, 256) {
                    Ok(q) => Ok(InstrModel::Srl { rs: q.0, sh: q.1 as u8 }),
                    Err(e) => Err(e),
                }
            } else if comm == "sra"@ {
                match reg_val_spec(rest, 256) {
                    Ok(q) => Ok(InstrModel::Sra { rs: q.0, sh: q.1 as u8 }),
                    Err(e) => Err(e),
                }
            } else if comm == "sllv"@ {
                match two_regs_spec(rest) {
                    Ok(q) => Ok(InstrModel::Sllv { rs: q.0, rt: q.1 }),
                    Err(e) => Err(e),
                }
            } else if comm == "srlv"@ {
                match two_regs_spec(rest) {
                    Ok(q) => Ok(InstrModel::Srlv { rs: q.0, rt: q.1 }),
                    Err(e) => Err(e),
                }
            } else if comm == "srav"@ {
                match two_regs_spec(rest) {
                    Ok(q) => Ok(InstrModel::Srav { rs: q.0, rt: q.1 }),
                    Err(e) => Err(e),
                }
            } else if comm == "lw"@ {
                match mem_spec(rest) {
                    Ok(q) => Ok(InstrModel::Lw { rt: q.0, imm: q.1, rs: q.2 }),
                    Err(e) => Err(e),
                }
            } else if comm == "sw"@ {
                match mem_spec(rest) {
                    Ok(q) => Ok(InstrModel::Sw { rt: q.0, imm: q.1, rs: q.2 }),
                    Err(e) => Err(e),
                }
            } else if comm == "b"@ {
                Ok(InstrModel::B { label: AbsLabelModel { name: trim(rest), addr: None } })
            } else if comm == "br"@ {
                match one_reg_spec(rest) {
                    Ok(a) => Ok(InstrModel::Br { rs: a }),
                    Err(e) => Err(e),
                }
            } else if comm == "bltz"@ {
                match reg_label_spec(rest) {
                    Ok(q) => Ok(InstrModel::Bltz {
                        rs: q.0,
                        label: RelLabelModel { name: q.1, addr: None },
                    }),
                    Err(e) => Err(e),
                }
            } else if comm == "bz"@ {
                match reg_label_spec(rest) {
                    Ok(q) => Ok(InstrModel::Bz {
                        rs: q.0,
                        label: RelLabelModel { name: q.1, addr: None },
                    }),
                    Err(e) => Err(e),
                }
            } else if comm == "bnz"@ {
                match reg_label_spec(rest) {
                    Ok(q) => Ok(InstrModel::Bnz {
                        rs: q.0,
                        label: RelLabelModel { name: q.1, addr: None },
                    }),
                    Err(e) => Err(e),
                }
            } else if comm == "bl"@ {
                Ok(InstrModel::Bl { label: AbsLabelModel { name: trim(rest), addr: None } })
            } else if comm == "bcy"@ {
                Ok(InstrModel::Bcy { label: RelLabelModel { name: trim(rest), addr: None } })
            } else if comm == "bncy"@ {
                Ok(InstrModel::Bncy { label: RelLabelModel { name: trim(rest), addr: None } })
            } else {
                Err(ErrModel::UnknownInstruction { mnemonic: comm })
            }
        },
    }
}

/// What one instruction line denotes after pseudo-instruction expansion: the
/// short ordered sequence of primitive instructions it stands for. A pseudo
/// mnemonic (`push`, `pop`, `mov`) expands to two primitives; every other
/// line is one primitive as `line_to_instr` gives it.
pub open spec fn line_to_seq(s: Seq<char>) -> Result<Seq<InstrModel>, ErrModel> {
    match split_first(s, ' ') {
        None => Err(ErrModel::OpcodeMissing { line: s }),
        Some(p) => {
            if p.0 == "push"@ {
                match one_reg_spec(p.1) {
                    Ok(r) => Ok(
                        seq![
                            InstrModel::Sw { rt: r, imm: 0, rs: 29 },
                            InstrModel::AddImm { rs: 29, imm: 0xfffc },
                        ],
                    ),
                    Err(e) => Err(e),
                }
            } else if p.0 == "pop"@ {
                match one_reg_spec(p.1) {
                    Ok(r) => Ok(
                        seq![
                            InstrModel::AddImm { rs: 29, imm: 4 },
                            InstrModel::Lw { rt: r, imm: 0, rs: 29 },
                        ],
                    ),
                    Err(e) => Err(e),
                }
            } else if p.0 == "mov"@ {
                match two_regs_spec(p.1) {
                    Ok(q) => Ok(
                        seq![
                            InstrModel::Xor { rs: q.0, rt: q.0 },
                            InstrModel::Add { rs: q.0, rt: q.1 },
                        ],
                    ),
                    Err(e) => Err(e),
                }
            } else {
                match line_to_instr(s) {
                    Ok(i) => Ok(seq![i]),
                    Err(e) => Err(e),
                }
            }
        },
    }
}

/// The models of a sequence of instructions.
pub open spec fn seq_view(v: Seq<Instruction>) -> Seq<InstrModel> {
    v.map_values(|i: Instruction| i@)
}

impl Instruction {
    /// Parses one primitive instruction line (`mnemonic operand-text`).
    pub fn try_from(instr: &str) -> (r: Result<Instruction, AssemblerError>)
        ensures
            match r {
                Ok(i) => line_to_instr(instr@) == Ok::<_, ErrModel>(i@),
                Err(e) => line_to_instr(instr@) == Err::<InstrModel, _>(e@),
            },
    {
        let p = match extract_command(instr) {
            None => {
                return Err(AssemblerError::OpcodeMissing(instr.to_owned()));
            },
            Some(p) => p,
        };
        let comm = p.0;
        let rest = p.1;
        if str_eq(comm, "add") {
            match parse_two_registers(rest) {
                Ok(q) => Ok(Instruction::Add { rs: q.0, rt: q.1 }),
                Err(e) => Err(e),
            }
        } else if str_eq(comm, "comp") {
            match parse_two_registers(rest) {
                Ok(q) => Ok(Instruction::Comp { rs: q.0, rt: q.1 }),
                Err(e) => Err(e),
            }
        } else if str_eq(comm, "addi") {
            match parse_register_and_value(rest, 65536) {
                Ok(q) => Ok(Instruction::AddImm { rs: q.0, imm: q.1 }),
                Err(e) => Err(e),
            }
        } else if str_eq(comm, "compi") {
            match parse_register_and_value(rest, 65536) {
                Ok(q) => Ok(Instruction::CompImm { rs: q.0, imm: q.1 }),
                Err(e) => Err(e),
            }
        } else if str_eq(comm, "and") {
            match parse_two_registers(rest) {
                Ok(q) => Ok(Instruction::And { rs: q.0, rt: q.1 }),
                Err(e) => Err(e),
            }
        } else if str_eq(comm, "xor") {
            match parse_two_registers(rest) {
                Ok(q) => Ok(Instruction::Xor { rs: q.0, rt: q.1 }),
                Err(e) => Err(e),
            }
        } else if str_eq(comm, "sll") {
            match parse_register_and_value(rest, 256) {
                Ok(q) => Ok(Instruction::Sll { rs: q.0, sh: q.1 as u8 }),
                Err(e) => Err(e),
            }
        } else if str_eq(comm, "srl") {
            match parse_register_and_value(rest, 256) {
                Ok(q) => Ok(Instruction::Srl { rs: q.0, sh: q.1 as u8 }),
                Err(e) => Err(e),
            }
        } else if str_eq(comm, "sra") {
            match parse_register_and_value(rest, 256) {
                Ok(q) => Ok(Instruction::Sra { rs: q.0, sh: q.1 as u8 }),
                Err(e) => Err(e),
            }
        } else if str_eq(comm, "sllv") {
            match parse_two_registers(rest) {
                Ok(q) => Ok(Instruction::Sllv { rs: q.0, rt: q.1 }),
                Err(e) => Err(e),
            }
        } else if str_eq(comm, "srlv") {
            match parse_two_registers(rest) {
                Ok(q) => Ok(Instruction::Srlv { rs: q.0, rt: q.1 }),
                Err(e) => Err(e),
            }
        } else if str_eq(comm, "srav") {
            match parse_two_registers(rest) {
                Ok(q) => Ok(Instruction::Srav { rs: q.0, rt: q.1 }),
                Err(e) => Err(e),
            }
        } else if str_eq(comm, "lw") {
            match parse_mem_access(rest) {
                Ok(q) => Ok(Instruction::Lw { rt: q.0, imm: q.1, rs: q.2 }),
                Err(e) => Err(e),
            }
        } else if str_eq(comm, "sw") {
            match parse_mem_access(rest) {
                Ok(q) => Ok(Instruction::Sw { rt: q.0, imm: q.1, rs: q.2 }),
                Err(e) => Err(e),
            }
        } else if str_eq(comm, "b") {
            Ok(Instruction::B { label: AbsLabel::new(trim_str(rest).to_owned()) })
        } else if str_eq(comm, "br") {
            match parse_one_register(rest) {
                Ok(a) => Ok(Instruction::Br { rs: a }),
                Err(e) => Err(e),
            }
        } else if str_eq(comm, "bltz") {
            match parse_register_and_label(rest) {
                Ok(q) => Ok(Instruction::Bltz { rs: q.0, label: RelLabel::new(q.1) }),
                Err(e) => Err(e),
            }
        } else if str_eq(comm, "bz") {
            match parse_register_and_label(rest) {
                Ok(q) => Ok(Instruction::Bz { rs: q.0, label: RelLabel::new(q.1) }),
                Err(e) => Err(e),
            }
        } else if str_eq(comm, "bnz") {
            match parse_register_and_label(rest) {
                Ok(q) => Ok(Instruction::Bnz { rs: q.0, label: RelLabel::new(q.1) }),
                Err(e) => Err(e),
            }
        } else if str_eq(comm, "bl") {
            Ok(Instruction::Bl { label: AbsLabel::new(trim_str(rest).to_owned()) })
        } else if str_eq(comm, "bcy") {
            Ok(Instruction::Bcy { label: RelLabel::new(trim_str(rest).to_owned()) })
        } else if str_eq(comm, "bncy") {
            Ok(Instruction::Bncy { label: RelLabel::new(trim_str(rest).to_owned()) })
        } else {
            Err(AssemblerError::UnknownInstruction(comm.to_owned()))
        }
    }

    /// Parses one instruction line, expanding a pseudo-instruction (`push`,
    /// `pop`, `mov`) into its primitive instructions. The length of the
    /// result is exactly how many primitive instructions the line stands
    /// for, which keeps the caller's label indices consistent.
    pub fn from_str(line: &str) -> (r: Result<Vec<Instruction>, AssemblerError>)
        ensures
            match r {
                Ok(v) => line_to_seq(line@) == Ok::<_, ErrModel>(seq_view(v@)),
                Err(e) => line_to_seq(line@) == Err::<Seq<InstrModel>, _>(e@),
            },
    {
        let p = match extract_command(line) {
            None => {
                return Err(AssemblerError::OpcodeMissing(line.to_owned()));
            },
            Some(p) => p,
        };
        if str_eq(p.0, "push") {
            match parse_one_register(p.1) {
                Ok(r) => {
                    let mut v: Vec<Instruction> = Vec::new();
                    v.push(Instruction::Sw { rt: r, imm: 0, rs: 29 });
                    v.push(Instruction::AddImm { rs: 29, imm: 0xfffc });
                    proof {
                        assert(seq_view(v@) =~= seq![
                            InstrModel::Sw { rt: r, imm: 0, rs: 29 },
                            InstrModel::AddImm { rs: 29, imm: 0xfffc },
                        ]);
                    }
                    Ok(v)
                },
                Err(e) => Err(e),
            }
        } else if str_eq(p.0, "pop") {
            match parse_one_register(p.1) {
                Ok(r) => {
                    let mut v: Vec<Instruction> = Vec::new();
                    v.push(Instruction::AddImm { rs: 29, imm: 4 });
                    v.push(Instruction::Lw { rt: r, imm: 0, rs: 29 });
                    proof {
                        assert(seq_view(v@) =~= seq![
                            InstrModel::AddImm { rs: 29, imm: 4 },
                            InstrModel::Lw { rt: r, imm: 0, rs: 29 },
                        ]);
                    }
                    Ok(v)
                },
                Err(e) => Err(e),
            }
        } else if str_eq(p.0, "mov") {
            match parse_two_registers(p.1) {
                Ok(q) => {
                    let mut v: Vec<Instruction> = Vec::new();
                    v.push(Instruction::Xor { rs: q.0, rt: q.0 });
                    v.push(Instruction::Add { rs: q.0, rt: q.1 });
                    proof {
                        assert(seq_view(v@) =~= seq![
                            InstrModel::Xor { rs: q.0, rt: q.0 },
                            InstrModel::Add { rs: q.0, rt: q.1 },
                        ]);
                    }
                    Ok(v)
                },
                Err(e) => Err(e),
            }
        } else {
            match Instruction::try_from(line) {
                Ok(i) => {
                    let ghost gi = i@;
                    let mut v: Vec<Instruction> = Vec::new();
                    v.push(i);
                    proof {
                        assert(seq_view(v@) =~= seq![gi]);
                    }
                    Ok(v)
                },
                Err(e) => Err(e),
            }
        }
    }

    /// The instruction's opcode, from the fixed opcode table.
    pub fn opcode(&self) -> (r: u8)
        ensures
            r == opcode_of(self@),
    {
        match self {
            Instruction::Add { .. } => 0,
            Instruction::Comp { .. } => 1,
            Instruction::AddImm { .. } => 2,
            Instruction::CompImm { .. } => 3,
            Instruction::And { .. } => 4,
            Instruction::Xor { .. } => 5,
            Instruction::Sll { .. } => 6,
            Instruction::Srl { .. } => 7,
            Instruction::Sra { .. } => 8,
            Instruction::Sllv { .. } => 9,
            Instruction::Srlv { .. } => 10,
            Instruction::Srav { .. } => 11,
            Instruction::Lw { .. } => 12,
            Instruction::Sw { .. } => 13,
            Instruction::B { .. } => 14,
            Instruction::Br { .. } => 15,
            Instruction::Bltz { .. } => 16,
            Instruction::Bz { .. } => 17,
            Instruction::Bnz { .. } => 18,
            Instruction::Bl { .. } => 19,
            Instruction::Bcy { .. } => 20,
            Instruction::Bncy { .. } => 21,
        }
    }

    /// Whether the instruction carries an absolute label.
    pub fn has_abs_label(&self) -> (r: bool)
        ensures
            r == (abs_label_of(self@) is Some),
    {
        match self {
            Instruction::B { .. } => true,
            Instruction::Bl { .. } => true,
            _ => false,
        }
    }

    /// Whether the instruction carries a relative label.
    pub fn has_rel_label(&self) -> (r: bool)
        ensures
            r == (rel_label_of(self@) is Some),
    {
        match self {
            Instruction::Bltz { .. } => true,
            Instruction::Bz { .. } => true,
            Instruction::Bnz { .. } => true,
            Instruction::Bcy { .. } => true,
            Instruction::Bncy { .. } => true,
            _ => false,
        }
    }

    /// The name of the label the instruction carries.
    pub fn get_label_name(&self) -> (r: &String)
        requires
            abs_label_of(self@) is Some || rel_label_of(self@) is Some,
        ensures
            abs_label_of(self@) matches Some(n) ==> r@ == n,
            rel_label_of(self@) matches Some(n) ==> r@ == n,
    {
        match self {
            Instruction::B { label } => &label.name,
            Instruction::Bl { label } => &label.name,
            Instruction::Bltz { label, .. } => &label.name,
            Instruction::Bz { label, .. } => &label.name,
            Instruction::Bnz { label, .. } => &label.name,
            Instruction::Bcy { label } => &label.name,
            Instruction::Bncy { label } => &label.name,
            _ => vstd::pervasive::unreached(),
        }
    }

    /// Writes the resolved address into the instruction's absolute label.
    pub fn set_abs_addr(&mut self, a: u32)
        requires
            abs_label_of(old(self)@) is Some,
        ensures
            final(self)@ == with_abs_addr(old(self)@, a),
    {
        match self {
            Instruction::B { label } => {
                label.addr = Some(a);
            },
            Instruction::Bl { label } => {
                label.addr = Some(a);
            },
            _ => {
                proof {
                    assert(false);
                }
            },
        }
    }

    /// Writes the resolved displacement pattern into the instruction's
    /// relative label.
    pub fn set_rel_addr(&mut self, d: u16)
        requires
            rel_label_of(old(self)@) is Some,
        ensures
            final(self)@ == with_rel_addr(old(self)@, d),
    {
        match self {
            Instruction::Bltz { label, .. } => {
                label.addr = Some(d);
            },
            Instruction::Bz { label, .. } => {
                label.addr = Some(d);
            },
            Instruction::Bnz { label, .. } => {
                label.addr = Some(d);
            },
            Instruction::Bcy { label } => {
                label.addr = Some(d);
            },
            Instruction::Bncy { label } => {
                label.addr = Some(d);
            },
            _ => {
                proof {
                    assert(false);
                }
            },
        }
    }

    /// Encodes the instruction as its 32-bit word. Fails with the
    /// floating-label error when a carried label has no address yet.
    pub fn encode(&self) -> (r: Result<u32, AssemblerError>)
        ensures
            match r {
                Ok(w) => encode_model(self@) == Ok::<_, ErrModel>(w),
                Err(e) => encode_model(self@) == Err::<u32, _>(e@),
            },
    {
        match self {
            Instruction::Add { rs, rt } => Ok(word_fields_exec(0, *rs, *rt, 0)),
            Instruction::Comp { rs, rt } => Ok(word_fields_exec(1, *rs, *rt, 0)),
            Instruction::AddImm { rs, imm } => Ok(word_fields_exec(2, *rs, 0, *imm)),
            Instruction::CompImm { rs, imm } => Ok(word_fields_exec(3, *rs, 0, *imm)),
            Instruction::And { rs, rt } => Ok(word_fields_exec(4, *rs, *rt, 0)),
            Instruction::Xor { rs, rt } => Ok(word_fields_exec(5, *rs, *rt, 0)),
            Instruction::Sll { rs, sh } => Ok(word_fields_exec(6, *rs, *sh, 0)),
            Instruction::Srl { rs, sh } => Ok(word_fields_exec(7, *rs, *sh, 0)),
            Instruction::Sra { rs, sh } => Ok(word_fields_exec(8, *rs, *sh, 0)),
            Instruction::Sllv { rs, rt } => Ok(word_fields_exec(9, *rs, *rt, 0)),
            Instruction::Srlv { rs, rt } => Ok(word_fields_exec(10, *rs, *rt, 0)),
            Instruction::Srav { rs, rt } => Ok(word_fields_exec(11, *rs, *rt, 0)),
            Instruction::Lw { rt, imm, rs } => Ok(word_fields_exec(12, *rs, *rt, *imm)),
            Instruction::Sw { rt, imm, rs } => Ok(word_fields_exec(13, *rs, *rt, *imm)),
            Instruction::B { label } => match label.addr {
                Some(a) => Ok(word_jump_exec(14, a)),
                None => Err(AssemblerError::FloatingLabel(label.name.clone())),
            },
            Instruction::Br { rs } => Ok(word_fields_exec(15, *rs, 0, 0)),
            Instruction::Bltz { rs, label } => match label.addr {
                Some(d) => Ok(word_fields_exec(16, *rs, 0, d)),
                None => Err(AssemblerError::FloatingLabel(label.name.clone())),
            },
            Instruction::Bz { rs, label } => match label.addr {
                Some(d) => Ok(word_fields_exec(17, *rs, 0, d)),
                None => Err(AssemblerError::FloatingLabel(label.name.clone())),
            },
            Instruction::Bnz { rs, label } => match label.addr {
                Some(d) => Ok(word_fields_exec(18, *rs, 0, d)),
                None => Err(AssemblerError::FloatingLabel(label.name.clone())),
            },
            Instruction::Bl { label } => match label.addr {
                Some(a) => Ok(word_jump_exec(19, a)),
                None => Err(AssemblerError::FloatingLabel(label.name.clone())),
            },
            Instruction::Bcy { label } => match label.addr {
                Some(d) => Ok(word_fields_exec(20, 0, 0, d)),
                None => Err(AssemblerError::FloatingLabel(label.name.clone())),
            },
            Instruction::Bncy { label } => match label.addr {
                Some(d) => Ok(word_fields_exec(21, 0, 0, d)),
                None => Err(AssemblerError::FloatingLabel(label.name.clone())),
            },
        }
    }
}

/// Packs the fields of the `opcode | rs | rt | imm` layout into one word.
fn word_fields_exec(op: u8, rs: u8, rt: u8, imm: u16) -> (r: u32)
    ensures
        r == crate::model::word_fields(op, rs, rt, imm),
{
    (((op & 0x3f) as u32) << 26) | (((rs & 0x1f) as u32) << 21) | (((rt & 0x1f) as u32) << 16) | (
    imm as u32)
}

/// Packs an opcode and a 26-bit absolute word address into one word.
fn word_jump_exec(op: u8, addr: u32) -> (r: u32)
    ensures
        r == crate::model::word_jump(op, addr),
{
    (((op & 0x3f) as u32) << 26) | (addr & 0x03ff_ffff)
}

} // verus!
