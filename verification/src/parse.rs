//! Operand parsing: each instruction format's operand grammar, as a spec
//! function over the operand text and an executable parser proved against it.

use vstd::prelude::*;
use crate::error::AssemblerError;
use crate::model::ErrModel;
use crate::numeral::{lit_pattern, num_payload, parse_literal};
use crate::register::{reg_index, register_from_str};
use crate::scan::{
    count_parts, find_char, find_in_str, lemma_find_none_one_part, parts_of, trim, trim_str,
};

verus! {

/// `s` split at the first occurrence of `c`, which is dropped; `None` when
/// `c` does not occur.
pub open spec fn split_first(s: Seq<char>, c: char) -> Option<(Seq<char>, Seq<char>)> {
    match find_char(s, c) {
        Some(i) => Some((s.subrange(0, i), s.subrange(i + 1, s.len() as int))),
        None => None,
    }
}

/// Splits an instruction line at its first blank into the mnemonic and the
/// operand text.
pub fn extract_command<'a>(instr: &'a str) -> (r: Option<(&'a str, &'a str)>)
    ensures
        r is Some <==> split_first(instr@, ' ') is Some,
        r matches Some(p) ==> split_first(instr@, ' ') == Some((p.0@, p.1@)),
{
    let n = instr.unicode_len();
    match find_in_str(instr, ' ') {
        None => None,
        Some(i) => Some((instr.substring_char(0, i), instr.substring_char(i + 1, n))),
    }
}

/// The two-register operand form: exactly two comma-separated operands, each
/// a register of the table.
pub open spec fn two_regs_spec(s: Seq<char>) -> Result<(u8, u8), ErrModel> {
    if parts_of(s) != 2 {
        Err(ErrModel::InvalidNoOfArgs { expected: 2, found: parts_of(s) })
    } else {
        match split_first(s, ',') {
            Some(p) => {
                let l = trim(p.0);
                let rr = trim(p.1);
                match reg_index(l) {
                    None => Err(ErrModel::UnknownRegister { name: l }),
                    Some(a) => match reg_index(rr) {
                        None => Err(ErrModel::UnknownRegister { name: rr }),
                        Some(b) => Ok((a, b)),
                    },
                }
            },
            None => Err(ErrModel::InvalidNoOfArgs { expected: 2, found: 1 }),
        }
    }
}

/// Parses a two-register operand list.
pub fn parse_two_registers(rest: &str) -> (r: Result<(u8, u8), AssemblerError>)
    ensures
        match r {
            Ok(p) => two_regs_spec(rest@) == Ok::<_, ErrModel>(p),
            Err(e) => two_regs_spec(rest@) == Err::<(u8, u8), _>(e@),
        },
{
    let n = rest.unicode_len();
    match find_in_str(rest, ',') {
        None => {
            proof {
                lemma_find_none_one_part(rest@, ',');
            }
            Err(AssemblerError::InvalidNoOfArgs(2, 1))
        },
        Some(i) => {
            let parts = count_parts(rest);
            if parts != 2 {
                return Err(AssemblerError::InvalidNoOfArgs(2, parts));
            }
            let left = trim_str(rest.substring_char(0, i));
            let right = trim_str(rest.substring_char(i + 1, n));
            match register_from_str(left) {
                None => Err(AssemblerError::UnknownRegister(left.to_owned())),
                Some(a) => match register_from_str(right) {
                    None => Err(AssemblerError::UnknownRegister(right.to_owned())),
                    Some(b) => Ok((a, b)),
                },
            }
        },
    }
}

/// The register-and-value operand form: a register, then a numeric literal
/// re-interpreted in a field of `m` values.
pub open spec fn reg_val_spec(s: Seq<char>, m: u32) -> Result<(u8, u16), ErrModel> {
    if parts_of(s) != 2 {
        Err(ErrModel::InvalidNoOfArgs { expected: 2, found: parts_of(s) })
    } else {
        match split_first(s, ',') {
            Some(p) => {
                let l = trim(p.0);
                let rr = trim(p.1);
                match reg_index(l) {
                    None => Err(ErrModel::UnknownRegister { name: l }),
                    Some(a) => match lit_pattern(rr, m) {
                        Some(v) => Ok((a, v as u16)),
                        None => Err(ErrModel::InvalidNumber { literal: num_payload(rr) }),
                    },
                }
            },
            None => Err(ErrModel::InvalidNoOfArgs { expected: 2, found: 1 }),
        }
    }
}

/// Parses a register-and-value operand list for a field of `m` values.
pub fn parse_register_and_value(rest: &str, m: u32) -> (r: Result<(u8, u16), AssemblerError>)
    requires
        m == 256 || m == 65536,
    ensures
        match r {
            Ok(p) => reg_val_spec(rest@, m) == Ok::<_, ErrModel>(p),
            Err(e) => reg_val_spec(rest@, m) == Err::<(u8, u16), _>(e@),
        },
{
    let n = rest.unicode_len();
    match find_in_str(rest, ',') {
        None => {
            proof {
                lemma_find_none_one_part(rest@, ',');
            }
            Err(AssemblerError::InvalidNoOfArgs(2, 1))
        },
        Some(i) => {
            let parts = count_parts(rest);
            if parts != 2 {
                return Err(AssemblerError::InvalidNoOfArgs(2, parts));
            }
            let left = trim_str(rest.substring_char(0, i));
            let right = trim_str(rest.substring_char(i + 1, n));
            match register_from_str(left) {
                None => Err(AssemblerError::UnknownRegister(left.to_owned())),
                Some(a) => match parse_literal(right, m) {
                    Ok(v) => Ok((a, v as u16)),
                    Err(d) => Err(AssemblerError::InvalidNumber(d.to_owned())),
                },
            }
        },
    }
}

/// The register-and-label operand form: a register, then a bare label name.
/// The name is not validated here; resolution will reject one that is never
/// defined.
pub open spec fn reg_label_spec(s: Seq<char>) -> Result<(u8, Seq<char>), ErrModel> {
    if parts_of(s) != 2 {
        Err(ErrModel::InvalidNoOfArgs { expected: 2, found: parts_of(s) })
    } else {
        match split_first(s, ',') {
            Some(p) => {
                let l = trim(p.0);
                match reg_index(l) {
                    None => Err(ErrModel::UnknownRegister { name: l }),
                    Some(a) => Ok((a, trim(p.1))),
                }
            },
            None => Err(ErrModel::InvalidNoOfArgs { expected: 2, found: 1 }),
        }
    }
}

/// Parses a register-and-label operand list.
pub fn parse_register_and_label(rest: &str) -> (r: Result<(u8, String), AssemblerError>)
    ensures
        match r {
            Ok(p) => reg_label_spec(rest@) == Ok::<_, ErrModel>((p.0, p.1@)),
            Err(e) => reg_label_spec(rest@) == Err::<(u8, Seq<char>), _>(e@),
        },
{
    let n = rest.unicode_len();
    match find_in_str(rest, ',') {
        None => {
            proof {
                lemma_find_none_one_part(rest@, ',');
            }
            Err(AssemblerError::InvalidNoOfArgs(2, 1))
        },
        Some(i) => {
            let parts = count_parts(rest);
            if parts != 2 {
                return Err(AssemblerError::InvalidNoOfArgs(2, parts));
            }
            let left = trim_str(rest.substring_char(0, i));
            let name = trim_str(rest.substring_char(i + 1, n));
            match register_from_str(left) {
                None => Err(AssemblerError::UnknownRegister(left.to_owned())),
                Some(a) => Ok((a, name.to_owned())),
            }
        },
    }
}

/// The single-register operand form.
pub open spec fn one_reg_spec(s: Seq<char>) -> Result<u8, ErrModel> {
    match reg_index(trim(s)) {
        Some(a) => Ok(a),
        None => Err(ErrModel::UnknownRegister { name: trim(s) }),
    }
}

/// Parses a single register operand.
pub fn parse_one_register(rest: &str) -> (r: Result<u8, AssemblerError>)
    ensures
        match r {
            Ok(a) => one_reg_spec(rest@) == Ok::<_, ErrModel>(a),
            Err(e) => one_reg_spec(rest@) == Err::<u8, _>(e@),
        },
{
    let t = trim_str(rest);
    match register_from_str(t) {
        Some(a) => Ok(a),
        None => Err(AssemblerError::UnknownRegister(t.to_owned())),
    }
}

/// The memory-access operand form `register , offset ( base-register )`,
/// with optional whitespace around each piece. The result is the transfer
/// register, the offset bit pattern, and the base register.
pub open spec fn mem_spec(s: Seq<char>) -> Result<(u8, u16, u8), ErrModel> {
    match split_first(s, ',') {
        None => Err(ErrModel::InvalidInstruction { text: s }),
        Some(p) => {
            let rt_txt = trim(p.0);
            match split_first(p.1, '(') {
                None => Err(ErrModel::InvalidInstruction { text: s }),
                Some(q) => {
                    let off_txt = trim(q.0);
                    match split_first(q.1, ')') {
                        None => Err(ErrModel::InvalidInstruction { text: s }),
                        Some(b) => {
                            if trim(b.1).len() != 0 {
                                Err(ErrModel::InvalidInstruction { text: s })
                            } else {
                                let base_txt = trim(b.0);
                                match reg_index(rt_txt) {
                                    None => Err(ErrModel::UnknownRegister { name: rt_txt }),
                                    Some(rt) => match lit_pattern(off_txt, 65536) {
                                        None => Err(ErrModel::InvalidNumber {
                                            literal: num_payload(off_txt),
                                        }),
                                        Some(imm) => match reg_index(base_txt) {
                                            None => Err(ErrModel::UnknownRegister {
                                                name: base_txt,
                                            }),
                                            Some(rs) => Ok((rt, imm as u16, rs)),
                                        },
                                    },
                                }
                            }
                        },
                    }
                },
            }
        },
    }
}

/// Parses a memory-access operand list.
pub fn parse_mem_access(rest: &str) -> (r: Result<(u8, u16, u8), AssemblerError>)
    ensures
        match r {
            Ok(p) => mem_spec(rest@) == Ok::<_, ErrModel>(p),
            Err(e) => mem_spec(rest@) == Err::<(u8, u16, u8), _>(e@),
        },
{
    let n = rest.unicode_len();
    let i = match find_in_str(rest, ',') {
        None => {
            return Err(AssemblerError::InvalidInstruction(rest.to_owned()));
        },
        Some(i) => i,
    };
    let rt_txt = trim_str(rest.substring_char(0, i));
    let after = rest.substring_char(i + 1, n);
    let alen = after.unicode_len();
    let q = match find_in_str(after, '(') {
        None => {
            return Err(AssemblerError::InvalidInstruction(rest.to_owned()));
        },
        Some(q) => q,
    };
    let off_txt = trim_str(after.substring_char(0, q));
    let tail = after.substring_char(q + 1, alen);
    let tlen = tail.unicode_len();
    let u = match find_in_str(tail, ')') {
        None => {
            return Err(AssemblerError::InvalidInstruction(rest.to_owned()));
        },
        Some(u) => u,
    };
    let end = trim_str(tail.substring_char(u + 1, tlen));
    if end.unicode_len() != 0 {
        return Err(AssemblerError::InvalidInstruction(rest.to_owned()));
    }
    let base_txt = trim_str(tail.substring_char(0, u));
    match register_from_str(rt_txt) {
        None => Err(AssemblerError::UnknownRegister(rt_txt.to_owned())),
        Some(rt) => match parse_literal(off_txt, 65536) {
            Err(d) => Err(AssemblerError::InvalidNumber(d.to_owned())),
            Ok(imm) => match register_from_str(base_txt) {
                None => Err(AssemblerError::UnknownRegister(base_txt.to_owned())),
                Some(rs) => Ok((rt, imm as u16, rs)),
            },
        },
    }
}

} // verus!
