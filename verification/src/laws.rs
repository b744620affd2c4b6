//! Whole-pipeline laws: properties that tie parsing, expansion, resolution
//! and encoding together, each stated over the spec functions the library's
//! contracts use and proved once and for all.

use vstd::prelude::*;
use crate::instruction::{line_to_instr, line_to_seq};
use crate::model::{
    encode_model, fields_of, lemma_fields_injective, opcode_of, regs_in_range, word_fields,
    ErrModel, InstrModel,
};
use crate::numeral::{all_digits, digits_val, lemma_signed_literal, lit_pattern, radix_of};
use crate::parse::{one_reg_spec, split_first, two_regs_spec};
use crate::program::{build_program, detect_label_spec, ProgramModel};
use crate::register::{lemma_reg_index_in_range, reg_index};

verus! {

/// The instruction forms with two register operands and nothing else.
pub open spec fn is_two_reg(m: InstrModel) -> bool {
    m is Add || m is Comp || m is And || m is Xor || m is Sllv || m is Srlv || m is Srav
}

/// Every register index a parsed instruction stores came from the register
/// table, so it fits the 5-bit register field.
pub proof fn lemma_parsed_regs_in_range(s: Seq<char>, m: InstrModel)
    requires
        line_to_instr(s) == Ok::<_, ErrModel>(m),
    ensures
        regs_in_range(m),
{
    assert forall|t: Seq<char>| #[trigger] reg_index(t) is Some implies reg_index(t)->Some_0
        < 32 by {
        lemma_reg_index_in_range(t);
    }
}

/// The same holds across pseudo-instruction expansion: every primitive
/// instruction a line expands to stores only in-range register indices (the
/// stack pointer the expansions use is register 29).
pub proof fn lemma_expanded_regs_in_range(s: Seq<char>, ms: Seq<InstrModel>)
    requires
        line_to_seq(s) == Ok::<_, ErrModel>(ms),
    ensures
        forall|k: int| 0 <= k < ms.len() ==> regs_in_range(#[trigger] ms[k]),
{
    assert forall|t: Seq<char>| #[trigger] reg_index(t) is Some implies reg_index(t)->Some_0
        < 32 by {
        lemma_reg_index_in_range(t);
    }
    if let Ok(m) = line_to_instr(s) {
        lemma_parsed_regs_in_range(s, m);
    }
}

/// Every register index a parsed two-register instruction stores fits the
/// 5-bit register field.
pub proof fn lemma_parsed_two_reg_in_range(s: Seq<char>, m: InstrModel)
    requires
        line_to_instr(s) == Ok::<_, ErrModel>(m),
        is_two_reg(m),
    ensures
        fields_of(m).0 < 32,
        fields_of(m).1 < 32,
{
    lemma_parsed_regs_in_range(s, m);
}

/// Collision-freedom of two-register instructions: two of them with distinct
/// `(opcode, rs, rt)` triples never encode to the same word.
pub proof fn lemma_two_reg_collision_free(m1: InstrModel, m2: InstrModel)
    requires
        is_two_reg(m1),
        is_two_reg(m2),
        fields_of(m1).0 < 32,
        fields_of(m1).1 < 32,
        fields_of(m2).0 < 32,
        fields_of(m2).1 < 32,
        opcode_of(m1) != opcode_of(m2) || fields_of(m1).0 != fields_of(m2).0 || fields_of(m1).1
            != fields_of(m2).1,
    ensures
        encode_model(m1) matches Ok(w1) && encode_model(m2) matches Ok(w2) && w1 != w2,
{
    lemma_fields_injective(
        opcode_of(m1),
        fields_of(m1).0,
        fields_of(m1).1,
        opcode_of(m2),
        fields_of(m2).0,
        fields_of(m2).1,
        0,
    );
}

/// Parsing then encoding a two-register line is collision-free: two lines
/// whose parsed `(opcode, rs, rt)` triples differ give different words.
pub proof fn lemma_parse_encode_collision_free(
    s1: Seq<char>,
    s2: Seq<char>,
    m1: InstrModel,
    m2: InstrModel,
)
    requires
        line_to_instr(s1) == Ok::<_, ErrModel>(m1),
        line_to_instr(s2) == Ok::<_, ErrModel>(m2),
        is_two_reg(m1),
        is_two_reg(m2),
        opcode_of(m1) != opcode_of(m2) || fields_of(m1).0 != fields_of(m2).0 || fields_of(m1).1
            != fields_of(m2).1,
    ensures
        encode_model(m1) matches Ok(w1) && encode_model(m2) matches Ok(w2) && w1 != w2,
{
    lemma_parsed_two_reg_in_range(s1, m1);
    lemma_parsed_two_reg_in_range(s2, m2);
    lemma_two_reg_collision_free(m1, m2);
}

/// The immediate field of a packed word is exactly the immediate that went
/// in: no other field can disturb its 16 bits.
pub proof fn lemma_imm_field(op: u8, rs: u8, rt: u8, imm: u16)
    ensures
        word_fields(op, rs, rt, imm) & 0xffff == imm as u32,
{
    assert(((((op & 0x3f) as u32) << 26) | (((rs & 0x1f) as u32) << 21) | (((rt & 0x1f) as u32)
        << 16) | (imm as u32)) & 0xffff == imm as u32) by (bit_vector);
}

/// Signed-immediate law: a register+immediate instruction whose literal is
/// `-N`, with `N` non-zero and representable in the 16-bit field, stores and
/// encodes exactly the two's-complement bit pattern of `-N`, namely
/// `65536 - N`, in the word's immediate field.
pub proof fn lemma_signed_immediate(lit: Seq<char>, rs: u8)
    requires
        lit.len() > 0,
        lit[0] == '-',
        ({
            let body = lit.subrange(1, lit.len() as int);
            let radix = radix_of(body).0;
            let digs = radix_of(body).1;
            digs.len() > 0 && all_digits(digs, radix) && 0 < digits_val(digs, radix) <= 32768
        }),
    ensures
        ({
            let body = lit.subrange(1, lit.len() as int);
            let n = digits_val(radix_of(body).1, radix_of(body).0);
            lit_pattern(lit, 65536) == Some((65536 - n) as u32) && encode_model(
                InstrModel::AddImm { rs, imm: (65536 - n) as u16 },
            ) == Ok::<_, ErrModel>(word_fields(2, rs, 0, (65536 - n) as u16)) && word_fields(
                2,
                rs,
                0,
                (65536 - n) as u16,
            ) & 0xffff == (65536 - n) as u32
        }),
{
    lemma_signed_literal(lit, 65536);
    let body = lit.subrange(1, lit.len() as int);
    let n = digits_val(radix_of(body).1, radix_of(body).0);
    lemma_imm_field(2, rs, 0, (65536 - n) as u16);
}

/// Pseudo-expansion law for the stack push: `push reg` expands to exactly
/// two primitive instructions, a store of the register at offset zero off
/// the stack pointer and then an immediate add of the two's-complement
/// pattern of `-4` to the stack pointer.
pub proof fn lemma_push_expansion(s: Seq<char>, r: u8)
    requires
        split_first(s, ' ') matches Some(p) && p.0 == "push"@ && one_reg_spec(p.1) == Ok::<
            _,
            ErrModel,
        >(r),
    ensures
        line_to_seq(s) matches Ok(ms) && ms.len() == 2 && ms[0] == (InstrModel::Sw {
            rt: r,
            imm: 0,
            rs: 29,
        }) && ms[1] == (InstrModel::AddImm { rs: 29, imm: 0xfffc }),
{
}

/// Pseudo-expansion law for the register move: `mov dst, src` expands to
/// exactly two primitive instructions, an exclusive-or of `dst` with itself
/// (zeroing it) and then an add of `src` into `dst`; the source register is
/// read only by the add.
pub proof fn lemma_mov_expansion(s: Seq<char>, dst: u8, src: u8)
    requires
        split_first(s, ' ') matches Some(p) && p.0 == "mov"@ && two_regs_spec(p.1) == Ok::<
            _,
            ErrModel,
        >((dst, src)),
    ensures
        line_to_seq(s) matches Ok(ms) && ms.len() == 2 && ms[0] == (InstrModel::Xor {
            rs: dst,
            rt: dst,
        }) && ms[1] == (InstrModel::Add { rs: dst, rt: src }),
{
    reveal_strlit("push");
    reveal_strlit("pop");
    reveal_strlit("mov");
    let p = split_first(s, ' ')->Some_0;
    assert("mov"@.len() == 3);
    assert("push"@.len() == 4);
    assert("pop"@.len() == 3);
    assert("pop"@[1] == 'o');
    assert("mov"@[1] == 'o');
    assert("pop"@[0] == 'p' && "mov"@[0] == 'm');
    assert(p.0 != "push"@);
    assert(p.0 != "pop"@);
}

/// An instruction line advances the instruction count by exactly the length
/// of its expansion, so label indices stay consistent across pseudo
/// expansion.
pub proof fn lemma_expansion_count(lines: Seq<Seq<char>>, s: Seq<char>, pm: ProgramModel)
    requires
        build_program(lines) == Ok::<_, ErrModel>(pm),
        detect_label_spec(s) is None,
        line_to_seq(s) is Ok,
    ensures
        build_program(lines.push(s)) matches Ok(pm2) && pm2.instrs.len() == pm.instrs.len()
            + line_to_seq(s)->Ok_0.len() && pm2.labels == pm.labels,
{
    assert(lines.push(s).drop_last() =~= lines);
}

} // verus!
