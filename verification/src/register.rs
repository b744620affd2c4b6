//! The register table: the fixed mapping from canonical register mnemonics to
//! their 5-bit register index.

use vstd::prelude::*;
use crate::scan::str_eq;

verus! {

/// The fixed register table: the index a register mnemonic stands for, or
/// `None` for text that names no register.
pub open spec fn reg_index(s: Seq<char>) -> Option<u8> {
    if s == "$zero"@ {
        Some(0u8)
    } else if s == "$at"@ {
        Some(1u8)
    } else if s == "$v0"@ {
        Some(2u8)
    } else if s == "$v1"@ {
        Some(3u8)
    } else if s == "$a0"@ {
        Some(4u8)
    } else if s == "$a1"@ {
        Some(5u8)
    } else if s == "$a2"@ {
        Some(6u8)
    } else if s == "$a3"@ {
        Some(7u8)
    } else if s == "$t0"@ {
        Some(8u8)
    } else if s == "$t1"@ {
        Some(9u8)
    } else if s == "$t2"@ {
        Some(10u8)
    } else if s == "$t3"@ {
        Some(11u8)
    } else if s == "$t4"@ {
        Some(12u8)
    } else if s == "$t5"@ {
        Some(13u8)
    } else if s == "$t6"@ {
        Some(14u8)
    } else if s == "$t7"@ {
        Some(15u8)
    } else if s == "$s0"@ {
        Some(16u8)
    } else if s == "$s1"@ {
        Some(17u8)
    } else if s == "$s2"@ {
        Some(18u8)
    } else if s == "$s3"@ {
        Some(19u8)
    } else if s == "$s4"@ {
        Some(20u8)
    } else if s == "$s5"@ {
        Some(21u8)
    } else if s == "$s6"@ {
        Some(22u8)
    } else if s == "$s7"@ {
        Some(23u8)
    } else if s == "$t8"@ {
        Some(24u8)
    } else if s == "$t9"@ {
        Some(25u8)
    } else if s == "$k0"@ {
        Some(26u8)
    } else if s == "$k1"@ {
        Some(27u8)
    } else if s == "$gp"@ {
        Some(28u8)
    } else if s == "$sp"@ {
        Some(29u8)
    } else if s == "$fp"@ {
        Some(30u8)
    } else if s == "$ra"@ {
        Some(31u8)
    } else {
        None
    }
}

/// Every index the register table hands out fits the 5-bit register field.
pub proof fn lemma_reg_index_in_range(s: Seq<char>)
    ensures
        reg_index(s) matches Some(i) ==> i < 32,
{
}

/// Looks a register mnemonic up in the fixed register table.
pub fn register_from_str(reg: &str) -> (r: Option<u8>)
    ensures
        r == reg_index(reg@),
{
    if str_eq(reg, "$zero") {
        Some(0)
    } else if str_eq(reg, "$at") {
        Some(1)
    } else if str_eq(reg, "$v0") {
        Some(2)
    } else if str_eq(reg, "$v1") {
        Some(3)
    } else if str_eq(reg, "$a0") {
        Some(4)
    } else if str_eq(reg, "$a1") {
        Some(5)
    } else if str_eq(reg, "$a2") {
        Some(6)
    } else if str_eq(reg, "$a3") {
        Some(7)
    } else if str_eq(reg, "$t0") {
        Some(8)
    } else if str_eq(reg, "$t1") {
        Some(9)
    } else if str_eq(reg, "$t2") {
        Some(10)
    } else if str_eq(reg, "$t3") {
        Some(11)
    } else if str_eq(reg, "$t4") {
        Some(12)
    } else if str_eq(reg, "$t5") {
        Some(13)
    } else if str_eq(reg, "$t6") {
        Some(14)
    } else if str_eq(reg, "$t7") {
        Some(15)
    } else if str_eq(reg, "$s0") {
        Some(16)
    } else if str_eq(reg, "$s1") {
        Some(17)
    } else if str_eq(reg, "$s2") {
        Some(18)
    } else if str_eq(reg, "$s3") {
        Some(19)
    } else if str_eq(reg, "$s4") {
        Some(20)
    } else if str_eq(reg, "$s5") {
        Some(21)
    } else if str_eq(reg, "$s6") {
        Some(22)
    } else if str_eq(reg, "$s7") {
        Some(23)
    } else if str_eq(reg, "$t8") {
        Some(24)
    } else if str_eq(reg, "$t9") {
        Some(25)
    } else if str_eq(reg, "$k0") {
        Some(26)
    } else if str_eq(reg, "$k1") {
        Some(27)
    } else if str_eq(reg, "$gp") {
        Some(28)
    } else if str_eq(reg, "$sp") {
        Some(29)
    } else if str_eq(reg, "$fp") {
        Some(30)
    } else if str_eq(reg, "$ra") {
        Some(31)
    } else {
        None
    }
}

} // verus!
