//! A verified assembler core for a small 32-bit register machine.
//!
//! Source lines (a label definition or one instruction) are parsed into a
//! typed instruction sequence, labels are resolved in a second pass, and each
//! instruction is encoded into a 32-bit word. Every step carries a contract
//! stating exactly what it produces, over a mathematical model of the
//! instruction set.

pub mod error;
pub mod model;
pub mod numeral;
pub mod scan;
pub mod register;
pub mod parse;
pub mod instruction;
pub mod program;
pub mod laws;
