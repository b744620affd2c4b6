//! The assembler's error type. Every parse, resolution and encoding failure
//! is one of these variants, carrying the text needed for a diagnostic.

use vstd::prelude::*;
use crate::model::ErrModel;

verus! {

/// One assembler failure. Parsing, label resolution and encoding all return
/// this type; the first error aborts the whole run.
#[derive(Debug, PartialEq, Eq)]
pub enum AssemblerError {
    /// The line holds no mnemonic token.
    OpcodeMissing(String),
    /// The mnemonic is not in the fixed vocabulary.
    UnknownInstruction(String),
    /// Wrong operand count: expected, then found.
    InvalidNoOfArgs(usize, usize),
    /// The text names no register of the table.
    UnknownRegister(String),
    /// The numeric literal does not parse in its radix, or is out of range.
    InvalidNumber(String),
    /// The operand text does not match the required shape.
    InvalidInstruction(String),
    /// A label-carrying instruction was encoded before its address was set.
    FloatingLabel(String),
    /// A referenced label is never defined.
    UndefinedLabel(String),
}

impl View for AssemblerError {
    type V = ErrModel;

    open spec fn view(&self) -> ErrModel {
        match self {
            AssemblerError::OpcodeMissing(s) => ErrModel::OpcodeMissing { line: s@ },
            AssemblerError::UnknownInstruction(s) => ErrModel::UnknownInstruction { mnemonic: s@ },
            AssemblerError::InvalidNoOfArgs(e, f) => ErrModel::InvalidNoOfArgs {
                expected: *e,
                found: *f,
            },
            AssemblerError::UnknownRegister(s) => ErrModel::UnknownRegister { name: s@ },
            AssemblerError::InvalidNumber(s) => ErrModel::InvalidNumber { literal: s@ },
            AssemblerError::InvalidInstruction(s) => ErrModel::InvalidInstruction { text: s@ },
            AssemblerError::FloatingLabel(s) => ErrModel::FloatingLabel { name: s@ },
            AssemblerError::UndefinedLabel(s) => ErrModel::UndefinedLabel { name: s@ },
        }
    }
}

} // verus!
