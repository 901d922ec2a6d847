//! What can go wrong during assembly. Every failure aborts the run and
//! carries its kind, the 1-based source line number, and the normalized
//! text of the offending line.

use vstd::prelude::*;

verus! {

/// Which register field of an instruction was out of range.
#[derive(Clone, Copy, Debug, PartialEq, Eq, Structural)]
pub enum RegField {
    A,
    B,
    C,
}

/// The kinds of assembly failure, each with what its diagnostic needs.
#[derive(Debug)]
pub enum ErrorKind {
    UnresolvedSymbol { symbol: String },
    NumberParseFailure { token: String },
    OperandCountMismatch { opcode: i32, expected: usize, actual: usize },
    RegisterOutOfRange { field: RegField, opcode: i32 },
    ImmediateOutOfRange { value: i32 },
    AddressOutOfRange { value: i32 },
    OffsetOutOfRange { value: i32 },
    ConditionOutOfRange { opcode: i32 },
}

/// The same information at the specification level.
pub enum SpecErrorKind {
    UnresolvedSymbol { symbol: Seq<char> },
    NumberParseFailure { token: Seq<char> },
    OperandCountMismatch { opcode: int, expected: int, actual: int },
    RegisterOutOfRange { field: RegField, opcode: int },
    ImmediateOutOfRange { value: int },
    AddressOutOfRange { value: int },
    OffsetOutOfRange { value: int },
    ConditionOutOfRange { opcode: int },
}

impl View for ErrorKind {
    type V = SpecErrorKind;

    open spec fn view(&self) -> SpecErrorKind {
        match self {
            ErrorKind::UnresolvedSymbol { symbol } => SpecErrorKind::UnresolvedSymbol {
                symbol: symbol@,
            },
            ErrorKind::NumberParseFailure { token } => SpecErrorKind::NumberParseFailure {
                token: token@,
            },
            ErrorKind::OperandCountMismatch { opcode, expected, actual } =>
                SpecErrorKind::OperandCountMismatch {
                    opcode: *opcode as int,
                    expected: *expected as int,
                    actual: *actual as int,
                },
            ErrorKind::RegisterOutOfRange { field, opcode } => SpecErrorKind::RegisterOutOfRange {
                field: *field,
                opcode: *opcode as int,
            },
            ErrorKind::ImmediateOutOfRange { value } => SpecErrorKind::ImmediateOutOfRange {
                value: *value as int,
            },
            ErrorKind::AddressOutOfRange { value } => SpecErrorKind::AddressOutOfRange {
                value: *value as int,
            },
            ErrorKind::OffsetOutOfRange { value } => SpecErrorKind::OffsetOutOfRange {
                value: *value as int,
            },
            ErrorKind::ConditionOutOfRange { opcode } => SpecErrorKind::ConditionOutOfRange {
                opcode: *opcode as int,
            },
        }
    }
}

/// An assembly failure: its kind, the 1-based source line number, and the
/// normalized text of that line.
#[derive(Debug)]
pub struct AsmError {
    pub kind: ErrorKind,
    pub line: usize,
    pub text: String,
}

/// The specification-level image of an `AsmError`.
pub struct SpecError {
    pub kind: SpecErrorKind,
    pub line: int,
    pub text: Seq<char>,
}

impl View for AsmError {
    type V = SpecError;

    open spec fn view(&self) -> SpecError {
        SpecError { kind: self.kind@, line: self.line as int, text: self.text@ }
    }
}

} // verus!
