//! A verified two-pass assembler for a small 16-bit instruction set:
//! 16 opcodes, 16 general registers, byte immediates, and word addresses.
//! Source text is normalized, definitions and labels are collected in a
//! first pass, and each instruction is encoded into a 16-bit machine word
//! rendered as a 16-character binary string.

use vstd::prelude::*;

pub mod assembler;
pub mod chars;
pub mod diag;
pub mod encode;
pub mod errors;
pub mod laws;
pub mod normalize;
pub mod numbers;
pub mod strutil;
pub mod symtab;
pub mod tokens;

verus! {

} // verus!
