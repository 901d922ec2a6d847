//! Diagnostic rendering: colored, multi-line messages pointing at the
//! offending source line, built character-exactly to a specification.

use vstd::prelude::*;
use crate::errors::{AsmError, ErrorKind, SpecError, SpecErrorKind, RegField};
use crate::numbers::{dec_chars, signed_dec_chars, render_dec, render_signed};

verus! {

/// A rendered assembly diagnostic.
#[derive(Debug)]
pub struct AssemblyError {
    pub message: String,
}

/// A rendered operand diagnostic; the text has the same shape.
#[derive(Debug)]
pub struct OperandError {
    pub inner: AssemblyError,
}

/// `n` spaces.
pub open spec fn spaces(n: nat) -> Seq<char>
    decreases n,
{
    if n == 0 {
        Seq::empty()
    } else {
        spaces((n - 1) as nat).push(' ')
    }
}

/// The exact text of a diagnostic: a colored `Error:` header with the
/// message, then, when a line number is given, a colored arrow naming the
/// line, and, when the line's text is given as well, a gutter with the line
/// quoted between two blank gutter rows.
pub open spec fn assembly_message(
    msg: Seq<char>,
    line_num: Option<int>,
    line: Option<Seq<char>>,
) -> Seq<char> {
    let base = "\u{1b}[31mError\u{1b}[0m: "@ + msg + "\n"@;
    match line_num {
        None => base,
        Some(num) => {
            let with_loc = base + "\u{1b}[34m --> \u{1b}[0mFILE \u{1b}[34mline\u{1b}[0m "@
                + dec_chars(num as nat) + "\n"@;
            match line {
                None => with_loc,
                Some(l) => {
                    let indent = dec_chars(num as nat).len();
                    with_loc + ("\u{1b}[34m"@ + spaces(indent) + " |\n\u{1b}[0m"@) + (dec_chars(
                        num as nat,
                    ) + " |\u{1b}[0m "@ + l + "\n"@) + ("\u{1b}[34m"@ + spaces(indent)
                        + " |\u{1b}[0m\n"@)
                },
            }
        },
    }
}

pub open spec fn opt_num_view(v: Option<usize>) -> Option<int> {
    match v {
        Some(n) => Some(n as int),
        None => None,
    }
}

pub open spec fn opt_line_view(v: Option<&str>) -> Option<Seq<char>> {
    match v {
        Some(l) => Some(l@),
        None => None,
    }
}

fn append_spaces(m: &mut String, n: usize)
    ensures
        final(m)@ == old(m)@ + spaces(n as nat),
{
    let mut k: usize = 0;
    proof {
        assert(old(m)@ + spaces(0) =~= old(m)@);
    }
    while k < n
        invariant
            0 <= k <= n,
            m@ == old(m)@ + spaces(k as nat),
        decreases n - k,
    {
        m.push(' ');
        k = k + 1;
        proof {
            assert((old(m)@ + spaces((k - 1) as nat)).push(' ') =~= old(m)@ + spaces(k as nat));
        }
    }
}

/// Render a diagnostic: the message, and, when given, the 1-based source
/// line number and the normalized line text it points at.
pub fn assembly_error(msg: &str, line_num: Option<usize>, line: Option<&str>) -> (r: AssemblyError)
    ensures
        r.message@ == assembly_message(msg@, opt_num_view(line_num), opt_line_view(line)),
{
    let mut m = String::from_str("\u{1b}[31mError\u{1b}[0m: ");
    m.append(msg);
    m.append("\n");
    let ghost base = "\u{1b}[31mError\u{1b}[0m: "@ + msg@ + "\n"@;
    proof {
        assert(m@ =~= base);
    }
    match line_num {
        None => AssemblyError { message: m },
        Some(num) => {
            m.append("\u{1b}[34m --> \u{1b}[0mFILE \u{1b}[34mline\u{1b}[0m ");
            let numstr = render_dec(num as u64);
            m.append(numstr.as_str());
            m.append("\n");
            let ghost with_loc = base + "\u{1b}[34m --> \u{1b}[0mFILE \u{1b}[34mline\u{1b}[0m "@
                + dec_chars(num as nat) + "\n"@;
            proof {
                assert(m@ =~= with_loc);
            }
            match line {
                None => AssemblyError { message: m },
                Some(l) => {
                    let indent = numstr.as_str().unicode_len();
                    assert(indent == dec_chars(num as nat).len());
                    m.append("\u{1b}[34m");
                    append_spaces(&mut m, indent);
                    m.append(" |\n\u{1b}[0m");
                    proof {
                        assert(m@ =~= with_loc + ("\u{1b}[34m"@ + spaces(indent as nat)
                            + " |\n\u{1b}[0m"@));
                    }
                    let ghost with_open = m@;
                    m.append(numstr.as_str());
                    m.append(" |\u{1b}[0m ");
                    m.append(l);
                    m.append("\n");
                    proof {
                        assert(m@ =~= with_open + (dec_chars(num as nat) + " |\u{1b}[0m "@ + l@
                            + "\n"@));
                    }
                    let ghost with_src = m@;
                    m.append("\u{1b}[34m");
                    append_spaces(&mut m, indent);
                    m.append(" |\u{1b}[0m\n");
                    proof {
                        assert(m@ =~= with_src + ("\u{1b}[34m"@ + spaces(indent as nat)
                            + " |\u{1b}[0m\n"@));
                        assert(m@ =~= assembly_message(msg@, opt_num_view(line_num),
                            opt_line_view(line)));
                    }
                    AssemblyError { message: m }
                },
            }
        },
    }
}

/// Render an operand diagnostic; it always names a source line.
pub fn operand_error(msg: &str, line_num: usize, line: Option<&str>) -> (r: OperandError)
    ensures
        r.inner.message@ == assembly_message(msg@, Some(line_num as int), opt_line_view(line)),
{
    OperandError { inner: assembly_error(msg, Some(line_num), line) }
}

/// The mnemonic of an opcode number, for diagnostics; `???` for a number
/// outside the instruction set.
pub open spec fn opcode_name(op: int) -> Seq<char> {
    if op == 0 { "nop"@ }
    else if op == 1 { "hlt"@ }
    else if op == 2 { "add"@ }
    else if op == 3 { "sub"@ }
    else if op == 4 { "nor"@ }
    else if op == 5 { "and"@ }
    else if op == 6 { "xor"@ }
    else if op == 7 { "rsh"@ }
    else if op == 8 { "ldi"@ }
    else if op == 9 { "adi"@ }
    else if op == 10 { "jmp"@ }
    else if op == 11 { "brh"@ }
    else if op == 12 { "cal"@ }
    else if op == 13 { "ret"@ }
    else if op == 14 { "lod"@ }
    else if op == 15 { "str"@ }
    else { "???"@ }
}

pub fn opcode_name_exec(op: i32) -> (r: &'static str)
    ensures
        r@ == opcode_name(op as int),
{
    if op == 0 { "nop" }
    else if op == 1 { "hlt" }
    else if op == 2 { "add" }
    else if op == 3 { "sub" }
    else if op == 4 { "nor" }
    else if op == 5 { "and" }
    else if op == 6 { "xor" }
    else if op == 7 { "rsh" }
    else if op == 8 { "ldi" }
    else if op == 9 { "adi" }
    else if op == 10 { "jmp" }
    else if op == 11 { "brh" }
    else if op == 12 { "cal" }
    else if op == 13 { "ret" }
    else if op == 14 { "lod" }
    else if op == 15 { "str" }
    else { "???" }
}

/// The message text of each error kind.
pub open spec fn kind_message(k: SpecErrorKind) -> Seq<char> {
    match k {
        SpecErrorKind::UnresolvedSymbol { symbol } => "Could not resolve symbol '"@ + symbol
            + "'"@,
        SpecErrorKind::NumberParseFailure { token } => "Could not parse number '"@ + token + "'"@,
        SpecErrorKind::OperandCountMismatch { opcode, expected, actual } =>
            "Incorrect number of operands for '"@ + opcode_name(opcode) + "' (expected "@
                + dec_chars(expected as nat) + ", got "@ + dec_chars(actual as nat) + ")"@,
        SpecErrorKind::RegisterOutOfRange { field, opcode } => (match field {
            RegField::A => "Invalid reg A for '"@,
            RegField::B => "Invalid reg B for '"@,
            RegField::C => "Invalid reg C for '"@,
        }) + opcode_name(opcode) + "'"@,
        SpecErrorKind::ImmediateOutOfRange { value } => "Invalid immediate value '"@
            + signed_dec_chars(value) + "'"@,
        SpecErrorKind::AddressOutOfRange { value } => "Invalid address '"@ + signed_dec_chars(
            value,
        ) + "'"@,
        SpecErrorKind::OffsetOutOfRange { value } => "Invalid offset '"@ + signed_dec_chars(value)
            + "'"@,
        SpecErrorKind::ConditionOutOfRange { opcode } => "Invalid condition for '"@ + opcode_name(
            opcode,
        ) + "'"@,
    }
}

/// Build the message text of one error kind.
pub fn kind_message_exec(k: &ErrorKind) -> (r: String)
    ensures
        r@ == kind_message(k@),
{
    match k {
        ErrorKind::UnresolvedSymbol { symbol } => {
            let mut m = String::from_str("Could not resolve symbol '");
            m.append(symbol.as_str());
            m.append("'");
            proof {
                assert(m@ =~= kind_message(k@));
            }
            m
        },
        ErrorKind::NumberParseFailure { token } => {
            let mut m = String::from_str("Could not parse number '");
            m.append(token.as_str());
            m.append("'");
            proof {
                assert(m@ =~= kind_message(k@));
            }
            m
        },
        ErrorKind::OperandCountMismatch { opcode, expected, actual } => {
            let mut m = String::from_str("Incorrect number of operands for '");
            m.append(opcode_name_exec(*opcode));
            m.append("' (expected ");
            let e = render_dec(*expected as u64);
            m.append(e.as_str());
            m.append(", got ");
            let a = render_dec(*actual as u64);
            m.append(a.as_str());
            m.append(")");
            proof {
                assert(m@ =~= kind_message(k@));
            }
            m
        },
        ErrorKind::RegisterOutOfRange { field, opcode } => {
            let mut m = match field {
                RegField::A => String::from_str("Invalid reg A for '"),
                RegField::B => String::from_str("Invalid reg B for '"),
                RegField::C => String::from_str("Invalid reg C for '"),
            };
            m.append(opcode_name_exec(*opcode));
            m.append("'");
            proof {
                assert(m@ =~= kind_message(k@));
            }
            m
        },
        ErrorKind::ImmediateOutOfRange { value } => {
            let mut m = String::from_str("Invalid immediate value '");
            let v = render_signed(*value);
            m.append(v.as_str());
            m.append("'");
            proof {
                assert(m@ =~= kind_message(k@));
            }
            m
        },
        ErrorKind::AddressOutOfRange { value } => {
            let mut m = String::from_str("Invalid address '");
            let v = render_signed(*value);
            m.append(v.as_str());
            m.append("'");
            proof {
                assert(m@ =~= kind_message(k@));
            }
            m
        },
        ErrorKind::OffsetOutOfRange { value } => {
            let mut m = String::from_str("Invalid offset '");
            let v = render_signed(*value);
            m.append(v.as_str());
            m.append("'");
            proof {
                assert(m@ =~= kind_message(k@));
            }
            m
        },
        ErrorKind::ConditionOutOfRange { opcode } => {
            let mut m = String::from_str("Invalid condition for '");
            m.append(opcode_name_exec(*opcode));
            m.append("'");
            proof {
                assert(m@ =~= kind_message(k@));
            }
            m
        },
    }
}

/// Whether an error kind is found during token resolution; the others are
/// found while validating and encoding operands.
pub open spec fn is_resolution_kind(k: SpecErrorKind) -> bool {
    k is UnresolvedSymbol || k is NumberParseFailure
}

/// The full diagnostic text of an assembly failure.
pub open spec fn report_message(e: SpecError) -> Seq<char> {
    assembly_message(kind_message(e.kind), Some(e.line), Some(e.text))
}

/// Render an assembly failure the way the reporter prints it: resolution
/// failures as plain assembly diagnostics, operand failures through the
/// operand wrapper.
pub fn report(e: &AsmError) -> (r: AssemblyError)
    ensures
        r.message@ == report_message(e@),
{
    let msg = kind_message_exec(&e.kind);
    let is_res = match &e.kind {
        ErrorKind::UnresolvedSymbol { .. } => true,
        ErrorKind::NumberParseFailure { .. } => true,
        _ => false,
    };
    if is_res {
        assembly_error(msg.as_str(), Some(e.line), Some(e.text.as_str()))
    } else {
        operand_error(msg.as_str(), e.line, Some(e.text.as_str())).inner
    }
}

} // verus!
