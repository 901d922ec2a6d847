//! Instruction encoding: the fixed operand-count table, pseudo-instruction
//! expansion, the two token fix-ups, per-field range validation, and packing
//! into a 16-bit machine word rendered as binary text.

use vstd::prelude::*;
use crate::errors::{ErrorKind, SpecErrorKind, RegField};
use crate::strutil::token_is;

verus! {

/// How many tokens (mnemonic included) each opcode requires.
pub open spec fn operand_count(op: int) -> int {
    if op == 0 || op == 1 || op == 13 {
        1  // nop, hlt, ret
    } else if op == 10 || op == 12 {
        2  // jmp, cal
    } else if op == 7 || op == 8 || op == 9 || op == 11 {
        3  // rsh, ldi, adi, brh
    } else if 2 <= op <= 6 || op == 14 || op == 15 {
        4  // add, sub, nor, and, xor, lod, str
    } else {
        0
    }
}

pub fn operand_count_exec(op: i32) -> (r: usize)
    ensures
        r as int == operand_count(op as int),
{
    if op == 0 || op == 1 || op == 13 {
        1
    } else if op == 10 || op == 12 {
        2
    } else if op == 7 || op == 8 || op == 9 || op == 11 {
        3
    } else if 2 <= op && op <= 6 || op == 14 || op == 15 {
        4
    } else {
        0
    }
}

/// Which opcodes place a register in bits 8..=11 (the second token).
pub open spec fn has_reg_a(op: int) -> bool {
    2 <= op <= 9 || op == 14 || op == 15
}

/// Which opcodes place a register in bits 4..=7 (the third token).
pub open spec fn has_reg_b(op: int) -> bool {
    2 <= op <= 6 || op == 14 || op == 15
}

/// Which opcodes place a register in bits 0..=3 (the last token).
pub open spec fn has_reg_c(op: int) -> bool {
    2 <= op <= 7
}

/// `ldi` and `adi` carry an 8-bit immediate in bits 0..=7.
pub open spec fn has_imm(op: int) -> bool {
    op == 8 || op == 9
}

/// `jmp`, `brh` and `cal` carry a 10-bit address in bits 0..=9.
pub open spec fn has_addr(op: int) -> bool {
    op == 10 || op == 11 || op == 12
}

/// `lod` and `str` carry a 4-bit signed offset in bits 0..=3.
pub open spec fn has_offset(op: int) -> bool {
    op == 14 || op == 15
}

/// `brh` carries a 2-bit condition code in bits 10..=11.
pub open spec fn has_cond(op: int) -> bool {
    op == 11
}

/// An immediate in -128..=255 masked to its low 8 bits.
pub open spec fn imm_byte(v: int) -> int {
    if v < 0 {
        v + 256
    } else {
        v
    }
}

/// An offset in -8..=7 masked to its low 4 bits.
pub open spec fn offset_nibble(v: int) -> int {
    if v < 0 {
        v + 16
    } else {
        v
    }
}

/// The value of the machine word once every field has been validated:
/// the opcode in bits 12..=15, each active field ORed (here: added, the
/// fields are disjoint) into its place.
pub open spec fn word_value(op: int, vals: Seq<int>) -> int {
    op * 4096
        + (if has_reg_a(op) { vals[1] * 256 } else { 0 })
        + (if has_reg_b(op) { vals[2] * 16 } else { 0 })
        + (if has_reg_c(op) { vals[vals.len() - 1] } else { 0 })
        + (if has_imm(op) { imm_byte(vals[2]) } else { 0 })
        + (if has_addr(op) { vals[vals.len() - 1] } else { 0 })
        + (if has_offset(op) { offset_nibble(vals[3]) } else { 0 })
        + (if has_cond(op) { vals[1] * 1024 } else { 0 })
}

/// Validate every field of the instruction against its range and pack the
/// word. `vals` holds the resolved value of every token, the opcode first.
/// The checks run in a fixed order: register A, B, C, immediate, address,
/// offset, condition.
pub open spec fn encode_fields(op: int, vals: Seq<int>) -> Result<int, SpecErrorKind>
    recommends
        0 <= op < 16,
        vals.len() == operand_count(op),
        vals.len() >= 1,
{
    if has_reg_a(op) && !(0 <= vals[1] < 16) {
        Err(SpecErrorKind::RegisterOutOfRange { field: RegField::A, opcode: op })
    } else if has_reg_b(op) && !(0 <= vals[2] < 16) {
        Err(SpecErrorKind::RegisterOutOfRange { field: RegField::B, opcode: op })
    } else if has_reg_c(op) && !(0 <= vals[vals.len() - 1] < 16) {
        Err(SpecErrorKind::RegisterOutOfRange { field: RegField::C, opcode: op })
    } else if has_imm(op) && !(-128 <= vals[2] <= 255) {
        Err(SpecErrorKind::ImmediateOutOfRange { value: vals[2] })
    } else if has_addr(op) && !(0 <= vals[vals.len() - 1] < 1024) {
        Err(SpecErrorKind::AddressOutOfRange { value: vals[vals.len() - 1] })
    } else if has_offset(op) && !(-8 <= vals[3] <= 7) {
        Err(SpecErrorKind::OffsetOutOfRange { value: vals[3] })
    } else if has_cond(op) && !(0 <= vals[1] < 4) {
        Err(SpecErrorKind::ConditionOutOfRange { opcode: op })
    } else {
        Ok(word_value(op, vals))
    }
}

pub open spec fn vals_view(vs: Seq<i32>) -> Seq<int> {
    vs.map_values(|v: i32| v as int)
}

/// Validate and pack one instruction's resolved values.
pub fn encode_fields_exec(op: i32, vals: &Vec<i32>) -> (r: Result<u16, ErrorKind>)
    requires
        0 <= op < 16,
        vals@.len() == operand_count(op as int),
        vals@.len() >= 1,
    ensures
        match r {
            Ok(w) => encode_fields(op as int, vals_view(vals@)) == Ok::<int, SpecErrorKind>(
                w as int,
            ),
            Err(e) => encode_fields(op as int, vals_view(vals@)) == Err::<int, SpecErrorKind>(e@),
        },
{
    let n = vals.len();
    let ghost vv = vals_view(vals@);
    assert(vv.len() == n);
    assert(forall|i: int| 0 <= i < n ==> vv[i] == vals@[i] as int);

    let reg_a = 2 <= op && op <= 9 || op == 14 || op == 15;
    let reg_b = 2 <= op && op <= 6 || op == 14 || op == 15;
    let reg_c = 2 <= op && op <= 7;
    let imm = op == 8 || op == 9;
    let addr = op == 10 || op == 11 || op == 12;
    let offs = op == 14 || op == 15;
    let cond = op == 11;

    if reg_a && !(0 <= vals[1] && vals[1] < 16) {
        return Err(ErrorKind::RegisterOutOfRange { field: RegField::A, opcode: op });
    }
    if reg_b && !(0 <= vals[2] && vals[2] < 16) {
        return Err(ErrorKind::RegisterOutOfRange { field: RegField::B, opcode: op });
    }
    if reg_c && !(0 <= vals[n - 1] && vals[n - 1] < 16) {
        return Err(ErrorKind::RegisterOutOfRange { field: RegField::C, opcode: op });
    }
    if imm && !(-128 <= vals[2] && vals[2] <= 255) {
        return Err(ErrorKind::ImmediateOutOfRange { value: vals[2] });
    }
    if addr && !(0 <= vals[n - 1] && vals[n - 1] < 1024) {
        return Err(ErrorKind::AddressOutOfRange { value: vals[n - 1] });
    }
    if offs && !(-8 <= vals[3] && vals[3] <= 7) {
        return Err(ErrorKind::OffsetOutOfRange { value: vals[3] });
    }
    if cond && !(0 <= vals[1] && vals[1] < 4) {
        return Err(ErrorKind::ConditionOutOfRange { opcode: op });
    }

    let mut w: u16 = (op as u16) * 4096;
    if reg_a {
        w = w + (vals[1] as u16) * 256;
    }
    if reg_b {
        w = w + (vals[2] as u16) * 16;
    }
    if reg_c {
        w = w + (vals[n - 1] as u16);
    }
    if imm {
        let b: u16 = if vals[2] < 0 {
            (vals[2] + 256) as u16
        } else {
            vals[2] as u16
        };
        w = w + b;
    }
    if addr {
        w = w + (vals[n - 1] as u16);
    }
    if offs {
        let b: u16 = if vals[3] < 0 {
            (vals[3] + 16) as u16
        } else {
            vals[3] as u16
        };
        w = w + b;
    }
    if cond {
        w = w + (vals[1] as u16) * 1024;
    }
    Ok(w)
}

/// The 7 pseudo-instruction rewrite rules, keyed by the first token. A rule
/// applies only when the line has the tokens it reads; anything else passes
/// through unchanged.
pub open spec fn expand_pseudo(toks: Seq<Seq<char>>) -> Seq<Seq<char>> {
    if toks.len() >= 3 && toks[0] == "cmp"@ {
        seq!["sub"@, toks[1], toks[2], "r0"@]
    } else if toks.len() >= 3 && toks[0] == "mov"@ {
        seq!["add"@, toks[1], "r0"@, toks[2]]
    } else if toks.len() >= 3 && toks[0] == "lsh"@ {
        seq!["add"@, toks[1], toks[1], toks[2]]
    } else if toks.len() >= 2 && toks[0] == "inc"@ {
        seq!["adi"@, toks[1], "1"@]
    } else if toks.len() >= 2 && toks[0] == "dec"@ {
        seq!["adi"@, toks[1], "-1"@]
    } else if toks.len() >= 3 && toks[0] == "not"@ {
        seq!["nor"@, toks[1], "r0"@, toks[2]]
    } else if toks.len() >= 3 && toks[0] == "neg"@ {
        seq!["sub"@, "r0"@, toks[1], toks[2]]
    } else {
        toks
    }
}

/// `lod` and `str` written without an offset get the implicit offset `0`.
pub open spec fn fixup_offset(toks: Seq<Seq<char>>) -> Seq<Seq<char>> {
    if toks.len() == 3 && (toks[0] == "lod"@ || toks[0] == "str"@) {
        toks.push("0"@)
    } else {
        toks
    }
}

/// A token that is one lone quote character.
pub open spec fn is_lone_quote(t: Seq<char>) -> bool {
    t == seq!['\''] || t == seq!['"']
}

/// A space character literal is split in two by tokenization; two trailing
/// lone quotes collapse back into the single token `' '`.
pub open spec fn fixup_space_literal(toks: Seq<Seq<char>>) -> Seq<Seq<char>> {
    if toks.len() >= 2 && is_lone_quote(toks[toks.len() - 1]) && is_lone_quote(
        toks[toks.len() - 2],
    ) {
        toks.take(toks.len() - 2).push("' '"@)
    } else {
        toks
    }
}

/// Everything that happens to an instruction's tokens before resolution.
pub open spec fn prepare_tokens(toks: Seq<Seq<char>>) -> Seq<Seq<char>> {
    fixup_space_literal(fixup_offset(expand_pseudo(toks)))
}

/// Preparation never leaves an instruction without tokens.
pub proof fn lemma_prepare_tokens_nonempty(toks: Seq<Seq<char>>)
    requires
        toks.len() > 0,
    ensures
        prepare_tokens(toks).len() > 0,
{
    assert(expand_pseudo(toks).len() > 0);
    assert(fixup_offset(expand_pseudo(toks)).len() > 0);
}

fn copy_tokens(toks: &Vec<String>) -> (r: Vec<String>)
    ensures
        r.deep_view() == toks.deep_view(),
{
    let mut r: Vec<String> = Vec::new();
    let n = toks.len();
    let mut i: usize = 0;
    while i < n
        invariant
            n == toks@.len(),
            0 <= i <= n,
            r.deep_view() =~= toks.deep_view().take(i as int),
        decreases n - i,
    {
        let t = toks[i].clone();
        assert(t@ == toks.deep_view()[i as int]);
        let ghost odv = r.deep_view();
        r.push(t);
        proof {
            assert(r.deep_view() =~= odv.push(t@));
            assert(odv.push(t@) =~= toks.deep_view().take(i + 1));
        }
        i = i + 1;
    }
    proof {
        assert(toks.deep_view().take(n as int) =~= toks.deep_view());
    }
    r
}

fn expand_pseudo_exec(toks: &Vec<String>) -> (r: Vec<String>)
    ensures
        r.deep_view() == expand_pseudo(toks.deep_view()),
{
    let n = toks.len();
    let ghost tv = toks.deep_view();
    assert(tv.len() == n);
    assert(forall|i: int| 0 <= i < n ==> tv[i] == toks@[i]@);
    if n >= 3 && token_is(&toks[0], "cmp") {
        let mut r: Vec<String> = Vec::new();
        r.push(String::from_str("sub"));
        r.push(toks[1].clone());
        r.push(toks[2].clone());
        r.push(String::from_str("r0"));
        proof {
            assert(r.deep_view() =~= seq!["sub"@, tv[1], tv[2], "r0"@]);
        }
        r
    } else if n >= 3 && token_is(&toks[0], "mov") {
        let mut r: Vec<String> = Vec::new();
        r.push(String::from_str("add"));
        r.push(toks[1].clone());
        r.push(String::from_str("r0"));
        r.push(toks[2].clone());
        proof {
            assert(r.deep_view() =~= seq!["add"@, tv[1], "r0"@, tv[2]]);
        }
        r
    } else if n >= 3 && token_is(&toks[0], "lsh") {
        let mut r: Vec<String> = Vec::new();
        r.push(String::from_str("add"));
        r.push(toks[1].clone());
        r.push(toks[1].clone());
        r.push(toks[2].clone());
        proof {
            assert(r.deep_view() =~= seq!["add"@, tv[1], tv[1], tv[2]]);
        }
        r
    } else if n >= 2 && token_is(&toks[0], "inc") {
        let mut r: Vec<String> = Vec::new();
        r.push(String::from_str("adi"));
        r.push(toks[1].clone());
        r.push(String::from_str("1"));
        proof {
            assert(r.deep_view() =~= seq!["adi"@, tv[1], "1"@]);
        }
        r
    } else if n >= 2 && token_is(&toks[0], "dec") {
        let mut r: Vec<String> = Vec::new();
        r.push(String::from_str("adi"));
        r.push(toks[1].clone());
        r.push(String::from_str("-1"));
        proof {
            assert(r.deep_view() =~= seq!["adi"@, tv[1], "-1"@]);
        }
        r
    } else if n >= 3 && token_is(&toks[0], "not") {
        let mut r: Vec<String> = Vec::new();
        r.push(String::from_str("nor"));
        r.push(toks[1].clone());
        r.push(String::from_str("r0"));
        r.push(toks[2].clone());
        proof {
            assert(r.deep_view() =~= seq!["nor"@, tv[1], "r0"@, tv[2]]);
        }
        r
    } else if n >= 3 && token_is(&toks[0], "neg") {
        let mut r: Vec<String> = Vec::new();
        r.push(String::from_str("sub"));
        r.push(String::from_str("r0"));
        r.push(toks[1].clone());
        r.push(toks[2].clone());
        proof {
            assert(r.deep_view() =~= seq!["sub"@, "r0"@, tv[1], tv[2]]);
        }
        r
    } else {
        copy_tokens(toks)
    }
}

fn lone_quote(t: &String) -> (r: bool)
    ensures
        r == is_lone_quote(t@),
{
    let s = t.as_str();
    if s.unicode_len() == 1 {
        let c = s.get_char(0);
        proof {
            if c == '\'' {
                assert(t@ =~= seq!['\'']);
            }
            if c == '"' {
                assert(t@ =~= seq!['"']);
            }
            if t@ == seq!['\''] {
                assert(t@[0] == '\'');
            }
            if t@ == seq!['"'] {
                assert(t@[0] == '"');
            }
        }
        c == '\'' || c == '"'
    } else {
        proof {
            assert(seq!['\''].len() == 1);
            assert(seq!['"'].len() == 1);
        }
        false
    }
}

/// Apply pseudo-expansion and both fix-ups to one instruction's tokens.
pub fn prepare_tokens_exec(toks: &Vec<String>) -> (r: Vec<String>)
    ensures
        r.deep_view() == prepare_tokens(toks.deep_view()),
{
    let mut r = expand_pseudo_exec(toks);
    let n = r.len();
    if n == 3 && (token_is(&r[0], "lod") || token_is(&r[0], "str")) {
        r.push(String::from_str("0"));
        proof {
            assert(r.deep_view() =~= fixup_offset(expand_pseudo(toks.deep_view())));
        }
    } else {
        proof {
            assert(r.deep_view() =~= fixup_offset(expand_pseudo(toks.deep_view())));
        }
    }
    let ghost fo = fixup_offset(expand_pseudo(toks.deep_view()));
    let m = r.len();
    if m >= 2 && lone_quote(&r[m - 1]) && lone_quote(&r[m - 2]) {
        let _ = r.pop();
        let _ = r.pop();
        r.push(String::from_str("' '"));
        proof {
            assert(r.deep_view() =~= fo.take(fo.len() - 2).push("' '"@));
        }
    } else {
        proof {
            assert(r.deep_view() =~= fixup_space_literal(fo));
        }
    }
    r
}

/// The binary digits of `w`, `n` of them, most significant first.
pub open spec fn bin_digits(w: int, n: nat) -> Seq<char>
    decreases n,
{
    if n == 0 {
        Seq::empty()
    } else {
        bin_digits(w / 2, (n - 1) as nat).push(if w % 2 == 1 { '1' } else { '0' })
    }
}

/// A machine word as 16 binary digits, most significant bit first.
pub open spec fn bin16(w: int) -> Seq<char> {
    bin_digits(w, 16)
}

/// Rendering yields exactly `n` digits.
pub proof fn lemma_bin_digits_len(w: int, n: nat)
    ensures
        bin_digits(w, n).len() == n,
    decreases n,
{
    if n > 0 {
        lemma_bin_digits_len(w / 2, (n - 1) as nat);
    }
}

spec fn rev_bit_chars(bits: Seq<bool>) -> Seq<char> {
    Seq::new(bits.len(), |i: int| if bits[bits.len() - 1 - i] { '1' } else { '0' })
}

/// Render a machine word as its 16-character binary string.
pub fn render_word(w: u16) -> (r: String)
    ensures
        r@ == bin16(w as int),
{
    let mut bits: Vec<bool> = Vec::new();
    let mut v: u16 = w;
    let mut k: usize = 0;
    proof {
        assert(rev_bit_chars(bits@) =~= Seq::<char>::empty());
        assert(bin_digits(w as int, 16) + Seq::<char>::empty() =~= bin_digits(w as int, 16));
    }
    while k < 16
        invariant
            0 <= k <= 16,
            bits@.len() == k,
            bin16(w as int) =~= bin_digits(v as int, (16 - k) as nat) + rev_bit_chars(bits@),
        decreases 16 - k,
    {
        let b = v % 2 == 1;
        let ghost old_bits = bits@;
        bits.push(b);
        v = v / 2;
        k = k + 1;
        proof {
            assert(rev_bit_chars(bits@) =~= seq![if b { '1' } else { '0' }]
                + rev_bit_chars(old_bits));
            assert(bin_digits((v * 2 + if b { 1int } else { 0int }) as int, (16 - k + 1) as nat)
                + rev_bit_chars(old_bits)
                =~= bin_digits(v as int, (16 - k) as nat) + (seq![if b { '1' } else { '0' }]
                + rev_bit_chars(old_bits)));
        }
    }
    assert(bin_digits(v as int, 0) =~= Seq::<char>::empty());
    assert(bin16(w as int) =~= rev_bit_chars(bits@));
    let mut out = String::new();
    let mut i: usize = 16;
    while i > 0
        invariant
            0 <= i <= 16,
            bits@.len() == 16,
            bin16(w as int) == rev_bit_chars(bits@),
            out@ =~= rev_bit_chars(bits@).take(16 - i),
        decreases i,
    {
        i = i - 1;
        let c: char = if bits[i] { '1' } else { '0' };
        out.push(c);
        proof {
            assert(out@ =~= rev_bit_chars(bits@).take(16 - i));
        }
    }
    proof {
        assert(rev_bit_chars(bits@).take(16) =~= rev_bit_chars(bits@));
    }
    out
}

} // verus!
