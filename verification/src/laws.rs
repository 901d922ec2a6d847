//! The library's laws, stated and proved once for all inputs: where the
//! opcode and each register index land in an encoded word, that a pseudo-
//! instruction encodes exactly as its hand-written expansion, that the last
//! `define` of a name decides its value, and that a label resolves to its
//! program counter wherever it is referenced from.

use vstd::prelude::*;
use vstd::arithmetic::div_mod::lemma_fundamental_div_mod_converse;
use crate::assembler::{
    encode_instruction, pass1, pass1_from, pass2_from, resolve_tokens, spec_assemble,
    SpecInstruction,
};
use crate::encode::{
    bin16, encode_fields, expand_pseudo, has_reg_a, has_reg_b, has_reg_c, lemma_bin_digits_len,
    operand_count, prepare_tokens, word_value,
};
use crate::errors::SpecErrorKind;
use crate::symtab::{
    char_syms, cond_syms, is_numeric_token, opcode_syms, parse_define_value, port_syms,
    register_syms, seed_map, spec_resolve, ResolveError,
};
use crate::normalize::clean_lines;
use crate::tokens::tokenize;

verus! {

/// How the bit-level field reads relate to arithmetic on a 16-bit word.
proof fn lemma_u16_bit_fields(x: u16)
    by (bit_vector)
    ensures
        x >> 12 == x / 4096,
        (x >> 8) & 0xf == (x / 256) % 16,
        (x >> 4) & 0xf == (x / 16) % 16,
        x & 0xf == x % 16,
        (x >> 10) & 0x3 == (x / 1024) % 4,
{
}

/// Law: every successfully encoded word carries its opcode, and nothing
/// else, in its top 4 bits.
pub proof fn lemma_opcode_occupies_top_bits(op: int, vals: Seq<int>, w: int)
    requires
        0 <= op < 16,
        vals.len() == operand_count(op),
        1 <= vals.len(),
        encode_fields(op, vals) == Ok::<int, SpecErrorKind>(w),
    ensures
        0 <= w < 0x10000,
        w / 0x1000 == op,
        ((w as u16) >> 12) as int == op,
{
    let low = w - op * 4096;
    assert(w == word_value(op, vals));
    assert(0 <= low < 4096);
    lemma_fundamental_div_mod_converse(w, 4096, op, low);
    let x = w as u16;
    lemma_u16_bit_fields(x);
    assert(x as int == w);
}

/// Law: every register index placed in a regA, regB or regC position of a
/// successfully encoded word can be read back, exactly, from its 4-bit
/// field (bits 8..=11, 4..=7 and 0..=3).
pub proof fn lemma_register_fields_exact(op: int, vals: Seq<int>, w: int)
    requires
        0 <= op < 16,
        vals.len() == operand_count(op),
        1 <= vals.len(),
        encode_fields(op, vals) == Ok::<int, SpecErrorKind>(w),
    ensures
        has_reg_a(op) ==> (w / 256) % 16 == vals[1] && (((w as u16) >> 8) & 0xf) as int
            == vals[1],
        has_reg_b(op) ==> (w / 16) % 16 == vals[2] && (((w as u16) >> 4) & 0xf) as int
            == vals[2],
        has_reg_c(op) ==> w % 16 == vals[vals.len() - 1] && ((w as u16) & 0xf) as int
            == vals[vals.len() - 1],
{
    lemma_opcode_occupies_top_bits(op, vals, w);
    let x = w as u16;
    lemma_u16_bit_fields(x);
    assert(x as int == w);
    assert(w == word_value(op, vals));
    if has_reg_a(op) {
        let a = vals[1];
        let low8 = w - (op * 16 + a) * 256;
        assert(0 <= low8 < 256);
        lemma_fundamental_div_mod_converse(w, 256, op * 16 + a, low8);
        lemma_fundamental_div_mod_converse(op * 16 + a, 16, op, a);
    }
    if has_reg_b(op) {
        let a = vals[1];
        let b = vals[2];
        let low4 = w - (op * 256 + a * 16 + b) * 16;
        assert(0 <= low4 < 16);
        lemma_fundamental_div_mod_converse(w, 16, op * 256 + a * 16 + b, low4);
        lemma_fundamental_div_mod_converse(op * 256 + a * 16 + b, 16, op * 16 + a, b);
    }
    if has_reg_c(op) {
        let c = vals[vals.len() - 1];
        let q = (w - c) / 16;
        assert(w == ((w - c) / 16) * 16 + c) by {
            assert(w - c == (op * 4096 + (if has_reg_a(op) {
                vals[1] * 256
            } else {
                0
            }) + (if has_reg_b(op) {
                vals[2] * 16
            } else {
                0
            })));
            lemma_fundamental_div_mod_converse(
                w - c,
                16,
                op * 256 + (if has_reg_a(op) {
                    vals[1] * 16
                } else {
                    0
                }) + (if has_reg_b(op) {
                    vals[2]
                } else {
                    0
                }),
                0,
            );
        }
        lemma_fundamental_div_mod_converse(w, 16, q, c);
    }
}

/// Law: an instruction that encodes successfully has, in the top 4 bits of
/// its word, exactly the value its first prepared token resolved to.
pub proof fn lemma_instruction_opcode_top_bits(m: Map<Seq<char>, int>, toks: Seq<Seq<char>>, w: int)
    requires
        toks.len() > 0,
        encode_instruction(m, toks) == Ok::<int, SpecErrorKind>(w),
    ensures
        0 <= w < 0x10000,
        spec_resolve(m, prepare_tokens(toks)[0]) == Ok::<int, ResolveError>(w / 0x1000),
{
    let p = prepare_tokens(toks);
    let vals = resolve_tokens(m, p)->Ok_0;
    assert(p.len() > 0);
    assert(vals[0] == spec_resolve(m, p[0])->Ok_0);
    let op = vals[0];
    assert(0 <= op < 16) by {
        if op < 0 || op >= 16 {
            assert(operand_count(op) == 0);
        }
    }
    lemma_opcode_occupies_top_bits(op, vals, w);
}


/// The character-literal layer touches only keys that begin with a quote.
proof fn lemma_char_syms_other(m: Map<Seq<char>, int>, k: Seq<char>)
    requires
        k.len() > 0,
        k[0] != '"',
        k[0] != '\'',
    ensures
        char_syms(m).contains_key(k) == m.contains_key(k),
        m.contains_key(k) ==> char_syms(m)[k] == m[k],
{
    reveal_strlit("\" \"");
    assert("\" \""@.len() == 3 && "\" \""@[0] == '"');
    reveal_strlit("' '");
    assert("' '"@.len() == 3 && "' '"@[0] == '\'');
    reveal_strlit("\"a\"");
    assert("\"a\""@.len() == 3 && "\"a\""@[0] == '"');
    reveal_strlit("'a'");
    assert("'a'"@.len() == 3 && "'a'"@[0] == '\'');
    reveal_strlit("\"b\"");
    assert("\"b\""@.len() == 3 && "\"b\""@[0] == '"');
    reveal_strlit("'b'");
    assert("'b'"@.len() == 3 && "'b'"@[0] == '\'');
    reveal_strlit("\"c\"");
    assert("\"c\""@.len() == 3 && "\"c\""@[0] == '"');
    reveal_strlit("'c'");
    assert("'c'"@.len() == 3 && "'c'"@[0] == '\'');
    reveal_strlit("\"d\"");
    assert("\"d\""@.len() == 3 && "\"d\""@[0] == '"');
    reveal_strlit("'d'");
    assert("'d'"@.len() == 3 && "'d'"@[0] == '\'');
    reveal_strlit("\"e\"");
    assert("\"e\""@.len() == 3 && "\"e\""@[0] == '"');
    reveal_strlit("'e'");
    assert("'e'"@.len() == 3 && "'e'"@[0] == '\'');
    reveal_strlit("\"f\"");
    assert("\"f\""@.len() == 3 && "\"f\""@[0] == '"');
    reveal_strlit("'f'");
    assert("'f'"@.len() == 3 && "'f'"@[0] == '\'');
    reveal_strlit("\"g\"");
    assert("\"g\""@.len() == 3 && "\"g\""@[0] == '"');
    reveal_strlit("'g'");
    assert("'g'"@.len() == 3 && "'g'"@[0] == '\'');
    reveal_strlit("\"h\"");
    assert("\"h\""@.len() == 3 && "\"h\""@[0] == '"');
    reveal_strlit("'h'");
    assert("'h'"@.len() == 3 && "'h'"@[0] == '\'');
    reveal_strlit("\"i\"");
    assert("\"i\""@.len() == 3 && "\"i\""@[0] == '"');
    reveal_strlit("'i'");
    assert("'i'"@.len() == 3 && "'i'"@[0] == '\'');
    reveal_strlit("\"j\"");
    assert("\"j\""@.len() == 3 && "\"j\""@[0] == '"');
    reveal_strlit("'j'");
    assert("'j'"@.len() == 3 && "'j'"@[0] == '\'');
    reveal_strlit("\"k\"");
    assert("\"k\""@.len() == 3 && "\"k\""@[0] == '"');
    reveal_strlit("'k'");
    assert("'k'"@.len() == 3 && "'k'"@[0] == '\'');
    reveal_strlit("\"l\"");
    assert("\"l\""@.len() == 3 && "\"l\""@[0] == '"');
    reveal_strlit("'l'");
    assert("'l'"@.len() == 3 && "'l'"@[0] == '\'');
    reveal_strlit("\"m\"");
    assert("\"m\""@.len() == 3 && "\"m\""@[0] == '"');
    reveal_strlit("'m'");
    assert("'m'"@.len() == 3 && "'m'"@[0] == '\'');
    reveal_strlit("\"n\"");
    assert("\"n\""@.len() == 3 && "\"n\""@[0] == '"');
    reveal_strlit("'n'");
    assert("'n'"@.len() == 3 && "'n'"@[0] == '\'');
    reveal_strlit("\"o\"");
    assert("\"o\""@.len() == 3 && "\"o\""@[0] == '"');
    reveal_strlit("'o'");
    assert("'o'"@.len() == 3 && "'o'"@[0] == '\'');
    reveal_strlit("\"p\"");
    assert("\"p\""@.len() == 3 && "\"p\""@[0] == '"');
    reveal_strlit("'p'");
    assert("'p'"@.len() == 3 && "'p'"@[0] == '\'');
    reveal_strlit("\"q\"");
    assert("\"q\""@.len() == 3 && "\"q\""@[0] == '"');
    reveal_strlit("'q'");
    assert("'q'"@.len() == 3 && "'q'"@[0] == '\'');
    reveal_strlit("\"r\"");
    assert("\"r\""@.len() == 3 && "\"r\""@[0] == '"');
    reveal_strlit("'r'");
    assert("'r'"@.len() == 3 && "'r'"@[0] == '\'');
    reveal_strlit("\"s\"");
    assert("\"s\""@.len() == 3 && "\"s\""@[0] == '"');
    reveal_strlit("'s'");
    assert("'s'"@.len() == 3 && "'s'"@[0] == '\'');
    reveal_strlit("\"t\"");
    assert("\"t\""@.len() == 3 && "\"t\""@[0] == '"');
    reveal_strlit("'t'");
    assert("'t'"@.len() == 3 && "'t'"@[0] == '\'');
    reveal_strlit("\"u\"");
    assert("\"u\""@.len() == 3 && "\"u\""@[0] == '"');
    reveal_strlit("'u'");
    assert("'u'"@.len() == 3 && "'u'"@[0] == '\'');
    reveal_strlit("\"v\"");
    assert("\"v\""@.len() == 3 && "\"v\""@[0] == '"');
    reveal_strlit("'v'");
    assert("'v'"@.len() == 3 && "'v'"@[0] == '\'');
    reveal_strlit("\"w\"");
    assert("\"w\""@.len() == 3 && "\"w\""@[0] == '"');
    reveal_strlit("'w'");
    assert("'w'"@.len() == 3 && "'w'"@[0] == '\'');
    reveal_strlit("\"x\"");
    assert("\"x\""@.len() == 3 && "\"x\""@[0] == '"');
    reveal_strlit("'x'");
    assert("'x'"@.len() == 3 && "'x'"@[0] == '\'');
    reveal_strlit("\"y\"");
    assert("\"y\""@.len() == 3 && "\"y\""@[0] == '"');
    reveal_strlit("'y'");
    assert("'y'"@.len() == 3 && "'y'"@[0] == '\'');
    reveal_strlit("\"z\"");
    assert("\"z\""@.len() == 3 && "\"z\""@[0] == '"');
    reveal_strlit("'z'");
    assert("'z'"@.len() == 3 && "'z'"@[0] == '\'');
    reveal_strlit("\".\"");
    assert("\".\""@.len() == 3 && "\".\""@[0] == '"');
    reveal_strlit("'.'");
    assert("'.'"@.len() == 3 && "'.'"@[0] == '\'');
    reveal_strlit("\"!\"");
    assert("\"!\""@.len() == 3 && "\"!\""@[0] == '"');
    reveal_strlit("'!'");
    assert("'!'"@.len() == 3 && "'!'"@[0] == '\'');
    reveal_strlit("\"?\"");
    assert("\"?\""@.len() == 3 && "\"?\""@[0] == '"');
    reveal_strlit("'?'");
    assert("'?'"@.len() == 3 && "'?'"@[0] == '\'');
}

/// The port layer touches only the 16 port names; of them only `rng` has
/// three characters.
proof fn lemma_port_syms_other(m: Map<Seq<char>, int>, k: Seq<char>)
    requires
        k.len() == 3,
        k != "rng"@,
    ensures
        port_syms(m).contains_key(k) == m.contains_key(k),
        m.contains_key(k) ==> port_syms(m)[k] == m[k],
{
    reveal_strlit("pixel_x");
    reveal_strlit("pixel_y");
    reveal_strlit("draw_pixel");
    reveal_strlit("clear_pixel");
    reveal_strlit("load_pixel");
    reveal_strlit("buffer_screen");
    reveal_strlit("clear_screen_buffer");
    reveal_strlit("write_char");
    reveal_strlit("buffer_chars");
    reveal_strlit("clear_chars_buffer");
    reveal_strlit("show_number");
    reveal_strlit("clear_number");
    reveal_strlit("signed_mode");
    reveal_strlit("unsigned_mode");
    reveal_strlit("rng");
    reveal_strlit("controller_input");
    assert("pixel_x"@.len() == 7);
    assert("pixel_y"@.len() == 7);
    assert("draw_pixel"@.len() == 10);
    assert("clear_pixel"@.len() == 11);
    assert("load_pixel"@.len() == 10);
    assert("buffer_screen"@.len() == 13);
    assert("clear_screen_buffer"@.len() == 19);
    assert("write_char"@.len() == 10);
    assert("buffer_chars"@.len() == 12);
    assert("clear_chars_buffer"@.len() == 18);
    assert("show_number"@.len() == 11);
    assert("clear_number"@.len() == 12);
    assert("signed_mode"@.len() == 11);
    assert("unsigned_mode"@.len() == 13);
    assert("controller_input"@.len() == 16);
}

/// No condition-code alias has three characters.
proof fn lemma_cond_syms_other(m: Map<Seq<char>, int>, k: Seq<char>)
    requires
        k.len() == 3,
    ensures
        cond_syms(m).contains_key(k) == m.contains_key(k),
        m.contains_key(k) ==> cond_syms(m)[k] == m[k],
{
    reveal_strlit("eq");
    reveal_strlit("ne");
    reveal_strlit("ge");
    reveal_strlit("lt");
    reveal_strlit("=");
    reveal_strlit("!=");
    reveal_strlit(">=");
    reveal_strlit("<");
    reveal_strlit("z");
    reveal_strlit("nz");
    reveal_strlit("c");
    reveal_strlit("nc");
    reveal_strlit("zero");
    reveal_strlit("notzero");
    reveal_strlit("carry");
    reveal_strlit("notcarry");
    assert("eq"@.len() == 2);
    assert("ne"@.len() == 2);
    assert("ge"@.len() == 2);
    assert("lt"@.len() == 2);
    assert("="@.len() == 1);
    assert("!="@.len() == 2);
    assert(">="@.len() == 2);
    assert("<"@.len() == 1);
    assert("z"@.len() == 1);
    assert("nz"@.len() == 2);
    assert("c"@.len() == 1);
    assert("nc"@.len() == 2);
    assert("zero"@.len() == 4);
    assert("notzero"@.len() == 7);
    assert("carry"@.len() == 5);
    assert("notcarry"@.len() == 8);
}

/// Every three-character register name has `1` as its middle character.
proof fn lemma_register_syms_other(m: Map<Seq<char>, int>, k: Seq<char>)
    requires
        k.len() == 3,
        k[1] != '1',
    ensures
        register_syms(m).contains_key(k) == m.contains_key(k),
        m.contains_key(k) ==> register_syms(m)[k] == m[k],
{
    reveal_strlit("r0");
    reveal_strlit("r1");
    reveal_strlit("r2");
    reveal_strlit("r3");
    reveal_strlit("r4");
    reveal_strlit("r5");
    reveal_strlit("r6");
    reveal_strlit("r7");
    reveal_strlit("r8");
    reveal_strlit("r9");
    reveal_strlit("r10");
    reveal_strlit("r11");
    reveal_strlit("r12");
    reveal_strlit("r13");
    reveal_strlit("r14");
    reveal_strlit("r15");
    assert("r0"@.len() == 2);
    assert("r1"@.len() == 2);
    assert("r2"@.len() == 2);
    assert("r3"@.len() == 2);
    assert("r4"@.len() == 2);
    assert("r5"@.len() == 2);
    assert("r6"@.len() == 2);
    assert("r7"@.len() == 2);
    assert("r8"@.len() == 2);
    assert("r9"@.len() == 2);
    assert("r10"@.len() == 3 && "r10"@[1] == '1');
    assert("r11"@.len() == 3 && "r11"@[1] == '1');
    assert("r12"@.len() == 3 && "r12"@[1] == '1');
    assert("r13"@.len() == 3 && "r13"@[1] == '1');
    assert("r14"@.len() == 3 && "r14"@[1] == '1');
    assert("r15"@.len() == 3 && "r15"@[1] == '1');
}

/// A mnemonic keeps its opcode number through the later seed layers.
proof fn lemma_seed_keeps_mnemonic(k: Seq<char>, v: int)
    requires
        k.len() == 3,
        k[0] != '"',
        k[0] != '\'',
        k[1] != '1',
        k != "rng"@,
        opcode_syms(Map::<Seq<char>, int>::empty()).contains_key(k),
        opcode_syms(Map::<Seq<char>, int>::empty())[k] == v,
    ensures
        seed_map().contains_key(k),
        seed_map()[k] == v,
{
    let m0 = opcode_syms(Map::<Seq<char>, int>::empty());
    lemma_register_syms_other(m0, k);
    let m1 = register_syms(m0);
    lemma_cond_syms_other(m1, k);
    let m2 = cond_syms(m1);
    lemma_port_syms_other(m2, k);
    let m3 = port_syms(m2);
    lemma_char_syms_other(m3, k);
}

/// Law: the seeded symbol table values every opcode mnemonic with its own
/// opcode number.
pub proof fn lemma_seed_opcode_values()
    ensures
        seed_map()["nop"@] == 0,
        seed_map()["hlt"@] == 1,
        seed_map()["add"@] == 2,
        seed_map()["sub"@] == 3,
        seed_map()["nor"@] == 4,
        seed_map()["and"@] == 5,
        seed_map()["xor"@] == 6,
        seed_map()["rsh"@] == 7,
        seed_map()["ldi"@] == 8,
        seed_map()["adi"@] == 9,
        seed_map()["jmp"@] == 10,
        seed_map()["brh"@] == 11,
        seed_map()["cal"@] == 12,
        seed_map()["ret"@] == 13,
        seed_map()["lod"@] == 14,
        seed_map()["str"@] == 15,
{
    reveal_strlit("nop");
    reveal_strlit("hlt");
    reveal_strlit("add");
    reveal_strlit("sub");
    reveal_strlit("nor");
    reveal_strlit("and");
    reveal_strlit("xor");
    reveal_strlit("rsh");
    reveal_strlit("ldi");
    reveal_strlit("adi");
    reveal_strlit("jmp");
    reveal_strlit("brh");
    reveal_strlit("cal");
    reveal_strlit("ret");
    reveal_strlit("lod");
    reveal_strlit("str");
    reveal_strlit("rng");
    assert("nop"@.len() == 3 && "nop"@[0] == 'n' && "nop"@[1] == 'o' && "nop"@[2] == 'p');
    assert("hlt"@.len() == 3 && "hlt"@[0] == 'h' && "hlt"@[1] == 'l' && "hlt"@[2] == 't');
    assert("add"@.len() == 3 && "add"@[0] == 'a' && "add"@[1] == 'd' && "add"@[2] == 'd');
    assert("sub"@.len() == 3 && "sub"@[0] == 's' && "sub"@[1] == 'u' && "sub"@[2] == 'b');
    assert("nor"@.len() == 3 && "nor"@[0] == 'n' && "nor"@[1] == 'o' && "nor"@[2] == 'r');
    assert("and"@.len() == 3 && "and"@[0] == 'a' && "and"@[1] == 'n' && "and"@[2] == 'd');
    assert("xor"@.len() == 3 && "xor"@[0] == 'x' && "xor"@[1] == 'o' && "xor"@[2] == 'r');
    assert("rsh"@.len() == 3 && "rsh"@[0] == 'r' && "rsh"@[1] == 's' && "rsh"@[2] == 'h');
    assert("ldi"@.len() == 3 && "ldi"@[0] == 'l' && "ldi"@[1] == 'd' && "ldi"@[2] == 'i');
    assert("adi"@.len() == 3 && "adi"@[0] == 'a' && "adi"@[1] == 'd' && "adi"@[2] == 'i');
    assert("jmp"@.len() == 3 && "jmp"@[0] == 'j' && "jmp"@[1] == 'm' && "jmp"@[2] == 'p');
    assert("brh"@.len() == 3 && "brh"@[0] == 'b' && "brh"@[1] == 'r' && "brh"@[2] == 'h');
    assert("cal"@.len() == 3 && "cal"@[0] == 'c' && "cal"@[1] == 'a' && "cal"@[2] == 'l');
    assert("ret"@.len() == 3 && "ret"@[0] == 'r' && "ret"@[1] == 'e' && "ret"@[2] == 't');
    assert("lod"@.len() == 3 && "lod"@[0] == 'l' && "lod"@[1] == 'o' && "lod"@[2] == 'd');
    assert("str"@.len() == 3 && "str"@[0] == 's' && "str"@[1] == 't' && "str"@[2] == 'r');
    assert("rng"@.len() == 3 && "rng"@[0] == 'r' && "rng"@[1] == 'n' && "rng"@[2] == 'g');
    let m0 = opcode_syms(Map::<Seq<char>, int>::empty());
    assert(m0.contains_key("nop"@) && m0["nop"@] == 0);
    assert("nop"@ != "rng"@);
    lemma_seed_keeps_mnemonic("nop"@, 0);
    assert(m0.contains_key("hlt"@) && m0["hlt"@] == 1);
    assert("hlt"@ != "rng"@);
    lemma_seed_keeps_mnemonic("hlt"@, 1);
    assert(m0.contains_key("add"@) && m0["add"@] == 2);
    assert("add"@ != "rng"@);
    lemma_seed_keeps_mnemonic("add"@, 2);
    assert(m0.contains_key("sub"@) && m0["sub"@] == 3);
    assert("sub"@ != "rng"@);
    lemma_seed_keeps_mnemonic("sub"@, 3);
    assert(m0.contains_key("nor"@) && m0["nor"@] == 4);
    assert("nor"@ != "rng"@);
    lemma_seed_keeps_mnemonic("nor"@, 4);
    assert(m0.contains_key("and"@) && m0["and"@] == 5);
    assert("and"@ != "rng"@);
    lemma_seed_keeps_mnemonic("and"@, 5);
    assert(m0.contains_key("xor"@) && m0["xor"@] == 6);
    assert("xor"@ != "rng"@);
    lemma_seed_keeps_mnemonic("xor"@, 6);
    assert(m0.contains_key("rsh"@) && m0["rsh"@] == 7);
    assert("rsh"@ != "rng"@);
    lemma_seed_keeps_mnemonic("rsh"@, 7);
    assert(m0.contains_key("ldi"@) && m0["ldi"@] == 8);
    assert("ldi"@ != "rng"@);
    lemma_seed_keeps_mnemonic("ldi"@, 8);
    assert(m0.contains_key("adi"@) && m0["adi"@] == 9);
    assert("adi"@ != "rng"@);
    lemma_seed_keeps_mnemonic("adi"@, 9);
    assert(m0.contains_key("jmp"@) && m0["jmp"@] == 10);
    assert("jmp"@ != "rng"@);
    lemma_seed_keeps_mnemonic("jmp"@, 10);
    assert(m0.contains_key("brh"@) && m0["brh"@] == 11);
    assert("brh"@ != "rng"@);
    lemma_seed_keeps_mnemonic("brh"@, 11);
    assert(m0.contains_key("cal"@) && m0["cal"@] == 12);
    assert("cal"@ != "rng"@);
    lemma_seed_keeps_mnemonic("cal"@, 12);
    assert(m0.contains_key("ret"@) && m0["ret"@] == 13);
    assert("ret"@ != "rng"@);
    lemma_seed_keeps_mnemonic("ret"@, 13);
    assert(m0.contains_key("lod"@) && m0["lod"@] == 14);
    assert("lod"@ != "rng"@);
    lemma_seed_keeps_mnemonic("lod"@, 14);
    assert(m0.contains_key("str"@) && m0["str"@] == 15);
    assert("str"@ != "rng"@);
    lemma_seed_keeps_mnemonic("str"@, 15);
}

/// The distinguishing characters of the four real mnemonics that pseudo-
/// instructions expand to, and of the seven pseudo keys.
proof fn lemma_expansion_literal_chars()
    ensures
        "cmp"@.len() == 3 && "cmp"@[0] == 'c',
        "mov"@.len() == 3 && "mov"@[0] == 'm',
        "lsh"@.len() == 3 && "lsh"@[0] == 'l',
        "inc"@.len() == 3 && "inc"@[0] == 'i',
        "dec"@.len() == 3 && "dec"@[0] == 'd',
        "not"@.len() == 3 && "not"@[0] == 'n' && "not"@[1] == 'o' && "not"@[2] == 't',
        "neg"@.len() == 3 && "neg"@[0] == 'n' && "neg"@[1] == 'e' && "neg"@[2] == 'g',
        "add"@.len() == 3 && "add"@[0] == 'a',
        "sub"@.len() == 3 && "sub"@[0] == 's',
        "adi"@.len() == 3 && "adi"@[0] == 'a',
        "nor"@.len() == 3 && "nor"@[0] == 'n' && "nor"@[1] == 'o' && "nor"@[2] == 'r',
{
    reveal_strlit("cmp");
    reveal_strlit("mov");
    reveal_strlit("lsh");
    reveal_strlit("inc");
    reveal_strlit("dec");
    reveal_strlit("not");
    reveal_strlit("neg");
    reveal_strlit("add");
    reveal_strlit("sub");
    reveal_strlit("adi");
    reveal_strlit("nor");
}

/// A real mnemonic passes through the expansion table unchanged.
proof fn lemma_expand_fixes_real(toks: Seq<Seq<char>>)
    requires
        toks.len() > 0,
        toks[0] == "add"@ || toks[0] == "sub"@ || toks[0] == "adi"@ || toks[0] == "nor"@,
    ensures
        expand_pseudo(toks) == toks,
{
    lemma_expansion_literal_chars();
}

/// Law: each of the seven pseudo-instructions is rewritten to its table
/// entry and encodes exactly as that hand-written instruction, whatever
/// the operands and the table. Expansion is a function of the tokens alone.
pub proof fn lemma_pseudo_encodes_as_expansion(
    m: Map<Seq<char>, int>,
    a: Seq<char>,
    b: Seq<char>,
)
    ensures
        expand_pseudo(seq!["cmp"@, a, b]) == seq!["sub"@, a, b, "r0"@],
        expand_pseudo(seq!["mov"@, a, b]) == seq!["add"@, a, "r0"@, b],
        expand_pseudo(seq!["lsh"@, a, b]) == seq!["add"@, a, a, b],
        expand_pseudo(seq!["inc"@, a]) == seq!["adi"@, a, "1"@],
        expand_pseudo(seq!["dec"@, a]) == seq!["adi"@, a, "-1"@],
        expand_pseudo(seq!["not"@, a, b]) == seq!["nor"@, a, "r0"@, b],
        expand_pseudo(seq!["neg"@, a, b]) == seq!["sub"@, "r0"@, a, b],
        encode_instruction(m, seq!["cmp"@, a, b]) == encode_instruction(
            m,
            seq!["sub"@, a, b, "r0"@],
        ),
        encode_instruction(m, seq!["mov"@, a, b]) == encode_instruction(
            m,
            seq!["add"@, a, "r0"@, b],
        ),
        encode_instruction(m, seq!["lsh"@, a, b]) == encode_instruction(m, seq!["add"@, a, a, b]),
        encode_instruction(m, seq!["inc"@, a]) == encode_instruction(m, seq!["adi"@, a, "1"@]),
        encode_instruction(m, seq!["dec"@, a]) == encode_instruction(m, seq!["adi"@, a, "-1"@]),
        encode_instruction(m, seq!["not"@, a, b]) == encode_instruction(
            m,
            seq!["nor"@, a, "r0"@, b],
        ),
        encode_instruction(m, seq!["neg"@, a, b]) == encode_instruction(
            m,
            seq!["sub"@, "r0"@, a, b],
        ),
{
    lemma_expansion_literal_chars();
    assert(expand_pseudo(seq!["cmp"@, a, b]) =~= seq!["sub"@, a, b, "r0"@]);
    assert(expand_pseudo(seq!["mov"@, a, b]) =~= seq!["add"@, a, "r0"@, b]);
    assert(expand_pseudo(seq!["lsh"@, a, b]) =~= seq!["add"@, a, a, b]);
    assert(expand_pseudo(seq!["inc"@, a]) =~= seq!["adi"@, a, "1"@]);
    assert(expand_pseudo(seq!["dec"@, a]) =~= seq!["adi"@, a, "-1"@]);
    assert(expand_pseudo(seq!["not"@, a, b]) =~= seq!["nor"@, a, "r0"@, b]);
    assert(expand_pseudo(seq!["neg"@, a, b]) =~= seq!["sub"@, "r0"@, a, b]);
    lemma_expand_fixes_real(seq!["sub"@, a, b, "r0"@]);
    lemma_expand_fixes_real(seq!["add"@, a, "r0"@, b]);
    lemma_expand_fixes_real(seq!["add"@, a, a, b]);
    lemma_expand_fixes_real(seq!["adi"@, a, "1"@]);
    lemma_expand_fixes_real(seq!["adi"@, a, "-1"@]);
    lemma_expand_fixes_real(seq!["nor"@, a, "r0"@, b]);
    lemma_expand_fixes_real(seq!["sub"@, "r0"@, a, b]);
    assert(prepare_tokens(seq!["cmp"@, a, b]) == prepare_tokens(seq!["sub"@, a, b, "r0"@]));
    assert(prepare_tokens(seq!["mov"@, a, b]) == prepare_tokens(seq!["add"@, a, "r0"@, b]));
    assert(prepare_tokens(seq!["lsh"@, a, b]) == prepare_tokens(seq!["add"@, a, a, b]));
    assert(prepare_tokens(seq!["inc"@, a]) == prepare_tokens(seq!["adi"@, a, "1"@]));
    assert(prepare_tokens(seq!["dec"@, a]) == prepare_tokens(seq!["adi"@, a, "-1"@]));
    assert(prepare_tokens(seq!["not"@, a, b]) == prepare_tokens(seq!["nor"@, a, "r0"@, b]));
    assert(prepare_tokens(seq!["neg"@, a, b]) == prepare_tokens(seq!["sub"@, "r0"@, a, b]));
}

proof fn lemma_pass2_shape(m: Map<Seq<char>, int>, instrs: Seq<SpecInstruction>)
    ensures
        pass2_from(m, instrs) matches Ok(ws) ==> ws.len() == instrs.len() && forall|k: int|
            0 <= k < ws.len() ==> (#[trigger] ws[k]).len() == 16,
    decreases instrs.len(),
{
    if instrs.len() > 0 {
        match encode_instruction(m, instrs[0].toks) {
            Ok(w) => {
                lemma_pass2_shape(m, instrs.drop_first());
                match pass2_from(m, instrs.drop_first()) {
                    Ok(ws) => {
                        lemma_bin_digits_len(w, 16);
                        let full = seq![bin16(w)] + ws;
                        assert(forall|k: int| 1 <= k < full.len() ==> full[k] == ws[k - 1]);
                    },
                    Err(_) => {},
                }
            },
            Err(_) => {},
        }
    }
}

/// Law: on success the assembler emits exactly one word per queued
/// instruction, each rendered as 16 binary digits; the word list's index is
/// the memory address.
pub proof fn lemma_one_word_per_instruction(lines: Seq<Seq<char>>)
    ensures
        spec_assemble(lines) matches Ok(ws) ==> ws.len() == pass1(clean_lines(lines)).2.len()
            && forall|k: int| 0 <= k < ws.len() ==> (#[trigger] ws[k]).len() == 16,
{
    let p1 = pass1(clean_lines(lines));
    lemma_pass2_shape(p1.0, p1.2);
}

/// Does this normalized line bind `name` in the symbol table: a well-formed
/// `define` of it, or a label naming it?
pub open spec fn line_binds(text: Seq<char>, name: Seq<char>) -> bool {
    let toks = tokenize(text);
    ||| (toks.len() >= 3 && toks[0] == "define"@ && toks[1] == name && parse_define_value(toks[2])
        is Some)
    ||| (toks.len() > 0 && toks[0] == name && name.len() > 0 && name[0] == '.')
}

/// Does this normalized line define `name` as `v`?
pub open spec fn line_defines(text: Seq<char>, name: Seq<char>, v: int) -> bool {
    let toks = tokenize(text);
    toks.len() >= 3 && toks[0] == "define"@ && toks[1] == name && parse_define_value(toks[2])
        == Some(v)
}

/// Does this normalized line begin with the label `name`?
pub open spec fn line_labels(text: Seq<char>, name: Seq<char>) -> bool {
    let toks = tokenize(text);
    toks.len() > 0 && toks[0] == name && name.len() > 0 && name[0] == '.'
}

/// How many instructions (program-counter slots) one normalized line takes.
pub open spec fn line_instr(text: Seq<char>) -> int {
    let toks = tokenize(text);
    if toks.len() == 0 {
        0
    } else if toks[0] == "define"@ {
        0
    } else if toks[0][0] == '.' {
        if toks.len() > 1 {
            1
        } else {
            0
        }
    } else {
        1
    }
}

/// How many instructions the normalized lines hold.
pub open spec fn instr_count(cleaned: Seq<(int, Seq<char>)>) -> int
    decreases cleaned.len(),
{
    if cleaned.len() == 0 {
        0
    } else {
        line_instr(cleaned[0].1) + instr_count(cleaned.drop_first())
    }
}

/// Lines that bind nothing onto `name` leave its value alone.
proof fn lemma_pass1_preserves_binding(
    cleaned: Seq<(int, Seq<char>)>,
    m: Map<Seq<char>, int>,
    pc: int,
    acc: Seq<SpecInstruction>,
    name: Seq<char>,
)
    requires
        m.contains_key(name),
        forall|k: int| 0 <= k < cleaned.len() ==> !line_binds((#[trigger] cleaned[k]).1, name),
    ensures
        pass1_from(cleaned, m, pc, acc).0.contains_key(name),
        pass1_from(cleaned, m, pc, acc).0[name] == m[name],
    decreases cleaned.len(),
{
    if cleaned.len() > 0 {
        let text = cleaned[0].1;
        let toks = tokenize(text);
        let rest = cleaned.drop_first();
        crate::tokens::lemma_tokenize_tokens_nonempty(text);
        assert(!line_binds(text, name));
        assert(forall|k: int| 0 <= k < rest.len() ==> (#[trigger] rest[k]) == cleaned[k + 1]);
        if toks.len() == 0 {
            lemma_pass1_preserves_binding(rest, m, pc, acc, name);
        } else if toks[0] == "define"@ {
            if toks.len() >= 3 {
                match parse_define_value(toks[2]) {
                    Some(v) => {
                        assert(toks[1] != name);
                        lemma_pass1_preserves_binding(
                            rest,
                            m.insert(toks[1], v),
                            pc,
                            acc,
                            name,
                        );
                    },
                    None => {
                        lemma_pass1_preserves_binding(rest, m, pc, acc, name);
                    },
                }
            } else {
                lemma_pass1_preserves_binding(rest, m, pc, acc, name);
            }
        } else if toks[0][0] == '.' {
            assert(toks[0] != name);
            let m2 = m.insert(toks[0], pc);
            if toks.len() > 1 {
                lemma_pass1_preserves_binding(
                    rest,
                    m2,
                    pc + 1,
                    acc.push(SpecInstruction { line: cleaned[0].0, text, toks: toks.drop_first() }),
                    name,
                );
            } else {
                lemma_pass1_preserves_binding(rest, m2, pc, acc, name);
            }
        } else {
            lemma_pass1_preserves_binding(
                rest,
                m,
                pc + 1,
                acc.push(SpecInstruction { line: cleaned[0].0, text, toks }),
                name,
            );
        }
    }
}

proof fn lemma_pass1_from_define(
    cleaned: Seq<(int, Seq<char>)>,
    m: Map<Seq<char>, int>,
    pc: int,
    acc: Seq<SpecInstruction>,
    j: int,
    name: Seq<char>,
    v: int,
)
    requires
        0 <= j < cleaned.len(),
        line_defines(cleaned[j].1, name, v),
        forall|k: int| j < k < cleaned.len() ==> !line_binds((#[trigger] cleaned[k]).1, name),
    ensures
        pass1_from(cleaned, m, pc, acc).0.contains_key(name),
        pass1_from(cleaned, m, pc, acc).0[name] == v,
    decreases j,
{
    let text = cleaned[0].1;
    let toks = tokenize(text);
    let rest = cleaned.drop_first();
    crate::tokens::lemma_tokenize_tokens_nonempty(text);
    assert(forall|k: int| 0 <= k < rest.len() ==> (#[trigger] rest[k]) == cleaned[k + 1]);
    if j == 0 {
        assert(toks.len() >= 3 && toks[0] == "define"@ && toks[1] == name);
        let m2 = m.insert(name, v);
        assert(m2.contains_key(name) && m2[name] == v);
        lemma_pass1_preserves_binding(rest, m2, pc, acc, name);
    } else {
        if toks.len() == 0 {
            lemma_pass1_from_define(rest, m, pc, acc, j - 1, name, v);
        } else if toks[0] == "define"@ {
            if toks.len() >= 3 {
                match parse_define_value(toks[2]) {
                    Some(u) => {
                        lemma_pass1_from_define(
                            rest,
                            m.insert(toks[1], u),
                            pc,
                            acc,
                            j - 1,
                            name,
                            v,
                        );
                    },
                    None => {
                        lemma_pass1_from_define(rest, m, pc, acc, j - 1, name, v);
                    },
                }
            } else {
                lemma_pass1_from_define(rest, m, pc, acc, j - 1, name, v);
            }
        } else if toks[0][0] == '.' {
            let m2 = m.insert(toks[0], pc);
            if toks.len() > 1 {
                lemma_pass1_from_define(
                    rest,
                    m2,
                    pc + 1,
                    acc.push(SpecInstruction { line: cleaned[0].0, text, toks: toks.drop_first() }),
                    j - 1,
                    name,
                    v,
                );
            } else {
                lemma_pass1_from_define(rest, m2, pc, acc, j - 1, name, v);
            }
        } else {
            lemma_pass1_from_define(
                rest,
                m,
                pc + 1,
                acc.push(SpecInstruction { line: cleaned[0].0, text, toks }),
                j - 1,
                name,
                v,
            );
        }
    }
}

/// Law: a `define` of a name decides its value for the whole run, and the
/// last `define` (or label) of that name wins: if line `j` defines `name`
/// as `v` and no later line binds `name` again, the finished table maps
/// `name` to `v`, so every token spelling `name` resolves to `v` in pass 2.
pub proof fn lemma_define_last_write_wins(
    cleaned: Seq<(int, Seq<char>)>,
    j: int,
    name: Seq<char>,
    v: int,
)
    requires
        0 <= j < cleaned.len(),
        line_defines(cleaned[j].1, name, v),
        forall|k: int| j < k < cleaned.len() ==> !line_binds((#[trigger] cleaned[k]).1, name),
        !is_numeric_token(name),
    ensures
        pass1(cleaned).0.contains_key(name),
        pass1(cleaned).0[name] == v,
        spec_resolve(pass1(cleaned).0, name) == Ok::<int, ResolveError>(v),
{
    lemma_pass1_from_define(cleaned, seed_map(), 0, Seq::empty(), j, name, v);
}

proof fn lemma_pass1_from_label(
    cleaned: Seq<(int, Seq<char>)>,
    m: Map<Seq<char>, int>,
    pc: int,
    acc: Seq<SpecInstruction>,
    j: int,
    name: Seq<char>,
)
    requires
        0 <= j < cleaned.len(),
        line_labels(cleaned[j].1, name),
        forall|k: int| j < k < cleaned.len() ==> !line_binds((#[trigger] cleaned[k]).1, name),
    ensures
        pass1_from(cleaned, m, pc, acc).0.contains_key(name),
        pass1_from(cleaned, m, pc, acc).0[name] == pc + instr_count(cleaned.take(j)),
    decreases j,
{
    reveal_strlit("define");
    let text = cleaned[0].1;
    let toks = tokenize(text);
    let rest = cleaned.drop_first();
    crate::tokens::lemma_tokenize_tokens_nonempty(text);
    assert(forall|k: int| 0 <= k < rest.len() ==> (#[trigger] rest[k]) == cleaned[k + 1]);
    if j == 0 {
        assert(toks.len() > 0 && toks[0] == name && name[0] == '.');
        assert(toks[0] != "define"@) by {
            assert("define"@[0] == 'd');
        }
        let m2 = m.insert(name, pc);
        assert(m2.contains_key(name) && m2[name] == pc);
        assert(cleaned.take(0) =~= Seq::<(int, Seq<char>)>::empty());
        if toks.len() > 1 {
            lemma_pass1_preserves_binding(
                rest,
                m2,
                pc + 1,
                acc.push(SpecInstruction { line: cleaned[0].0, text, toks: toks.drop_first() }),
                name,
            );
        } else {
            lemma_pass1_preserves_binding(rest, m2, pc, acc, name);
        }
    } else {
        assert(cleaned.take(j)[0] == cleaned[0]);
        assert(cleaned.take(j).drop_first() =~= rest.take(j - 1));
        assert(instr_count(cleaned.take(j)) == line_instr(text) + instr_count(rest.take(j - 1)));
        if toks.len() == 0 {
            lemma_pass1_from_label(rest, m, pc, acc, j - 1, name);
        } else if toks[0] == "define"@ {
            assert(line_instr(text) == 0);
            if toks.len() >= 3 {
                match parse_define_value(toks[2]) {
                    Some(u) => {
                        lemma_pass1_from_label(
                            rest,
                            m.insert(toks[1], u),
                            pc,
                            acc,
                            j - 1,
                            name,
                        );
                    },
                    None => {
                        lemma_pass1_from_label(rest, m, pc, acc, j - 1, name);
                    },
                }
            } else {
                lemma_pass1_from_label(rest, m, pc, acc, j - 1, name);
            }
        } else if toks[0][0] == '.' {
            let m2 = m.insert(toks[0], pc);
            if toks.len() > 1 {
                assert(line_instr(text) == 1);
                lemma_pass1_from_label(
                    rest,
                    m2,
                    pc + 1,
                    acc.push(SpecInstruction { line: cleaned[0].0, text, toks: toks.drop_first() }),
                    j - 1,
                    name,
                );
            } else {
                assert(line_instr(text) == 0);
                lemma_pass1_from_label(rest, m2, pc, acc, j - 1, name);
            }
        } else {
            assert(line_instr(text) == 1);
            lemma_pass1_from_label(
                rest,
                m,
                pc + 1,
                acc.push(SpecInstruction { line: cleaned[0].0, text, toks }),
                j - 1,
                name,
            );
        }
    }
}

/// Law: a label stands for the program counter of the line it is written
/// on: the number of instructions above it. Because the whole table is
/// built before pass 2 resolves anything, a reference from an instruction
/// before the label's own line (a forward reference) resolves to exactly
/// that counter, like any other.
pub proof fn lemma_label_forward_reference(
    cleaned: Seq<(int, Seq<char>)>,
    j: int,
    name: Seq<char>,
)
    requires
        0 <= j < cleaned.len(),
        line_labels(cleaned[j].1, name),
        forall|k: int| j < k < cleaned.len() ==> !line_binds((#[trigger] cleaned[k]).1, name),
    ensures
        pass1(cleaned).0.contains_key(name),
        pass1(cleaned).0[name] == instr_count(cleaned.take(j)),
        spec_resolve(pass1(cleaned).0, name) == Ok::<int, ResolveError>(
            instr_count(cleaned.take(j)),
        ),
{
    lemma_pass1_from_label(cleaned, seed_map(), 0, Seq::empty(), j, name);
    assert(!is_numeric_token(name));
}

} // verus!
