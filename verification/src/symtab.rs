//! The symbol table: a last-write-wins mapping from case-folded names to
//! 32-bit signed values, seeded with the fixed surface of opcode mnemonics,
//! register names, condition-code aliases, I/O port names and quoted
//! single-character literals, and extended by `define` directives and labels.

use vstd::prelude::*;
use crate::chars::is_ascii_digit;
use crate::numbers::{parse_i32_radix, parse_int_str};

verus! {

pub struct SymbolTable {
    entries: Vec<(String, i32)>,
}

/// The mapping a list of entries denotes: later entries overwrite earlier ones.
pub open spec fn entries_map(es: Seq<(String, i32)>) -> Map<Seq<char>, int>
    decreases es.len(),
{
    if es.len() == 0 {
        Map::empty()
    } else {
        entries_map(es.drop_last()).insert(es.last().0@, es.last().1 as int)
    }
}

impl View for SymbolTable {
    type V = Map<Seq<char>, int>;

    closed spec fn view(&self) -> Map<Seq<char>, int> {
        entries_map(self.entries@)
    }
}

/// A key that no entry of the suffix `es[i..]` names keeps the value it has
/// under the prefix alone.
proof fn lemma_entries_map_absent_suffix(es: Seq<(String, i32)>, k: Seq<char>, i: int)
    requires
        0 <= i <= es.len(),
        forall|j: int| i <= j < es.len() ==> (#[trigger] es[j]).0@ != k,
    ensures
        entries_map(es).contains_key(k) == entries_map(es.take(i)).contains_key(k),
        entries_map(es).contains_key(k)
            ==> entries_map(es)[k] == entries_map(es.take(i))[k],
    decreases es.len(),
{
    if i == es.len() {
        assert(es.take(i) =~= es);
    } else {
        assert(es.last().0@ != k);
        lemma_entries_map_absent_suffix(es.drop_last(), k, i);
        assert(es.drop_last().take(i) =~= es.take(i));
    }
}

impl SymbolTable {
    /// An empty table.
    pub fn new() -> (r: Self)
        ensures
            r@ == Map::<Seq<char>, int>::empty(),
    {
        SymbolTable { entries: Vec::new() }
    }

    /// Insert or overwrite: the newest binding of a name wins.
    pub fn set(&mut self, name: String, value: i32)
        ensures
            final(self)@ == old(self)@.insert(name@, value as int),
    {
        self.entries.push((name, value));
        proof {
            assert(self.entries@.drop_last() =~= old(self).entries@);
        }
    }

    /// Look a name up; the latest binding is returned.
    pub fn get(&self, name: &String) -> (r: Option<i32>)
        ensures
            match r {
                Some(v) => self@.contains_key(name@) && self@[name@] == v as int,
                None => !self@.contains_key(name@),
            },
    {
        let n = self.entries.len();
        let mut i: usize = n;
        while i > 0
            invariant
                n == self.entries@.len(),
                0 <= i <= n,
                forall|j: int| i <= j < n ==> (#[trigger] self.entries@[j]).0@ != name@,
            decreases i,
        {
            i = i - 1;
            if self.entries[i].0.eq(name) {
                proof {
                    let es = self.entries@;
                    lemma_entries_map_absent_suffix(es, name@, i + 1);
                    assert(es.take(i + 1).drop_last() =~= es.take(i as int));
                    assert(es.take(i + 1).last() == es[i as int]);
                }
                return Some(self.entries[i].1);
            }
        }
        proof {
            lemma_entries_map_absent_suffix(self.entries@, name@, 0);
            assert(self.entries@.take(0) =~= Seq::<(String, i32)>::empty());
        }
        None
    }
}

/// The 16 opcode mnemonics, with their opcode numbers.
pub open spec fn opcode_syms(m: Map<Seq<char>, int>) -> Map<Seq<char>, int> {
    m.insert("nop"@, 0)
        .insert("hlt"@, 1)
        .insert("add"@, 2)
        .insert("sub"@, 3)
        .insert("nor"@, 4)
        .insert("and"@, 5)
        .insert("xor"@, 6)
        .insert("rsh"@, 7)
        .insert("ldi"@, 8)
        .insert("adi"@, 9)
        .insert("jmp"@, 10)
        .insert("brh"@, 11)
        .insert("cal"@, 12)
        .insert("ret"@, 13)
        .insert("lod"@, 14)
        .insert("str"@, 15)
}

/// The 16 register names `r0` .. `r15`, valued by index.
pub open spec fn register_syms(m: Map<Seq<char>, int>) -> Map<Seq<char>, int> {
    m.insert("r0"@, 0)
        .insert("r1"@, 1)
        .insert("r2"@, 2)
        .insert("r3"@, 3)
        .insert("r4"@, 4)
        .insert("r5"@, 5)
        .insert("r6"@, 6)
        .insert("r7"@, 7)
        .insert("r8"@, 8)
        .insert("r9"@, 9)
        .insert("r10"@, 10)
        .insert("r11"@, 11)
        .insert("r12"@, 12)
        .insert("r13"@, 13)
        .insert("r14"@, 14)
        .insert("r15"@, 15)
}

/// The four groups of condition-code aliases, each valued 0..=3.
pub open spec fn cond_syms(m: Map<Seq<char>, int>) -> Map<Seq<char>, int> {
    m.insert("eq"@, 0)
        .insert("ne"@, 1)
        .insert("ge"@, 2)
        .insert("lt"@, 3)
        .insert("="@, 0)
        .insert("!="@, 1)
        .insert(">="@, 2)
        .insert("<"@, 3)
        .insert("z"@, 0)
        .insert("nz"@, 1)
        .insert("c"@, 2)
        .insert("nc"@, 3)
        .insert("zero"@, 0)
        .insert("notzero"@, 1)
        .insert("carry"@, 2)
        .insert("notcarry"@, 3)
}

/// The 16 I/O port names, valued 240..=255.
pub open spec fn port_syms(m: Map<Seq<char>, int>) -> Map<Seq<char>, int> {
    m.insert("pixel_x"@, 240)
        .insert("pixel_y"@, 241)
        .insert("draw_pixel"@, 242)
        .insert("clear_pixel"@, 243)
        .insert("load_pixel"@, 244)
        .insert("buffer_screen"@, 245)
        .insert("clear_screen_buffer"@, 246)
        .insert("write_char"@, 247)
        .insert("buffer_chars"@, 248)
        .insert("clear_chars_buffer"@, 249)
        .insert("show_number"@, 250)
        .insert("clear_number"@, 251)
        .insert("signed_mode"@, 252)
        .insert("unsigned_mode"@, 253)
        .insert("rng"@, 254)
        .insert("controller_input"@, 255)
}

/// Quoted single-character literals over the fixed alphabet
/// ` abcdefghijklmnopqrstuvwxyz.!?`, valued by position, in either quote
/// style.
pub open spec fn char_syms(m: Map<Seq<char>, int>) -> Map<Seq<char>, int> {
    m
        .insert("\" \""@, 0)
        .insert("' '"@, 0)
        .insert("\"a\""@, 1)
        .insert("'a'"@, 1)
        .insert("\"b\""@, 2)
        .insert("'b'"@, 2)
        .insert("\"c\""@, 3)
        .insert("'c'"@, 3)
        .insert("\"d\""@, 4)
        .insert("'d'"@, 4)
        .insert("\"e\""@, 5)
        .insert("'e'"@, 5)
        .insert("\"f\""@, 6)
        .insert("'f'"@, 6)
        .insert("\"g\""@, 7)
        .insert("'g'"@, 7)
        .insert("\"h\""@, 8)
        .insert("'h'"@, 8)
        .insert("\"i\""@, 9)
        .insert("'i'"@, 9)
        .insert("\"j\""@, 10)
        .insert("'j'"@, 10)
        .insert("\"k\""@, 11)
        .insert("'k'"@, 11)
        .insert("\"l\""@, 12)
        .insert("'l'"@, 12)
        .insert("\"m\""@, 13)
        .insert("'m'"@, 13)
        .insert("\"n\""@, 14)
        .insert("'n'"@, 14)
        .insert("\"o\""@, 15)
        .insert("'o'"@, 15)
        .insert("\"p\""@, 16)
        .insert("'p'"@, 16)
        .insert("\"q\""@, 17)
        .insert("'q'"@, 17)
        .insert("\"r\""@, 18)
        .insert("'r'"@, 18)
        .insert("\"s\""@, 19)
        .insert("'s'"@, 19)
        .insert("\"t\""@, 20)
        .insert("'t'"@, 20)
        .insert("\"u\""@, 21)
        .insert("'u'"@, 21)
        .insert("\"v\""@, 22)
        .insert("'v'"@, 22)
        .insert("\"w\""@, 23)
        .insert("'w'"@, 23)
        .insert("\"x\""@, 24)
        .insert("'x'"@, 24)
        .insert("\"y\""@, 25)
        .insert("'y'"@, 25)
        .insert("\"z\""@, 26)
        .insert("'z'"@, 26)
        .insert("\".\""@, 27)
        .insert("'.'"@, 27)
        .insert("\"!\""@, 28)
        .insert("'!'"@, 28)
        .insert("\"?\""@, 29)
        .insert("'?'"@, 29)
}

/// Every name the symbol table holds before the user's own definitions and
/// labels are added.
pub open spec fn seed_map() -> Map<Seq<char>, int> {
    char_syms(port_syms(cond_syms(register_syms(opcode_syms(Map::empty())))))
}

fn add_opcode_syms(t: &mut SymbolTable)
    ensures
        final(t)@ == opcode_syms(old(t)@),
{
    t.set(String::from_str("nop"), 0);
    t.set(String::from_str("hlt"), 1);
    t.set(String::from_str("add"), 2);
    t.set(String::from_str("sub"), 3);
    t.set(String::from_str("nor"), 4);
    t.set(String::from_str("and"), 5);
    t.set(String::from_str("xor"), 6);
    t.set(String::from_str("rsh"), 7);
    t.set(String::from_str("ldi"), 8);
    t.set(String::from_str("adi"), 9);
    t.set(String::from_str("jmp"), 10);
    t.set(String::from_str("brh"), 11);
    t.set(String::from_str("cal"), 12);
    t.set(String::from_str("ret"), 13);
    t.set(String::from_str("lod"), 14);
    t.set(String::from_str("str"), 15);
}

fn add_register_syms(t: &mut SymbolTable)
    ensures
        final(t)@ == register_syms(old(t)@),
{
    t.set(String::from_str("r0"), 0);
    t.set(String::from_str("r1"), 1);
    t.set(String::from_str("r2"), 2);
    t.set(String::from_str("r3"), 3);
    t.set(String::from_str("r4"), 4);
    t.set(String::from_str("r5"), 5);
    t.set(String::from_str("r6"), 6);
    t.set(String::from_str("r7"), 7);
    t.set(String::from_str("r8"), 8);
    t.set(String::from_str("r9"), 9);
    t.set(String::from_str("r10"), 10);
    t.set(String::from_str("r11"), 11);
    t.set(String::from_str("r12"), 12);
    t.set(String::from_str("r13"), 13);
    t.set(String::from_str("r14"), 14);
    t.set(String::from_str("r15"), 15);
}

fn add_cond_syms(t: &mut SymbolTable)
    ensures
        final(t)@ == cond_syms(old(t)@),
{
    t.set(String::from_str("eq"), 0);
    t.set(String::from_str("ne"), 1);
    t.set(String::from_str("ge"), 2);
    t.set(String::from_str("lt"), 3);
    t.set(String::from_str("="), 0);
    t.set(String::from_str("!="), 1);
    t.set(String::from_str(">="), 2);
    t.set(String::from_str("<"), 3);
    t.set(String::from_str("z"), 0);
    t.set(String::from_str("nz"), 1);
    t.set(String::from_str("c"), 2);
    t.set(String::from_str("nc"), 3);
    t.set(String::from_str("zero"), 0);
    t.set(String::from_str("notzero"), 1);
    t.set(String::from_str("carry"), 2);
    t.set(String::from_str("notcarry"), 3);
}

fn add_port_syms(t: &mut SymbolTable)
    ensures
        final(t)@ == port_syms(old(t)@),
{
    t.set(String::from_str("pixel_x"), 240);
    t.set(String::from_str("pixel_y"), 241);
    t.set(String::from_str("draw_pixel"), 242);
    t.set(String::from_str("clear_pixel"), 243);
    t.set(String::from_str("load_pixel"), 244);
    t.set(String::from_str("buffer_screen"), 245);
    t.set(String::from_str("clear_screen_buffer"), 246);
    t.set(String::from_str("write_char"), 247);
    t.set(String::from_str("buffer_chars"), 248);
    t.set(String::from_str("clear_chars_buffer"), 249);
    t.set(String::from_str("show_number"), 250);
    t.set(String::from_str("clear_number"), 251);
    t.set(String::from_str("signed_mode"), 252);
    t.set(String::from_str("unsigned_mode"), 253);
    t.set(String::from_str("rng"), 254);
    t.set(String::from_str("controller_input"), 255);
}

fn add_char_syms(t: &mut SymbolTable)
    ensures
        final(t)@ == char_syms(old(t)@),
{
    t.set(String::from_str("\" \""), 0);
    t.set(String::from_str("' '"), 0);
    t.set(String::from_str("\"a\""), 1);
    t.set(String::from_str("'a'"), 1);
    t.set(String::from_str("\"b\""), 2);
    t.set(String::from_str("'b'"), 2);
    t.set(String::from_str("\"c\""), 3);
    t.set(String::from_str("'c'"), 3);
    t.set(String::from_str("\"d\""), 4);
    t.set(String::from_str("'d'"), 4);
    t.set(String::from_str("\"e\""), 5);
    t.set(String::from_str("'e'"), 5);
    t.set(String::from_str("\"f\""), 6);
    t.set(String::from_str("'f'"), 6);
    t.set(String::from_str("\"g\""), 7);
    t.set(String::from_str("'g'"), 7);
    t.set(String::from_str("\"h\""), 8);
    t.set(String::from_str("'h'"), 8);
    t.set(String::from_str("\"i\""), 9);
    t.set(String::from_str("'i'"), 9);
    t.set(String::from_str("\"j\""), 10);
    t.set(String::from_str("'j'"), 10);
    t.set(String::from_str("\"k\""), 11);
    t.set(String::from_str("'k'"), 11);
    t.set(String::from_str("\"l\""), 12);
    t.set(String::from_str("'l'"), 12);
    t.set(String::from_str("\"m\""), 13);
    t.set(String::from_str("'m'"), 13);
    t.set(String::from_str("\"n\""), 14);
    t.set(String::from_str("'n'"), 14);
    t.set(String::from_str("\"o\""), 15);
    t.set(String::from_str("'o'"), 15);
    t.set(String::from_str("\"p\""), 16);
    t.set(String::from_str("'p'"), 16);
    t.set(String::from_str("\"q\""), 17);
    t.set(String::from_str("'q'"), 17);
    t.set(String::from_str("\"r\""), 18);
    t.set(String::from_str("'r'"), 18);
    t.set(String::from_str("\"s\""), 19);
    t.set(String::from_str("'s'"), 19);
    t.set(String::from_str("\"t\""), 20);
    t.set(String::from_str("'t'"), 20);
    t.set(String::from_str("\"u\""), 21);
    t.set(String::from_str("'u'"), 21);
    t.set(String::from_str("\"v\""), 22);
    t.set(String::from_str("'v'"), 22);
    t.set(String::from_str("\"w\""), 23);
    t.set(String::from_str("'w'"), 23);
    t.set(String::from_str("\"x\""), 24);
    t.set(String::from_str("'x'"), 24);
    t.set(String::from_str("\"y\""), 25);
    t.set(String::from_str("'y'"), 25);
    t.set(String::from_str("\"z\""), 26);
    t.set(String::from_str("'z'"), 26);
    t.set(String::from_str("\".\""), 27);
    t.set(String::from_str("'.'"), 27);
    t.set(String::from_str("\"!\""), 28);
    t.set(String::from_str("'!'"), 28);
    t.set(String::from_str("\"?\""), 29);
    t.set(String::from_str("'?'"), 29);
}

/// Why one token failed to resolve.
#[derive(Clone, Copy, Debug, PartialEq, Eq, Structural)]
pub enum ResolveError {
    UnresolvedSymbol,
    NumberParseFailure,
}

/// Tokens read as numbers: they begin with a minus sign or a digit.
pub open spec fn is_numeric_token(t: Seq<char>) -> bool {
    t.len() > 0 && (t[0] == '-' || is_ascii_digit(t[0]))
}

/// The radix a numeric token is read in: `0x` means 16, `0b` means 2,
/// anything else means 10.
pub open spec fn token_radix(t: Seq<char>) -> int {
    if t.len() >= 2 && t[0] == '0' && t[1] == 'x' {
        16
    } else if t.len() >= 2 && t[0] == '0' && t[1] == 'b' {
        2
    } else {
        10
    }
}

/// The digits of a numeric token: the token with its radix prefix removed.
pub open spec fn numeral_body(t: Seq<char>) -> Seq<char> {
    if token_radix(t) == 10 {
        t
    } else {
        t.skip(2)
    }
}

/// The single resolution primitive: a token starting with a minus sign or a
/// digit is a numeric literal; anything else is looked up in the table.
pub open spec fn spec_resolve(m: Map<Seq<char>, int>, t: Seq<char>) -> Result<int, ResolveError> {
    if is_numeric_token(t) {
        match parse_i32_radix(numeral_body(t), token_radix(t)) {
            Some(v) => Ok(v),
            None => Err(ResolveError::NumberParseFailure),
        }
    } else if m.contains_key(t) {
        Ok(m[t])
    } else {
        Err(ResolveError::UnresolvedSymbol)
    }
}

pub open spec fn resolve_matches(r: Result<i32, ResolveError>, s: Result<int, ResolveError>) -> bool {
    match r {
        Ok(v) => s == Ok::<int, ResolveError>(v as int),
        Err(e) => s == Err::<int, ResolveError>(e),
    }
}

/// Does `t` contain the characters `0x` anywhere?
pub open spec fn contains_hex_marker(t: Seq<char>) -> bool {
    exists|i: int| 0 <= i && i + 2 <= t.len() && #[trigger] t[i] == '0' && t[i + 1] == 'x'
}

/// `t` with a leading `0x` removed, if it has one.
pub open spec fn strip_hex_prefix(t: Seq<char>) -> Seq<char> {
    if t.len() >= 2 && t[0] == '0' && t[1] == 'x' {
        t.skip(2)
    } else {
        t
    }
}

/// The value of a `define` directive's value token: base 16 when the token
/// contains `0x` anywhere, base 10 otherwise. `None` when malformed, in
/// which case the directive is silently ignored.
pub open spec fn parse_define_value(t: Seq<char>) -> Option<int> {
    if contains_hex_marker(t) {
        parse_i32_radix(strip_hex_prefix(t), 16)
    } else {
        parse_i32_radix(t, 10)
    }
}

impl SymbolTable {
    /// Resolve one token to its integer value.
    pub fn resolve(&self, t: &String) -> (r: Result<i32, ResolveError>)
        ensures
            resolve_matches(r, spec_resolve(self@, t@)),
    {
        let s = t.as_str();
        let n = s.unicode_len();
        if n > 0 {
            let c0 = s.get_char(0);
            if c0 == '-' || ('0' <= c0 && c0 <= '9') {
                let (radix, start): (u32, usize) = if n >= 2 && c0 == '0' {
                    let c1 = s.get_char(1);
                    if c1 == 'x' {
                        (16, 2)
                    } else if c1 == 'b' {
                        (2, 2)
                    } else {
                        (10, 0)
                    }
                } else {
                    (10, 0)
                };
                assert(radix as int == token_radix(t@));
                let body = s.substring_char(start, n);
                assert(body@ =~= numeral_body(t@));
                match parse_int_str(body, radix) {
                    Some(v) => Ok(v),
                    None => Err(ResolveError::NumberParseFailure),
                }
            } else {
                match self.get(t) {
                    Some(v) => Ok(v),
                    None => Err(ResolveError::UnresolvedSymbol),
                }
            }
        } else {
            match self.get(t) {
                Some(v) => Ok(v),
                None => Err(ResolveError::UnresolvedSymbol),
            }
        }
    }
}

/// Read a `define` directive's value token.
pub fn define_value(t: &String) -> (r: Option<i32>)
    ensures
        crate::numbers::opt_i32_value(r) == parse_define_value(t@),
{
    let s = t.as_str();
    let n = s.unicode_len();
    let mut has_marker = false;
    let mut i: usize = 0;
    while i + 1 < n
        invariant
            n == s@.len(),
            0 <= i,
            n == 0 ==> i == 0,
            n > 0 ==> i < n,
            has_marker == exists|j: int|
                0 <= j < i && j + 2 <= s@.len() && #[trigger] s@[j] == '0' && s@[j + 1] == 'x',
        decreases n - i,
    {
        if s.get_char(i) == '0' && s.get_char(i + 1) == 'x' {
            has_marker = true;
        }
        i = i + 1;
    }
    assert(has_marker == contains_hex_marker(t@)) by {
        if contains_hex_marker(t@) {
            let j = choose|j: int|
                0 <= j && j + 2 <= t@.len() && #[trigger] t@[j] == '0' && t@[j + 1] == 'x';
            assert(0 <= j < i);
        }
    }
    if has_marker {
        let body = if n >= 2 {
            let c0 = s.get_char(0);
            let c1 = s.get_char(1);
            if c0 == '0' && c1 == 'x' {
                s.substring_char(2, n)
            } else {
                s.substring_char(0, n)
            }
        } else {
            s.substring_char(0, n)
        };
        assert(body@ =~= strip_hex_prefix(t@));
        parse_int_str(body, 16)
    } else {
        let body = s.substring_char(0, n);
        assert(body@ =~= t@);
        parse_int_str(body, 10)
    }
}

/// A table holding exactly the seeded names.
pub fn seeded_table() -> (r: SymbolTable)
    ensures
        r@ == seed_map(),
{
    let mut t = SymbolTable::new();
    add_opcode_syms(&mut t);
    add_register_syms(&mut t);
    add_cond_syms(&mut t);
    add_port_syms(&mut t);
    add_char_syms(&mut t);
    t
}

} // verus!
