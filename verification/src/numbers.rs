//! Verified numeric conversions: reading a signed integer literal in base
//! 2, 10 or 16 (an optional sign followed by one or more digits, rejected
//! when the value leaves the 32-bit signed range), and rendering decimal
//! digits for diagnostics.

use vstd::prelude::*;
use crate::chars::{digit_val, is_digit_of, digit_value};

verus! {

/// Every character of `s` is a digit of `radix`.
pub open spec fn all_digits(s: Seq<char>, radix: int) -> bool {
    forall|i: int| 0 <= i < s.len() ==> is_digit_of(s[i], radix)
}

/// Horner evaluation of the digits of `s` in base `radix`, starting from `acc`.
pub open spec fn digits_value_from(acc: int, s: Seq<char>, radix: int) -> int
    decreases s.len(),
{
    if s.len() == 0 {
        acc
    } else {
        digits_value_from(acc * radix + digit_val(s[0]), s.drop_first(), radix)
    }
}

pub open spec fn digits_value(s: Seq<char>, radix: int) -> int {
    digits_value_from(0, s, radix)
}

/// An integer literal: an optional single `+` or `-` sign, then one or
/// more digits of `radix`. `None` when the text has any other shape.
pub open spec fn parse_int_radix(s: Seq<char>, radix: int) -> Option<int> {
    let neg = s.len() > 0 && s[0] == '-';
    let mag = if s.len() > 0 && (s[0] == '-' || s[0] == '+') {
        s.drop_first()
    } else {
        s
    };
    if mag.len() == 0 || !all_digits(mag, radix) {
        None
    } else if neg {
        Some(-digits_value(mag, radix))
    } else {
        Some(digits_value(mag, radix))
    }
}

/// `parse_int_radix`, additionally rejecting values outside the `i32` range.
pub open spec fn parse_i32_radix(s: Seq<char>, radix: int) -> Option<int> {
    match parse_int_radix(s, radix) {
        Some(v) => if i32::MIN <= v <= i32::MAX {
            Some(v)
        } else {
            None
        },
        None => None,
    }
}

pub open spec fn opt_i32_value(r: Option<i32>) -> Option<int> {
    match r {
        Some(v) => Some(v as int),
        None => None,
    }
}

/// Horner evaluation never shrinks a non-negative accumulator.
proof fn lemma_digits_value_from_monotone(acc: int, s: Seq<char>, radix: int)
    requires
        0 <= acc,
        2 <= radix,
        all_digits(s, radix),
    ensures
        digits_value_from(acc, s, radix) >= acc,
    decreases s.len(),
{
    if s.len() > 0 {
        assert(is_digit_of(s[0], radix));
        assert(acc * radix >= acc * 1) by (nonlinear_arith)
            requires 0 <= acc && 1 <= radix;
        assert(all_digits(s.drop_first(), radix)) by {
            assert(forall|i: int| 0 <= i < s.drop_first().len()
                ==> s.drop_first()[i] == s[i + 1]);
        }
        lemma_digits_value_from_monotone(acc * radix + digit_val(s[0]), s.drop_first(), radix);
    }
}

/// `digits_value_from` over `take(k + 1)` factors through `take(k)`.
proof fn lemma_digits_take_snoc(acc: int, s: Seq<char>, radix: int, k: int)
    requires
        0 <= k < s.len(),
    ensures
        digits_value_from(acc, s.take(k + 1), radix)
            == digits_value_from(acc, s.take(k), radix) * radix + digit_val(s[k]),
    decreases k,
{
    reveal_with_fuel(digits_value_from, 3);
    if k == 0 {
        assert(s.take(1) =~= seq![s[0]]);
        assert(s.take(1).drop_first() =~= Seq::<char>::empty());
        assert(s.take(0) =~= Seq::<char>::empty());
        assert(s.take(1)[0] == s[0]);
    } else {
        assert(s.take(k + 1).len() > 0);
        assert(s.take(k + 1)[0] == s[0]);
        assert(s.take(k + 1).drop_first() =~= s.drop_first().take(k));
        assert(s.take(k).drop_first() =~= s.drop_first().take(k - 1));
        assert(s.take(k)[0] == s[0]);
        lemma_digits_take_snoc(acc * radix + digit_val(s[0]), s.drop_first(), radix, k - 1);
        assert(s.drop_first()[k - 1] == s[k]);
    }
}

/// Evaluating all of `s` is the same as evaluating a prefix and going on
/// from its value.
proof fn lemma_digits_split(acc: int, s: Seq<char>, radix: int, k: int)
    requires
        0 <= k <= s.len(),
    ensures
        digits_value_from(acc, s, radix)
            == digits_value_from(digits_value_from(acc, s.take(k), radix), s.skip(k), radix),
    decreases k,
{
    if k == 0 {
        assert(s.take(0) =~= Seq::<char>::empty());
        assert(s.skip(0) =~= s);
    } else {
        assert(s.len() > 0);
        assert(s.take(k)[0] == s[0]);
        assert(s.take(k).drop_first() =~= s.drop_first().take(k - 1));
        assert(s.skip(k) =~= s.drop_first().skip(k - 1));
        lemma_digits_split(acc * radix + digit_val(s[0]), s.drop_first(), radix, k - 1);
    }
}

/// Read the magnitude `s@.skip(start)` as digits of `radix`. Returns the
/// value when every character is a digit and the value stays within
/// `0 ..= 0x8000_0000`; `None` exactly when the spec-level parse of the
/// whole token (with its sign) must fail for this magnitude.
fn scan_magnitude(s: &str, start: usize, n: usize, radix: u32) -> (r: Option<u64>)
    requires
        2 <= radix <= 16,
        n == s@.len(),
        start <= n,
    ensures
        match r {
            Some(v) => {
                &&& all_digits(s@.skip(start as int), radix as int)
                &&& s@.skip(start as int).len() > 0
                &&& v == digits_value(s@.skip(start as int), radix as int)
                &&& v <= 0x8000_0000u64
            },
            None => {
                ||| !all_digits(s@.skip(start as int), radix as int)
                ||| s@.skip(start as int).len() == 0
                ||| digits_value(s@.skip(start as int), radix as int) > 0x8000_0000
            },
        },
{
    let ghost mag = s@.skip(start as int);
    if start == n {
        assert(mag.len() == 0);
        return None;
    }
    let mut acc: u64 = 0;
    let mut i: usize = start;
    while i < n
        invariant
            2 <= radix <= 16,
            n == s@.len(),
            start <= i <= n,
            mag == s@.skip(start as int),
            acc == digits_value_from(0, mag.take(i - start), radix as int),
            acc <= 0x8000_0000u64,
            all_digits(mag.take(i - start), radix as int),
        decreases n - i,
    {
        let c = s.get_char(i);
        assert(c == mag[i - start]);
        let d = digit_value(c);
        if d < 0 || d as u32 >= radix {
            assert(!is_digit_of(mag[i - start], radix as int));
            return None;
        }
        proof {
            lemma_digits_take_snoc(0, mag, radix as int, i - start);
            assert(acc as int * (radix as int) + (d as int) <= 0x8000_0000 * 16 + 15)
                by (nonlinear_arith)
                requires
                    0 <= acc as int <= 0x8000_0000,
                    0 <= radix as int <= 16,
                    d as int <= 15,
            ;
        }
        acc = acc * (radix as u64) + (d as u64);
        i = i + 1;
        if acc > 0x8000_0000 {
            proof {
                if all_digits(mag, radix as int) {
                    lemma_digits_split(0, mag, radix as int, i - start);
                    assert(all_digits(mag.skip(i - start), radix as int)) by {
                        assert(forall|j: int| 0 <= j < mag.skip(i - start).len()
                            ==> #[trigger] mag.skip(i - start)[j] == mag[j + i - start]);
                    }
                    lemma_digits_value_from_monotone(
                        acc as int, mag.skip(i - start), radix as int);
                }
            }
            return None;
        }
    }
    assert(mag.take(n - start) =~= mag);
    Some(acc)
}

/// Read `s` as a signed integer literal in the given radix, exactly when
/// its value fits in an `i32`.
pub fn parse_int_str(s: &str, radix: u32) -> (r: Option<i32>)
    requires
        2 <= radix <= 16,
    ensures
        opt_i32_value(r) == parse_i32_radix(s@, radix as int),
{
    let n = s.unicode_len();
    let (neg, start): (bool, usize) = if n > 0 {
        let c0 = s.get_char(0);
        if c0 == '-' {
            (true, 1)
        } else if c0 == '+' {
            (false, 1)
        } else {
            (false, 0)
        }
    } else {
        (false, 0)
    };
    assert(s@.skip(start as int) == if start == 1 { s@.drop_first() } else { s@ });
    match scan_magnitude(s, start, n, radix) {
        None => None,
        Some(v) => {
            if neg {
                let w: i64 = -(v as i64);
                if w < i32::MIN as i64 {
                    None
                } else {
                    Some(w as i32)
                }
            } else {
                if v > i32::MAX as u64 {
                    None
                } else {
                    Some(v as i32)
                }
            }
        },
    }
}

/// The decimal digits of `n`, most significant first.
pub open spec fn dec_chars(n: nat) -> Seq<char>
    decreases n,
{
    if n < 10 {
        seq![dec_digit_char(n as int)]
    } else {
        dec_chars(n / 10).push(dec_digit_char((n % 10) as int))
    }
}

pub open spec fn dec_digit_char(d: int) -> char {
    if d == 0 { '0' }
    else if d == 1 { '1' }
    else if d == 2 { '2' }
    else if d == 3 { '3' }
    else if d == 4 { '4' }
    else if d == 5 { '5' }
    else if d == 6 { '6' }
    else if d == 7 { '7' }
    else if d == 8 { '8' }
    else { '9' }
}

/// The decimal digits of `v`, with a leading minus sign when `v < 0`.
pub open spec fn signed_dec_chars(v: int) -> Seq<char> {
    if v < 0 {
        seq!['-'] + dec_chars((-v) as nat)
    } else {
        dec_chars(v as nat)
    }
}

fn dec_digit_str(d: u64) -> (r: &'static str)
    requires
        d < 10,
    ensures
        r@ == seq![dec_digit_char(d as int)],
{
    proof {
        reveal_strlit("0");
        reveal_strlit("1");
        reveal_strlit("2");
        reveal_strlit("3");
        reveal_strlit("4");
        reveal_strlit("5");
        reveal_strlit("6");
        reveal_strlit("7");
        reveal_strlit("8");
        reveal_strlit("9");
    }
    if d == 0 { "0" }
    else if d == 1 { "1" }
    else if d == 2 { "2" }
    else if d == 3 { "3" }
    else if d == 4 { "4" }
    else if d == 5 { "5" }
    else if d == 6 { "6" }
    else if d == 7 { "7" }
    else if d == 8 { "8" }
    else { "9" }
}

/// Render `n` in decimal.
pub fn render_dec(n: u64) -> (r: String)
    ensures
        r@ == dec_chars(n as nat),
    decreases n,
{
    if n < 10 {
        String::from_str(dec_digit_str(n))
    } else {
        let mut s = render_dec(n / 10);
        s.append(dec_digit_str(n % 10));
        assert(seq![dec_digit_char((n % 10) as int)].len() == 1);
        assert(s@ =~= dec_chars((n / 10) as nat).push(dec_digit_char((n % 10) as int)));
        s
    }
}

/// Render `v` in signed decimal.
pub fn render_signed(v: i32) -> (r: String)
    ensures
        r@ == signed_dec_chars(v as int),
{
    if v >= 0 {
        render_dec(v as u64)
    } else {
        proof {
            reveal_strlit("-");
        }
        let mut s = String::from_str("-");
        let mag: u64 = (-(v as i64)) as u64;
        let tail = render_dec(mag);
        s.append(tail.as_str());
        assert(s@ =~= seq!['-'] + dec_chars(mag as nat));
        s
    }
}

} // verus!
