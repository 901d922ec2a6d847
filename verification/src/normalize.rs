//! Source normalization: everything from the first comment marker on is
//! deleted, surrounding whitespace is trimmed, empty lines are dropped, and
//! the rest is lower-cased, keeping each surviving line's original index.

use vstd::prelude::*;
use crate::chars::{
    is_comment_char, is_space_char, lower_char, comment_char, space_char, to_lower_char,
};

verus! {

/// How many leading characters of `s` precede the first comment marker.
pub open spec fn comment_prefix_len(s: Seq<char>) -> nat
    decreases s.len(),
{
    if s.len() == 0 || is_comment_char(s[0]) {
        0
    } else {
        1 + comment_prefix_len(s.drop_first())
    }
}

/// `s` with everything from the first comment marker on deleted.
pub open spec fn strip_comment(s: Seq<char>) -> Seq<char> {
    s.take(comment_prefix_len(s) as int)
}

pub open spec fn drop_leading_spaces(s: Seq<char>) -> Seq<char>
    decreases s.len(),
{
    if s.len() > 0 && is_space_char(s[0]) {
        drop_leading_spaces(s.drop_first())
    } else {
        s
    }
}

pub open spec fn drop_trailing_spaces(s: Seq<char>) -> Seq<char>
    decreases s.len(),
{
    if s.len() > 0 && is_space_char(s.last()) {
        drop_trailing_spaces(s.drop_last())
    } else {
        s
    }
}

pub open spec fn trim_spaces(s: Seq<char>) -> Seq<char> {
    drop_trailing_spaces(drop_leading_spaces(s))
}

pub open spec fn lower_seq(s: Seq<char>) -> Seq<char> {
    s.map_values(|c: char| lower_char(c))
}

/// One line after normalization: comment stripped, trimmed, lower-cased.
/// Empty means the line is discarded.
pub open spec fn normalize_line(s: Seq<char>) -> Seq<char> {
    lower_seq(trim_spaces(strip_comment(s)))
}

/// The normalized lines from index `idx` on, each carrying its original
/// line index.
pub open spec fn clean_lines_from(lines: Seq<Seq<char>>, idx: int) -> Seq<(int, Seq<char>)>
    decreases lines.len(),
{
    if lines.len() == 0 {
        Seq::empty()
    } else {
        let t = normalize_line(lines[0]);
        let rest = clean_lines_from(lines.drop_first(), idx + 1);
        if t.len() == 0 {
            rest
        } else {
            seq![(idx, t)] + rest
        }
    }
}

/// The normalized source: ordered, each line with its original 0-based index.
pub open spec fn clean_lines(lines: Seq<Seq<char>>) -> Seq<(int, Seq<char>)> {
    clean_lines_from(lines, 0)
}

/// The view of the executable normalizer's output.
pub open spec fn cleaned_view(v: Seq<(usize, String)>) -> Seq<(int, Seq<char>)> {
    v.map_values(|p: (usize, String)| (p.0 as int, p.1@))
}

proof fn lemma_comment_prefix_len_is(s: Seq<char>, i: int)
    requires
        0 <= i <= s.len(),
        forall|j: int| 0 <= j < i ==> !is_comment_char(s[j]),
        i < s.len() ==> is_comment_char(s[i]),
    ensures
        comment_prefix_len(s) == i,
    decreases i,
{
    if i == 0 {
    } else {
        assert(!is_comment_char(s[0]));
        lemma_comment_prefix_len_is(s.drop_first(), i - 1);
    }
}

proof fn lemma_drop_leading_spaces_is(s: Seq<char>, lo: int)
    requires
        0 <= lo <= s.len(),
        forall|j: int| 0 <= j < lo ==> is_space_char(s[j]),
        lo < s.len() ==> !is_space_char(s[lo]),
    ensures
        drop_leading_spaces(s) == s.skip(lo),
    decreases lo,
{
    if lo == 0 {
        assert(s.skip(0) =~= s);
    } else {
        lemma_drop_leading_spaces_is(s.drop_first(), lo - 1);
        assert(s.drop_first().skip(lo - 1) =~= s.skip(lo));
    }
}

proof fn lemma_drop_trailing_spaces_is(s: Seq<char>, hi: int)
    requires
        0 <= hi <= s.len(),
        forall|j: int| hi <= j < s.len() ==> is_space_char(s[j]),
        hi > 0 ==> !is_space_char(s[hi - 1]),
    ensures
        drop_trailing_spaces(s) == s.take(hi),
    decreases s.len(),
{
    if hi == s.len() {
        if s.len() > 0 {
            assert(!is_space_char(s.last()));
        }
        assert(s.take(hi) =~= s);
    } else {
        assert(is_space_char(s.last()));
        lemma_drop_trailing_spaces_is(s.drop_last(), hi);
        assert(s.drop_last().take(hi) =~= s.take(hi));
    }
}

/// Normalize one raw source line.
pub fn normalize_line_exec(s: &str) -> (r: String)
    ensures
        r@ == normalize_line(s@),
{
    let n = s.unicode_len();
    let mut cut: usize = 0;
    while cut < n && !comment_char(s.get_char(cut))
        invariant
            n == s@.len(),
            0 <= cut <= n,
            forall|j: int| 0 <= j < cut ==> !is_comment_char(s@[j]),
        decreases n - cut,
    {
        cut = cut + 1;
    }
    proof {
        lemma_comment_prefix_len_is(s@, cut as int);
    }
    let ghost t = strip_comment(s@);
    assert(t == s@.take(cut as int));

    let mut lo: usize = 0;
    while lo < cut && space_char(s.get_char(lo))
        invariant
            n == s@.len(),
            0 <= lo <= cut <= n,
            forall|j: int| 0 <= j < lo ==> is_space_char(s@[j]),
        decreases cut - lo,
    {
        lo = lo + 1;
    }
    let mut hi: usize = cut;
    while hi > lo && space_char(s.get_char(hi - 1))
        invariant
            n == s@.len(),
            0 <= lo <= hi <= cut <= n,
            forall|j: int| hi <= j < cut ==> is_space_char(s@[j]),
        decreases hi,
    {
        hi = hi - 1;
    }
    proof {
        assert(forall|j: int| 0 <= j < t.len() ==> t[j] == s@[j]);
        lemma_drop_leading_spaces_is(t, lo as int);
        let u = t.skip(lo as int);
        assert(forall|j: int| 0 <= j < u.len() ==> u[j] == s@[j + lo]);
        if hi > lo {
            assert(!is_space_char(s@[hi - 1]));
            assert(!is_space_char(u[hi - lo - 1]));
        }
        lemma_drop_trailing_spaces_is(u, hi - lo);
        assert(u.take(hi - lo) =~= s@.subrange(lo as int, hi as int));
        assert(trim_spaces(t) == s@.subrange(lo as int, hi as int));
    }

    let mut out = String::new();
    let mut k: usize = lo;
    while k < hi
        invariant
            n == s@.len(),
            lo <= k <= hi <= n,
            trim_spaces(strip_comment(s@)) == s@.subrange(lo as int, hi as int),
            out@ == s@.subrange(lo as int, k as int).map_values(|c: char| lower_char(c)),
        decreases hi - k,
    {
        let c = to_lower_char(s.get_char(k));
        out.push(c);
        k = k + 1;
        assert(out@ =~= s@.subrange(lo as int, k as int).map_values(|c: char| lower_char(c)));
    }
    assert(out@ =~= normalize_line(s@));
    out
}

/// Normalize a whole source text; each surviving line carries its original
/// 0-based line index.
pub fn normalize_source(lines: &Vec<String>) -> (r: Vec<(usize, String)>)
    ensures
        cleaned_view(r@) == clean_lines(lines.deep_view()),
        forall|k: int| 0 <= k < r@.len() ==> (#[trigger] r@[k]).0 < lines@.len(),
        r@.len() <= lines@.len(),
{
    let mut r: Vec<(usize, String)> = Vec::new();
    let n = lines.len();
    let ghost all = lines.deep_view();
    proof {
        assert(all.skip(0) =~= all);
        assert(cleaned_view(r@) =~= Seq::<(int, Seq<char>)>::empty());
        assert(cleaned_view(r@) + clean_lines_from(all, 0) =~= clean_lines_from(all, 0));
    }
    let mut i: usize = 0;
    while i < n
        invariant
            n == lines@.len(),
            0 <= i <= n,
            all == lines.deep_view(),
            all.len() == n,
            clean_lines(all) =~= cleaned_view(r@) + clean_lines_from(all.skip(i as int), i as int),
            forall|k: int| 0 <= k < r@.len() ==> (#[trigger] r@[k]).0 < n,
            r@.len() <= i,
        decreases n - i,
    {
        let t = normalize_line_exec(lines[i].as_str());
        proof {
            assert(all.skip(i as int).len() > 0);
            assert(all.skip(i as int)[0] == all[i as int]);
            assert(all[i as int] == lines@[i as int]@);
            assert(all.skip(i as int).drop_first() =~= all.skip(i as int + 1));
        }
        if t.unicode_len() > 0 {
            r.push((i, t));
            proof {
                assert(cleaned_view(r@) =~= cleaned_view(r@.drop_last())
                    + seq![(i as int, normalize_line(all[i as int]))]);
                assert(cleaned_view(r@.drop_last()) + (seq![(i as int, normalize_line(all[i as int]))]
                    + clean_lines_from(all.skip(i as int + 1), i as int + 1))
                    =~= (cleaned_view(r@.drop_last()) + seq![(i as int, normalize_line(all[i as int]))])
                    + clean_lines_from(all.skip(i as int + 1), i as int + 1));
            }
        }
        i = i + 1;
    }
    proof {
        assert(all.skip(n as int) =~= Seq::<Seq<char>>::empty());
        assert(clean_lines_from(all.skip(n as int), n as int) =~= Seq::<(int, Seq<char>)>::empty());
        assert(cleaned_view(r@) + Seq::<(int, Seq<char>)>::empty() =~= cleaned_view(r@));
    }
    r
}

/// Does a `//` comment stand at position `i` of `s`?
pub open spec fn dslash_at(s: Seq<char>, i: int) -> bool {
    0 <= i && i + 2 <= s.len() && s[i] == '/' && s[i + 1] == '/'
}

/// How many characters of `s` precede its first `//`; all of them when `s`
/// has none.
pub open spec fn dslash_prefix_len(s: Seq<char>) -> nat
    decreases s.len(),
{
    if s.len() < 2 {
        s.len()
    } else if s[0] == '/' && s[1] == '/' {
        0
    } else {
        1 + dslash_prefix_len(s.drop_first())
    }
}

pub open spec fn starts_dslash(s: Seq<char>) -> bool {
    s.len() >= 2 && s[0] == '/' && s[1] == '/'
}

/// The looser clean-up: only `//` starts a comment, and lines are trimmed
/// but neither lower-cased nor renumbered.
pub open spec fn clean_up_line(s: Seq<char>) -> Seq<char> {
    trim_spaces(s.take(dslash_prefix_len(s) as int))
}

/// Clean a whole text up: lines that are empty or begin with `//` are
/// dropped, the rest lose their trailing comment and surrounding whitespace.
pub open spec fn clean_up_lines(lines: Seq<Seq<char>>) -> Seq<Seq<char>>
    decreases lines.len(),
{
    if lines.len() == 0 {
        Seq::empty()
    } else {
        let rest = clean_up_lines(lines.drop_first());
        if lines[0].len() == 0 || starts_dslash(lines[0]) {
            rest
        } else {
            seq![clean_up_line(lines[0])] + rest
        }
    }
}

proof fn lemma_dslash_prefix_len_found(s: Seq<char>, i: int)
    requires
        dslash_at(s, i),
        forall|j: int| 0 <= j < i ==> !dslash_at(s, j),
    ensures
        dslash_prefix_len(s) == i,
    decreases i,
{
    if i == 0 {
    } else {
        assert(!dslash_at(s, 0));
        assert(dslash_at(s.drop_first(), i - 1));
        assert(forall|j: int| 0 <= j < i - 1 ==> #[trigger] dslash_at(s.drop_first(), j)
            ==> dslash_at(s, j + 1));
        lemma_dslash_prefix_len_found(s.drop_first(), i - 1);
    }
}

proof fn lemma_dslash_prefix_len_none(s: Seq<char>)
    requires
        forall|j: int| !dslash_at(s, j),
    ensures
        dslash_prefix_len(s) == s.len(),
    decreases s.len(),
{
    if s.len() >= 2 {
        assert(!dslash_at(s, 0));
        assert(forall|j: int| #[trigger] dslash_at(s.drop_first(), j) ==> dslash_at(s, j + 1));
        lemma_dslash_prefix_len_none(s.drop_first());
    }
}

fn find_dslash(s: &str, n: usize) -> (r: usize)
    requires
        n == s@.len(),
    ensures
        r == dslash_prefix_len(s@),
        r <= n,
{
    let mut j: usize = 0;
    while j + 1 < n
        invariant
            n == s@.len(),
            n == 0 ==> j == 0,
            n > 0 ==> j < n,
            forall|k: int| 0 <= k < j ==> !dslash_at(s@, k),
        decreases n - j,
    {
        if s.get_char(j) == '/' && s.get_char(j + 1) == '/' {
            proof {
                lemma_dslash_prefix_len_found(s@, j as int);
            }
            return j;
        }
        j = j + 1;
    }
    proof {
        assert(forall|k: int| !dslash_at(s@, k));
        lemma_dslash_prefix_len_none(s@);
    }
    n
}

/// Clean one line up for `clean_up`: cut at `//`, trim the ends.
fn clean_up_line_exec(s: &str) -> (r: String)
    ensures
        r@ == clean_up_line(s@),
{
    let n = s.unicode_len();
    let cut = find_dslash(s, n);
    let ghost t = s@.take(cut as int);
    let mut lo: usize = 0;
    while lo < cut && space_char(s.get_char(lo))
        invariant
            n == s@.len(),
            0 <= lo <= cut <= n,
            forall|j: int| 0 <= j < lo ==> is_space_char(s@[j]),
        decreases cut - lo,
    {
        lo = lo + 1;
    }
    let mut hi: usize = cut;
    while hi > lo && space_char(s.get_char(hi - 1))
        invariant
            n == s@.len(),
            0 <= lo <= hi <= cut <= n,
            forall|j: int| hi <= j < cut ==> is_space_char(s@[j]),
        decreases hi,
    {
        hi = hi - 1;
    }
    proof {
        assert(forall|j: int| 0 <= j < t.len() ==> t[j] == s@[j]);
        lemma_drop_leading_spaces_is(t, lo as int);
        let u = t.skip(lo as int);
        assert(forall|j: int| 0 <= j < u.len() ==> u[j] == s@[j + lo]);
        if hi > lo {
            assert(!is_space_char(s@[hi - 1]));
            assert(!is_space_char(u[hi - lo - 1]));
        }
        lemma_drop_trailing_spaces_is(u, hi - lo);
        assert(u.take(hi - lo) =~= s@.subrange(lo as int, hi as int));
        assert(clean_up_line(s@) == s@.subrange(lo as int, hi as int));
    }
    let out = String::from_str(s.substring_char(lo, hi));
    assert(out@ =~= clean_up_line(s@));
    out
}

/// Remove comments and empty lines the way the newer entry point does:
/// a line that is empty or begins with `//` is dropped; the rest are cut at
/// their first `//` and trimmed.
pub fn clean_up(code: Vec<String>) -> (r: Vec<String>)
    ensures
        r.deep_view() == clean_up_lines(code.deep_view()),
{
    let ghost all = code.deep_view();
    let mut r: Vec<String> = Vec::new();
    let n = code.len();
    proof {
        assert(all.skip(0) =~= all);
        assert(r.deep_view() =~= Seq::<Seq<char>>::empty());
        assert(r.deep_view() + clean_up_lines(all) =~= clean_up_lines(all));
    }
    let mut i: usize = 0;
    while i < n
        invariant
            n == code@.len(),
            0 <= i <= n,
            all == code.deep_view(),
            all.len() == n,
            clean_up_lines(all) =~= r.deep_view() + clean_up_lines(all.skip(i as int)),
        decreases n - i,
    {
        proof {
            assert(all.skip(i as int).len() > 0);
            assert(all.skip(i as int)[0] == all[i as int]);
            assert(all[i as int] == code@[i as int]@);
            assert(all.skip(i as int).drop_first() =~= all.skip(i as int + 1));
        }
        let line = code[i].as_str();
        let ln = line.unicode_len();
        let drop_line = if ln == 0 {
            true
        } else if ln >= 2 {
            line.get_char(0) == '/' && line.get_char(1) == '/'
        } else {
            false
        };
        if !drop_line {
            let cleaned = clean_up_line_exec(line);
            let ghost odv = r.deep_view();
            r.push(cleaned);
            proof {
                assert(r.deep_view() =~= odv.push(clean_up_line(all[i as int])));
                assert(odv + (seq![clean_up_line(all[i as int])] + clean_up_lines(all.skip(
                    i as int + 1,
                ))) =~= odv.push(clean_up_line(all[i as int])) + clean_up_lines(all.skip(
                    i as int + 1,
                )));
            }
        }
        i = i + 1;
    }
    proof {
        assert(all.skip(n as int) =~= Seq::<Seq<char>>::empty());
        assert(clean_up_lines(all.skip(n as int)) =~= Seq::<Seq<char>>::empty());
        assert(r.deep_view() + Seq::<Seq<char>>::empty() =~= r.deep_view());
    }
    r
}

} // verus!
