//! Splitting a normalized line into whitespace-delimited tokens.

use vstd::prelude::*;
use crate::chars::{is_space_char, space_char};

verus! {

/// The length of the token at the head of `s`: how many characters come
/// before the first whitespace.
pub open spec fn token_len(s: Seq<char>) -> nat
    decreases s.len(),
{
    if s.len() == 0 || is_space_char(s[0]) {
        0
    } else {
        1 + token_len(s.drop_first())
    }
}

pub proof fn lemma_token_len_le(s: Seq<char>)
    ensures
        token_len(s) <= s.len(),
    decreases s.len(),
{
    if s.len() > 0 && !is_space_char(s[0]) {
        lemma_token_len_le(s.drop_first());
    }
}

/// The whitespace-delimited tokens of `s`, in order.
pub open spec fn tokenize(s: Seq<char>) -> Seq<Seq<char>>
    decreases s.len(),
        via tokenize_decreases
{
    if s.len() == 0 {
        Seq::empty()
    } else if is_space_char(s[0]) {
        tokenize(s.drop_first())
    } else {
        seq![s.take(token_len(s) as int)] + tokenize(s.skip(token_len(s) as int))
    }
}

#[via_fn]
proof fn tokenize_decreases(s: Seq<char>) {
    lemma_token_len_le(s);
    if s.len() > 0 && !is_space_char(s[0]) {
        assert(token_len(s) >= 1);
        assert(s.skip(token_len(s) as int).len() < s.len());
    }
}

/// Every token has at least one character.
pub proof fn lemma_tokenize_tokens_nonempty(s: Seq<char>)
    ensures
        forall|k: int| 0 <= k < tokenize(s).len() ==> (#[trigger] tokenize(s)[k]).len() > 0,
    decreases s.len(),
{
    if s.len() == 0 {
        assert(tokenize(s).len() == 0);
    } else if is_space_char(s[0]) {
        lemma_tokenize_tokens_nonempty(s.drop_first());
        assert(tokenize(s) == tokenize(s.drop_first()));
        assert forall|k: int| 0 <= k < tokenize(s).len() implies (#[trigger] tokenize(s)[k]).len()
            > 0 by {
            assert(tokenize(s)[k] == tokenize(s.drop_first())[k]);
        }
    } else {
        lemma_token_len_le(s);
        assert(token_len(s) >= 1);
        lemma_tokenize_tokens_nonempty(s.skip(token_len(s) as int));
        assert forall|k: int| 0 <= k < tokenize(s).len() implies (#[trigger] tokenize(s)[k]).len()
            > 0 by {
            if k == 0 {
                assert(tokenize(s)[0] == s.take(token_len(s) as int));
            } else {
                assert(tokenize(s)[k] == tokenize(s.skip(token_len(s) as int))[k - 1]);
            }
        }
    }
}

/// Skipping a leading space leaves the tokens unchanged.
proof fn lemma_tokenize_skip_space(s: Seq<char>, i: int)
    requires
        0 <= i < s.len(),
        is_space_char(s[i]),
    ensures
        tokenize(s.skip(i)) == tokenize(s.skip(i + 1)),
{
    assert(s.skip(i)[0] == s[i]);
    assert(s.skip(i).drop_first() =~= s.skip(i + 1));
}

/// `token_len` is fixed by where the first whitespace stands.
proof fn lemma_token_len_is(s: Seq<char>, j: int)
    requires
        0 <= j <= s.len(),
        forall|k: int| 0 <= k < j ==> !is_space_char(s[k]),
        j < s.len() ==> is_space_char(s[j]),
    ensures
        token_len(s) == j,
    decreases j,
{
    if j == 0 {
    } else {
        lemma_token_len_is(s.drop_first(), j - 1);
    }
}

/// At a token's first character, the tokens are that token followed by the
/// tokens of the rest.
proof fn lemma_tokenize_at_token(s: Seq<char>, i: int, j: int)
    requires
        0 <= i < j <= s.len(),
        forall|k: int| i <= k < j ==> !is_space_char(s[k]),
        j < s.len() ==> is_space_char(s[j]),
    ensures
        tokenize(s.skip(i)) == seq![s.subrange(i, j)] + tokenize(s.skip(j)),
{
    let u = s.skip(i);
    assert(forall|k: int| 0 <= k < u.len() ==> u[k] == s[k + i]);
    lemma_token_len_is(u, j - i);
    assert(!is_space_char(u[0]));
    assert(u.take(j - i) =~= s.subrange(i, j));
    assert(u.skip(j - i) =~= s.skip(j));
}

/// Split a normalized line into its tokens.
pub fn tokenize_line(s: &str) -> (r: Vec<String>)
    ensures
        r.deep_view() == tokenize(s@),
{
    let n = s.unicode_len();
    let mut r: Vec<String> = Vec::new();
    proof {
        assert(s@.skip(0) =~= s@);
        assert(r.deep_view() =~= Seq::<Seq<char>>::empty());
        assert(r.deep_view() + tokenize(s@) =~= tokenize(s@));
    }
    let mut i: usize = 0;
    while i < n
        invariant
            n == s@.len(),
            0 <= i <= n,
            tokenize(s@) =~= r.deep_view() + tokenize(s@.skip(i as int)),
        decreases n - i,
    {
        let c = s.get_char(i);
        if space_char(c) {
            proof {
                lemma_tokenize_skip_space(s@, i as int);
            }
            i = i + 1;
        } else {
            let mut j: usize = i + 1;
            while j < n && !space_char(s.get_char(j))
                invariant
                    n == s@.len(),
                    i < j <= n,
                    forall|k: int| i <= k < j ==> !is_space_char(s@[k]),
                decreases n - j,
            {
                j = j + 1;
            }
            let tok = String::from_str(s.substring_char(i, j));
            proof {
                lemma_tokenize_at_token(s@, i as int, j as int);
            }
            r.push(tok);
            proof {
                assert(r.deep_view() =~= r.deep_view().drop_last().push(tok@));
                assert(r.deep_view().drop_last() + (seq![s@.subrange(i as int, j as int)]
                    + tokenize(s@.skip(j as int)))
                    =~= r.deep_view() + tokenize(s@.skip(j as int)));
            }
            i = j;
        }
    }
    proof {
        assert(s@.skip(n as int) =~= Seq::<char>::empty());
        assert(tokenize(s@.skip(n as int)) =~= Seq::<Seq<char>>::empty());
        assert(r.deep_view() + Seq::<Seq<char>>::empty() =~= r.deep_view());
    }
    r
}

} // verus!
