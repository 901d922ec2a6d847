//! The one string-building primitive vstd does not specify.

use vstd::prelude::*;

verus! {

/// Relies on String::push: appends exactly the given character to the end
/// of the string.
pub assume_specification[ String::push ](s: &mut String, c: char)
    ensures
        final(s)@ == old(s)@.push(c),
;

/// Does the token spell exactly this literal?
pub fn token_is(t: &String, lit: &str) -> (r: bool)
    ensures
        r == (t@ == lit@),
{
    let s = String::from_str(lit);
    t.eq(&s)
}

} // verus!
