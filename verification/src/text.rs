//! The one bridge between character vectors and `String`.

use vstd::prelude::*;

verus! {

/// Relies on `String`'s `FromIterator<char>` impl: collecting characters
/// yields the string of exactly those characters, in order.
#[verifier::external_body]
pub(crate) fn chars_to_string(v: &Vec<char>) -> (r: String)
    ensures
        r@ == v@,
{
    v.iter().collect()
}

/// The characters of a string slice, in order, as a vector.
pub fn str_to_chars(s: &str) -> (r: Vec<char>)
    ensures
        r@ == s@,
{
    let n = s.unicode_len();
    let mut r: Vec<char> = Vec::new();
    let mut idx: usize = 0;
    while idx < n
        invariant
            idx <= n,
            n == s@.len(),
            r@ == s@.subrange(0, idx as int),
        decreases n - idx,
    {
        r.push(s.get_char(idx));
        idx += 1;
        assert(r@ =~= s@.subrange(0, idx as int));
    }
    assert(r@ =~= s@);
    r
}

} // verus!
