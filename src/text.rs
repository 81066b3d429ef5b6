//! Conversions between strings and sequences of characters.

use vstd::prelude::*;

verus! {

/// Relies on `String::push`: the character is appended at the end.
#[verifier::external_body]
pub(crate) fn push_char(s: &mut String, c: char)
    ensures
        final(s)@ == old(s)@.push(c),
{
    s.push(c);
}

/// The characters of `s`, in order.
pub fn chars_of(s: &str) -> (r: Vec<char>)
    ensures
        r@ == s@,
{
    let mut v: Vec<char> = Vec::new();
    for c in it: s.chars()
        invariant
            v@ == it.seq().take(it.index() as int),
            it.seq() == s@,
    {
        v.push(c);
    }
    v
}

/// A string made of the given characters, in order.
pub fn string_of(cs: &[char]) -> (r: String)
    ensures
        r@ == cs@,
{
    let mut s = String::new();
    let mut i: usize = 0;
    while i < cs.len()
        invariant
            i <= cs@.len(),
            s@ == cs@.take(i as int),
        decreases cs@.len() - i,
    {
        push_char(&mut s, cs[i]);
        i = i + 1;
        assert(s@ =~= cs@.take(i as int));
    }
    assert(cs@.take(cs@.len() as int) =~= cs@);
    s
}

} // verus!
