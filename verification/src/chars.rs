//! Strings taken apart into characters and put together again.

use vstd::prelude::*;
use vstd::std_specs::iter::IteratorSpec;

verus! {

/// `String::push`: appends one character to the string.
#[verifier::external_body]
pub(crate) fn push_char(s: &mut String, c: char)
    ensures
        final(s)@ == old(s)@.push(c),
{
    s.push(c)
}

/// The characters of `s`, in order.
pub fn chars_of(s: &str) -> (v: Vec<char>)
    ensures
        v@ == s@,
{
    broadcast use vstd::string::axiom_spec_iter;
    broadcast use vstd::string::next_postcondition;

    let mut v: Vec<char> = Vec::new();
    let mut it = s.chars();
    loop
        invariant
            it.obeys_prophetic_iter_laws(),
            it.decrease() is Some,
            v@ + it.remaining() == s@,
        decreases it.decrease()->0,
    {
        let ghost before = it.remaining();
        match it.next() {
            Some(c) => {
                v.push(c);
                assert(v@ + it.remaining() =~= (v@.drop_last() + before));
            },
            None => {
                assert(v@ + it.remaining() =~= v@);
                return v;
            },
        }
    }
}

/// Appends the characters `v[from..to]` to `s`.
pub fn push_chars(s: &mut String, v: &Vec<char>, from: usize, to: usize)
    requires
        from <= to <= v.len(),
    ensures
        final(s)@ == old(s)@ + v@.subrange(from as int, to as int),
{
    let mut i: usize = from;
    while i < to
        invariant
            from <= i <= to <= v.len(),
            s@ == old(s)@ + v@.subrange(from as int, i as int),
        decreases to - i,
    {
        push_char(s, v[i]);
        assert(v@.subrange(from as int, i + 1) =~= v@.subrange(from as int, i as int).push(
            v@[i as int],
        ));
        assert(s@ =~= old(s)@ + v@.subrange(from as int, i + 1));
        i = i + 1;
    }
}

/// The string made of the characters of `v`.
pub fn string_of(v: &Vec<char>) -> (s: String)
    ensures
        s@ == v@,
{
    let mut s = String::new();
    push_chars(&mut s, v, 0, v.len());
    assert(v@.subrange(0, v.len() as int) =~= v@);
    s
}

} // verus!
