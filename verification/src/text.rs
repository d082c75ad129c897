//! Building and taking apart executable strings, character by character.

use vstd::prelude::*;
use vstd::string::{StrSliceExecFns, StringExecFns};

verus! {

/// Relies on `char::to_string`: the returned string holds exactly that one
/// character.
#[verifier::external_body]
fn char_to_string(c: char) -> (s: String)
    ensures
        s@ == seq![c],
{
    c.to_string()
}

/// Append one character to a string.
pub fn push_char(s: &mut String, c: char)
    ensures
        final(s)@ == old(s)@.push(c),
{
    let ghost s0 = s@;
    let one = char_to_string(c);
    s.append(one.as_str());
    proof {
        assert(s0 + seq![c] =~= s0.push(c));
    }
}

/// Copy the characters of a string slice into a vector, in order.
pub fn str_to_chars(x: &str) -> (v: Vec<char>)
    ensures
        v@ == x@,
{
    let n = x.unicode_len();
    let mut v: Vec<char> = Vec::new();
    let mut k: usize = 0;
    while k < n
        invariant
            n == x@.len(),
            k <= n,
            v@ =~= x@.subrange(0, k as int),
        decreases n - k,
    {
        let c = x.get_char(k);
        v.push(c);
        k = k + 1;
    }
    proof {
        assert(x@.subrange(0, n as int) =~= x@);
    }
    v
}

} // verus!
