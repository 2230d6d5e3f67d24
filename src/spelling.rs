//! Composition of mnemonic spellings from a base string and one character.

use vstd::prelude::*;
use vstd::string::StringExecFns;

verus! {

/// Relies on `String::push`: the character is appended at the end.
pub assume_specification[ String::push ](s: &mut String, ch: char)
    ensures
        final(s)@ == old(s)@.push(ch),
;

/// The spelling `s` followed by the character `c`.
pub fn add_suffix(s: &str, c: char) -> (r: String)
    ensures
        r@ == s@.push(c),
{
    let mut res = String::from_str(s);
    res.push(c);
    res
}

/// The spelling `s` preceded by the character `c`.
pub fn add_prefix(s: &str, c: char) -> (r: String)
    ensures
        r@ == seq![c] + s@,
{
    let mut res = String::new();
    res.push(c);
    res.append(s);
    proof {
        assert(res@ =~= seq![c] + s@);
    }
    res
}

} // verus!
