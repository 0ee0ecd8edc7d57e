//! Small tools on strings that the other modules share.

use vstd::prelude::*;
use vstd::string::*;

verus! {

/// `String::push` of std: it appends one character to the end of the string
/// and leaves the rest as it was.
pub assume_specification[ String::push ](s: &mut String, ch: char)
    ensures
        final(s)@ == old(s)@.push(ch),
;

/// Whether two strings hold the same text.
pub fn same_text(a: &str, b: &str) -> (r: bool)
    ensures
        r == (a@ == b@),
{
    a.to_owned() == b.to_owned()
}

} // verus!
