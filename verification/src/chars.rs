//! What std's `String` does where vstd does not say.

use vstd::prelude::*;
use vstd::string::*;

verus! {

/// `std::string::String::push`: the character is appended at the end of the
/// string, as the documentation of std says.
pub assume_specification[ String::push ](s: &mut String, ch: char)
    ensures
        final(s)@ == old(s)@.push(ch),
;

} // verus!
