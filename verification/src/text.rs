//! Trusted contracts for `String` operations that vstd leaves unspecified.

use vstd::prelude::*;

verus! {

/// Relies on `String::push`: it appends exactly the given character to the
/// end of the string.
pub assume_specification[ String::push ](s: &mut String, c: char)
    ensures
        final(s)@ == old(s)@.push(c),
;

} // verus!

