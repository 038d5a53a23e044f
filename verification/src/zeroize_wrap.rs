//! Scrubbing sensitive strings through the zeroize crate.

use vstd::prelude::*;

verus! {

/// Relies on zeroize's `Zeroize for String`: the buffer is overwritten in
/// place and the string is left empty.
#[verifier::external_body]
pub fn scrub_string(s: &mut String)
    ensures
        final(s)@.len() == 0,
{
    zeroize::Zeroize::zeroize(s)
}

} // verus!
