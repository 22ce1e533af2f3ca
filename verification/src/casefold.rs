//! Case folding. Unicode lowercasing is far too large to restate, so the
//! folded form of a string is only named, and every contract speaks of
//! that name.

use vstd::prelude::*;

verus! {

/// The lowercase form of a sequence of characters, as Unicode defines it.
pub uninterp spec fn lower_of(s: Seq<char>) -> Seq<char>;

/// Relies on str::to_lowercase: the result is the lowercase equivalent of
/// the input, a function of its characters alone; the empty string stays
/// empty.
#[verifier::external_body]
pub(crate) fn to_lowercase(s: &str) -> (r: String)
    ensures
        r@ == lower_of(s@),
        s@.len() == 0 ==> r@.len() == 0,
{
    s.to_lowercase()
}

} // verus!
