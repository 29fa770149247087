//! Case-insensitive comparison support for extension filters.

use vstd::prelude::*;

verus! {

/// The lowercase form of a character sequence, as `str::to_lowercase`
/// computes it. Its value depends on the characters alone.
pub uninterp spec fn lower_of(s: Seq<char>) -> Seq<char>;

/// Relies on `str::to_lowercase`: returns the lowercase equivalent of
/// the string, a function of its characters alone.
#[verifier::external_body]
pub(crate) fn lowercase(s: &str) -> (r: String)
    ensures
        r@ == lower_of(s@),
{
    s.to_lowercase()
}

/// `lowered` maps case folding over a list of character sequences.
pub open spec fn lowered(xs: Seq<Seq<char>>) -> Seq<Seq<char>> {
    xs.map_values(|s: Seq<char>| lower_of(s))
}

} // verus!
