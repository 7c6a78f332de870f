//! Case folding for path comparisons.
//!
//! Material-path membership is case-insensitive, so every path that enters
//! the used-material set, and every path tested against it, is folded to
//! lower case once, when it is built.

use vstd::prelude::*;
use vstd::string::*;

verus! {

/// The case-folded form of a character sequence, as `str::to_lowercase`
/// computes it.
pub uninterp spec fn lower_of(s: Seq<char>) -> Seq<char>;

/// Relies on str::to_lowercase: the result is a function of the input
/// characters alone, and an empty string stays empty.
#[verifier::external_body]
pub(crate) fn fold_case(s: &str) -> (r: String)
    ensures
        r@ == lower_of(s@),
        s@.len() == 0 ==> r@.len() == 0,
{
    s.to_lowercase()
}

/// A path-like value that can present itself folded to lower case.
pub trait AsLowercasePath: View<V = Seq<char>> {
    /// Returns the case-folded form of this path.
    fn to_lowercase(&self) -> (r: String)
        ensures
            r@ == lower_of(self@),
    ;
}

impl AsLowercasePath for String {
    fn to_lowercase(&self) -> (r: String) {
        fold_case(self.as_str())
    }
}

} // verus!
