//! Lowercasing, as the standard library does it.

use vstd::prelude::*;

verus! {

/// The text that `str::to_lowercase` returns for the text `s`.
pub uninterp spec fn lowercase(s: Seq<char>) -> Seq<char>;

/// `str::to_lowercase` is trusted, not proved: it returns the lowercase
/// form of its argument, which depends on the argument's characters alone.
/// Nothing more is claimed of that form, not even its length: one character
/// may lowercase to several, and to different ones in different places.
pub assume_specification[ str::to_lowercase ](s: &str) -> (lowered: String)
    ensures
        lowered@ == lowercase(s@),
;

} // verus!
