//! Letter case beyond ASCII.

use crate::text::{ascii_lowered, ascii_uppered};
use vstd::prelude::*;
use vstd::utf8::is_ascii_chars;

verus! {

/// What `str::to_lowercase` makes of a text.
pub uninterp spec fn lowercase(s: Seq<char>) -> Seq<char>;

/// What `str::to_uppercase` makes of a text.
pub uninterp spec fn uppercase(s: Seq<char>) -> Seq<char>;

/// `str::to_lowercase`. The result depends on the text alone. Of ASCII text it
/// is said in full: letters go to lower case and nothing else changes. The
/// mapping of the other letters is Unicode's and is not written out here.
pub assume_specification[ str::to_lowercase ](s: &str) -> (r: String)
    ensures
        r@ == lowercase(s@),
        is_ascii_chars(s@) ==> r@ == ascii_lowered(s@),
;

/// `str::to_uppercase`. The result depends on the text alone. Of ASCII text it
/// is said in full: letters go to upper case and nothing else changes. The
/// mapping of the other letters is Unicode's and is not written out here.
pub assume_specification[ str::to_uppercase ](s: &str) -> (r: String)
    ensures
        r@ == uppercase(s@),
        is_ascii_chars(s@) ==> r@ == ascii_uppered(s@),
;

} // verus!
