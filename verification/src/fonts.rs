//! Where the font is looked for.

use crate::tokens::texts;
use vstd::prelude::*;
use vstd::string::StringExecFns;

verus! {

/// The first font to fall back to.
pub const FIRST_FALLBACK: &'static str = "/usr/share/fonts/truetype/dejavu/DejaVuSans.ttf";

/// The second font to fall back to.
pub const SECOND_FALLBACK: &'static str = "/System/Library/Fonts/Arial.ttf";

/// The third font to fall back to.
pub const THIRD_FALLBACK: &'static str = "/usr/share/fonts/TTF/DejaVuSans.ttf";

/// The paths to try for the font, in order: the configured one, then the
/// fallbacks.
pub open spec fn candidates(configured: Seq<char>) -> Seq<Seq<char>> {
    seq![configured, FIRST_FALLBACK@, SECOND_FALLBACK@, THIRD_FALLBACK@]
}

/// The paths to try for the font, in order. The first that holds a font is
/// taken; that none does is fatal.
pub fn font_candidates(configured: &str) -> (paths: Vec<String>)
    ensures
        texts(paths@) == candidates(configured@),
{
    let mut paths: Vec<String> = Vec::new();
    paths.push(String::from_str(configured));
    paths.push(String::from_str(FIRST_FALLBACK));
    paths.push(String::from_str(SECOND_FALLBACK));
    paths.push(String::from_str(THIRD_FALLBACK));
    proof {
        assert(texts(paths@) =~= candidates(configured@));
    }
    paths
}

} // verus!
