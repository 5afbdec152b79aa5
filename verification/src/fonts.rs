//! Fonts: availability, the fallback family, and which files of a brand's
//! `fonts/` directory hold fonts.

use vstd::prelude::*;
use crate::sources::{lower_of, str_to_lower};
use crate::text::{chars_eq, chars_of};

verus! {

/// The family name used when a brand's font is missing.
pub open spec fn fallback_family() -> Seq<char> {
    "New Computer Modern"@
}

/// Whether a font family is available. Availability is only known once the
/// Typst compiler runs, so this conservative check always answers `false`.
pub fn is_font_available(font_name: &str) -> (b: bool)
    ensures
        !b,
{
    false
}

/// The known-good family used when a brand's font is not found: "New Computer
/// Modern", which Typst embeds.
pub fn fallback_font() -> (s: &'static str)
    ensures
        s@ == fallback_family(),
{
    let s = "New Computer Modern";
    proof {
        reveal_strlit("New Computer Modern");
    }
    s
}

/// The extensions of bundled font files, lowercased.
pub open spec fn is_font_extension(lowered: Seq<char>) -> bool {
    lowered == "ttf"@ || lowered == "otf"@ || lowered == "woff2"@
}

/// Whether a file with extension `ext` is a font a brand may bundle:
/// `ttf`, `otf` or `woff2`, in any case.
pub fn is_font_file_extension(ext: &str) -> (b: bool)
    ensures
        b == is_font_extension(lower_of(ext@)),
{
    let lowered = chars_of(str_to_lower(ext).as_str());
    let ttf = chars_of("ttf");
    let otf = chars_of("otf");
    let woff2 = chars_of("woff2");
    chars_eq(lowered.as_slice(), ttf.as_slice()) || chars_eq(lowered.as_slice(), otf.as_slice())
        || chars_eq(lowered.as_slice(), woff2.as_slice())
}

} // verus!
