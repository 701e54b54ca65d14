//! Display widths of text in terminal cells, as the `unicode-width` crate computes them.
use vstd::prelude::*;

verus! {

/// The width in cells of a string (`unicode_width::UnicodeWidthStr::width`).
pub uninterp spec fn str_display_width(s: Seq<char>) -> usize;

/// The width in cells of one character, `None` for control characters
/// (`unicode_width::UnicodeWidthChar::width`).
pub uninterp spec fn char_display_width(c: char) -> Option<usize>;

/// Whether every character of `s` is printable ASCII (space through tilde).
pub open spec fn printable_ascii(s: Seq<char>) -> bool {
    forall|i: int| 0 <= i < s.len() ==> ' ' <= #[trigger] s[i] && s[i] <= '~'
}

/// The display width of `s` (`UnicodeWidthStr::width`).
/// Trusted: the result is the crate's string width; the empty string has width 0 and a
/// string of printable ASCII characters is one cell per character, as the crate's rules
/// (each such character has width 1 and the width of such a string is the sum) state.
#[verifier::external_body]
pub fn str_width(s: &str) -> (r: usize)
    ensures
        r == str_display_width(s@),
        s@.len() == 0 ==> r == 0,
        printable_ascii(s@) ==> r == s@.len(),
{
    unicode_width::UnicodeWidthStr::width(s)
}

/// The display width of `c` (`UnicodeWidthChar::width`).
/// Trusted: the result is the crate's character width; as the crate's source shows, the C0
/// and C1 control characters have no width, printable ASCII has width 1, and no character is
/// wider than 3 cells.
#[verifier::external_body]
pub fn char_width(c: char) -> (r: Option<usize>)
    ensures
        r == char_display_width(c),
        ((c as u32) < 0x20 || (0x7f <= (c as u32) && (c as u32) < 0xa0)) <==> r is None,
        (0x20 <= (c as u32) && (c as u32) < 0x7f) ==> r == Some(1usize),
        r matches Some(w) ==> w <= 3,
{
    unicode_width::UnicodeWidthChar::width(c)
}

} // verus!
