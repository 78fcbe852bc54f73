use unicode_width::{UnicodeWidthChar, UnicodeWidthStr};
use vstd::prelude::*;

verus! {

/// Column width of one character as `unicode-width` computes it (`None` for control characters).
pub uninterp spec fn unicode_char_width(c: char) -> Option<usize>;

/// Column width of a string as `unicode-width` computes it.
pub uninterp spec fn unicode_str_width(s: Seq<char>) -> usize;

/// Whether every character is printable ASCII (U+0020 to U+007E).
pub open spec fn is_printable_ascii(s: Seq<char>) -> bool {
    forall|i: int| 0 <= i < s.len() ==> ' ' <= #[trigger] s[i] && s[i] < '\u{7f}'
}

/// Calls `UnicodeWidthChar::width`: the result is the crate's width for `c`; printable ASCII has
/// width 1 and the C0 and C1 control ranges have no width. Other widths are the crate's tables.
#[verifier::external_body]
pub(crate) fn char_width(c: char) -> (r: Option<usize>)
    ensures
        r == unicode_char_width(c),
        (' ' <= c && c < '\u{7f}') ==> r == Some(1usize),
        (c < ' ' || ('\u{7f}' <= c && c < '\u{a0}')) ==> r is None,
{
    UnicodeWidthChar::width(c)
}

/// Returns the terminal column width of `text` as `UnicodeWidthStr::width` computes it.
///
/// The result is the crate's width for the characters of `text`; the empty string has width 0
/// and a string of printable ASCII has one column per character. Other widths (ligatures, emoji
/// sequences, East Asian widths) are the crate's tables and are not restated here, beyond the
/// crate's bound that no character adds more than three columns.
#[verifier::external_body]
pub fn display_width(text: &str) -> (r: usize)
    ensures
        r == unicode_str_width(text@),
        text@.len() == 0 ==> r == 0,
        r <= 3 * text@.len(),
        is_printable_ascii(text@) ==> r == text@.len(),
{
    UnicodeWidthStr::width(text)
}

} // verus!
