//! Display widths, counted in terminal columns.
use vstd::prelude::*;

use crate::text::control;

verus! {

/// The columns that the crate unicode-width gives a character: `None` for a
/// control character.
pub uninterp spec fn char_columns(c: char) -> Option<usize>;

/// The columns that the crate unicode-width gives a string, ligatures and emoji
/// sequences counted as a whole.
pub uninterp spec fn str_columns(s: Seq<char>) -> usize;

/// The width of a character when a tab stands for four columns and what has no
/// width of its own for none.
pub open spec fn char_cols(c: char) -> nat {
    if c == '\t' {
        4
    } else {
        match char_columns(c) {
            Some(n) => n as nat,
            None => 0,
        }
    }
}

/// The sum of the widths of the characters of `s`.
pub open spec fn cols(s: Seq<char>) -> nat
    decreases s.len(),
{
    if s.len() == 0 {
        0
    } else {
        cols(s.drop_last()) + char_cols(s.last())
    }
}

/// Calls `unicode_width::UnicodeWidthChar::width`: its result is named
/// `char_columns`. It is `None` exactly for control characters, one column for
/// the printable characters of ASCII, two for CJK unified ideographs, for the wide
/// punctuation U+3001 to U+3029 and for the fullwidth forms U+FF01 to U+FF60, and
/// never more than three columns.
#[verifier::external_body]
fn unicode_char_width(c: char) -> (r: Option<usize>)
    ensures
        r == char_columns(c),
        r is None <==> control(c),
        r matches Some(n) ==> n <= 3,
        '\u{20}' <= c < '\u{7f}' ==> r == Some(1usize),
        '\u{4e00}' <= c <= '\u{9fff}' ==> r == Some(2usize),
        '\u{3001}' <= c <= '\u{3029}' ==> r == Some(2usize),
        '\u{ff01}' <= c <= '\u{ff60}' ==> r == Some(2usize),
{
    unicode_width::UnicodeWidthChar::width(c)
}

/// Calls `unicode_width::UnicodeWidthStr::width`: its result is named
/// `str_columns`. No character adds more than three columns, and printable
/// characters of ASCII among themselves take one column each.
#[verifier::external_body]
pub(crate) fn unicode_str_width(s: &str) -> (r: usize)
    ensures
        r == str_columns(s@),
        r <= 3 * s@.len(),
        (forall|i: int| 0 <= i < s@.len() ==> '\u{20}' <= #[trigger] s@[i] < '\u{7f}') ==> r
            == s@.len(),
{
    unicode_width::UnicodeWidthStr::width(s)
}

/// The width of a character in columns; a tab takes four.
pub fn char_width(c: char) -> (r: usize)
    ensures
        r == char_cols(c),
        r <= 4,
        control(c) && c != '\t' ==> r == 0,
        '\u{20}' <= c < '\u{7f}' ==> r == 1,
        '\u{4e00}' <= c <= '\u{9fff}' ==> r == 2,
        '\u{3001}' <= c <= '\u{3029}' ==> r == 2,
        '\u{ff01}' <= c <= '\u{ff60}' ==> r == 2,
{
    if c == '\t' {
        4
    } else {
        match unicode_char_width(c) {
            Some(n) => n,
            None => 0,
        }
    }
}

/// The width of a text is the sum of the widths of its characters; a tab takes four
/// columns, and what has no width of its own takes none.
pub proof fn law_cols(text: Seq<char>, c: char)
    ensures
        cols(seq![]) == 0,
        cols(text.push(c)) == cols(text) + char_cols(c),
        char_cols('\t') == 4,
        c != '\t' && char_columns(c) is None ==> char_cols(c) == 0,
        c != '\t' && char_columns(c) is Some ==> char_cols(c) == char_columns(c)->0,
{
    assert(text.push(c).drop_last() == text);
}

} // verus!
