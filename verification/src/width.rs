//! Display widths of characters and texts, as the terminal counts columns.

use unicode_width::UnicodeWidthChar;
use unicode_width::UnicodeWidthStr;
use vstd::prelude::*;

verus! {

/// The number of columns that `unicode_width` gives a character, or `None`
/// for a control character.
pub uninterp spec fn char_width(c: char) -> Option<usize>;

/// The number of columns that `unicode_width` gives a text as a whole.
pub uninterp spec fn str_width(text: Seq<char>) -> usize;

/// The widest that a single character can be.
pub const MAX_CHAR_WIDTH: usize = 3;

/// `UnicodeWidthChar::width` of `unicode_width`: the width of one
/// character, which depends on the character alone and is at most three
/// columns.
#[verifier::external_body]
pub(crate) fn width_of_char(c: char) -> (width: Option<usize>)
    ensures
        width == char_width(c),
        width matches Some(columns) ==> columns <= MAX_CHAR_WIDTH,
{
    UnicodeWidthChar::width(c)
}

/// `UnicodeWidthStr::width` of `unicode_width`: the width of a text, which
/// depends on its characters alone.
#[verifier::external_body]
pub(crate) fn width_of_str(text: &str) -> (width: usize)
    ensures
        width == str_width(text@),
{
    UnicodeWidthStr::width(text)
}

/// The columns that a character takes in a line: its width, and none for a
/// control character.
pub open spec fn columns(c: char) -> u8 {
    match char_width(c) {
        Some(width) if width <= MAX_CHAR_WIDTH => width as u8,
        _ => 0,
    }
}

/// The columns of each character of a text.
pub open spec fn columns_of(text: Seq<char>) -> Seq<u8> {
    text.map_values(|c: char| columns(c))
}

/// The columns that a character takes in a line.
pub fn char_columns(c: char) -> (width: u8)
    ensures
        width == columns(c),
        width <= MAX_CHAR_WIDTH,
{
    match width_of_char(c) {
        Some(width) => width as u8,
        None => 0,
    }
}

/// The columns of each character of `chars`.
pub fn columns_of_chars(chars: &[char]) -> (widths: Vec<u8>)
    ensures
        widths@ == columns_of(chars@),
{
    let mut widths: Vec<u8> = Vec::new();
    let mut i: usize = 0;
    while i < chars.len()
        invariant
            i <= chars.len(),
            widths@ == columns_of(chars@.take(i as int)),
        decreases chars.len() - i,
    {
        widths.push(char_columns(chars[i]));
        i += 1;
        assert(columns_of(chars@.take(i as int)) == columns_of(chars@.take(i - 1)).push(
            columns(chars@[i - 1]),
        ));
    }
    assert(chars@.take(chars.len() as int) == chars@);
    widths
}

} // verus!
