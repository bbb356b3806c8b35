//! Conversions between strings and sequences of characters.

use vstd::prelude::*;

verus! {

/// `String::push` appends one character to the end of the string.
pub assume_specification[ String::push ](s: &mut String, ch: char)
    ensures
        final(s)@ == old(s)@.push(ch),
;

/// Whether a character has the Unicode property `White_Space`.
pub uninterp spec fn white_space(c: char) -> bool;

/// `char::is_whitespace` tells whether the character has the Unicode
/// property `White_Space`, which depends on the character alone.
pub assume_specification[ char::is_whitespace ](c: char) -> (answer: bool)
    ensures
        answer == white_space(c),
;

/// The characters of a string slice, in order.
pub fn str_to_char_vec(text: &str) -> (chars: Vec<char>)
    ensures
        chars@ == text@,
{
    let mut chars: Vec<char> = Vec::new();
    for ch in it: text.chars()
        invariant
            chars@ == it.seq().take(it.index() as int),
    {
        chars.push(ch);
    }
    chars
}

/// Convert a `&String` to a `Vec<char>`
pub fn string_to_char_vec(origin_string: &String) -> (chars: Vec<char>)
    ensures
        chars@ == origin_string@,
{
    str_to_char_vec(origin_string.as_str())
}

/// Convert a char array (`&[char]`) to a `String`
pub fn char_arr_to_string(char_vec: &[char]) -> (text: String)
    ensures
        text@ == char_vec@,
{
    let mut text = String::new();
    let mut i: usize = 0;
    while i < char_vec.len()
        invariant
            i <= char_vec.len(),
            text@ == char_vec@.take(i as int),
        decreases char_vec.len() - i,
    {
        text.push(char_vec[i]);
        i += 1;
        assert(char_vec@.take(i as int) == char_vec@.take(i - 1).push(char_vec@[i - 1]));
    }
    text
}

/// Convert a `&Vec<char>` to a `String`
pub fn char_vec_to_string(char_vec: &Vec<char>) -> (text: String)
    ensures
        text@ == char_vec@,
{
    char_arr_to_string(char_vec.as_slice())
}

} // verus!
