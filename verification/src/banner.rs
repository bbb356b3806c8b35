//! The banner that the server shows when it starts.

use figlet_rs::FIGfont;
use vstd::prelude::*;

verus! {

/// The figure that `figlet_rs` draws of a text in its standard font, line
/// by line, or `None` where it draws none.
pub uninterp spec fn standard_figure(text: Seq<char>) -> Option<Seq<char>>;

/// What an optional string holds.
pub open spec fn text_of(figure: Option<String>) -> Option<Seq<char>> {
    match figure {
        Some(text) => Some(text@),
        None => None,
    }
}

/// `FIGfont::convert` of `figlet_rs`, on the font of `FIGfont::standard`,
/// shown through the figure's `Display`: the figure depends on the text
/// alone.
#[verifier::external_body]
fn draw_standard(text: &str) -> (figure: Option<String>)
    ensures
        text_of(figure) == standard_figure(text@),
{
    match FIGfont::standard() {
        Ok(font) => match font.convert(text) {
            Some(figure) => Some(figure.to_string()),
            None => None,
        },
        Err(_) => None,
    }
}

/// The name that the server shows.
pub open spec fn title() -> Seq<char> {
    "Chamber"@
}

/// The server's banner: its name, drawn in the standard font.
pub fn banner() -> (figure: Option<String>)
    ensures
        text_of(figure) == standard_figure(title()),
{
    draw_standard("Chamber")
}

} // verus!
