use vstd::prelude::*;

use crate::editor::max;

verus! {

/// The number of terminal columns the characters `s` take.
pub uninterp spec fn str_width(s: Seq<char>) -> usize;

/// Relies on `unicode_width::UnicodeWidthStr::width` for `str`: the number of
/// terminal columns the string takes, a function of its characters alone.
#[verifier::external_body]
fn display_width(s: &str) -> (r: usize)
    ensures
        r == str_width(s@),
{
    unicode_width::UnicodeWidthStr::width(s)
}

/// The number of spaces before a text `text_width` columns wide so that it
/// stands centred on a terminal `term_width` columns wide; none when it is
/// wider than half the terminal.
pub open spec fn padding_for(term_width: int, text_width: int) -> int {
    max(term_width / 2 - text_width / 2, 0)
}

/// The spaces before a text `text_width` columns wide that centre it.
pub fn centering_padding(term_width: u16, text_width: usize) -> (r: u16)
    ensures
        r == padding_for(term_width as int, text_width as int),
{
    let half = term_width / 2;
    let t = text_width / 2;
    if t >= half as usize {
        0
    } else {
        half - t as u16
    }
}

/// The spaces before `message` that centre it on a terminal `term_width`
/// columns wide.
pub fn message_padding(term_width: u16, message: &str) -> (r: u16)
    ensures
        r == padding_for(term_width as int, str_width(message@) as int),
{
    let w = display_width(message);
    centering_padding(term_width, w)
}

} // verus!
