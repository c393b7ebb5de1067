//! ANSI escape sequences for 24-bit colors.
//!
//! A colorized character is preceded by one `ESC [ 38;2;r;g;b m` code
//! (or `48` instead of `38` when the background is painted), and the whole
//! stream ends in the single style reset `ESC [ 0 m`.

use vstd::prelude::*;

use crate::color::Rgb;
use crate::strutil::{dec_digits, decimal_string, push_char};
use vstd::string::StringExecFns;

verus! {

/// The opening of a 24-bit color code: `ESC [ 38;2;` for the foreground,
/// `ESC [ 48;2;` for the background.
pub open spec fn escape_prefix(background: bool) -> Seq<char> {
    if background {
        seq!['\u{1b}', '[', '4', '8', ';', '2', ';']
    } else {
        seq!['\u{1b}', '[', '3', '8', ';', '2', ';']
    }
}

/// The full control sequence that sets the foreground (or background)
/// color to `c`: prefix, the three decimal channel values separated by
/// semicolons, and the closing `m`.
pub open spec fn color_escape_spec(c: Rgb, background: bool) -> Seq<char> {
    escape_prefix(background) + dec_digits(c.r as int) + seq![';'] + dec_digits(c.g as int)
        + seq![';'] + dec_digits(c.b as int) + seq!['m']
}

/// The style reset sequence `ESC [ 0 m` that ends every colorized stream.
pub open spec fn reset_spec() -> Seq<char> {
    seq!['\u{1b}', '[', '0', 'm']
}

/// Build the color control sequence for `c`.
pub fn color_escape(c: Rgb, background: bool) -> (s: String)
    ensures
        s@ == color_escape_spec(c, background),
{
    let mut s = String::new();
    push_char(&mut s, '\u{1b}');
    push_char(&mut s, '[');
    if background {
        push_char(&mut s, '4');
    } else {
        push_char(&mut s, '3');
    }
    push_char(&mut s, '8');
    push_char(&mut s, ';');
    push_char(&mut s, '2');
    push_char(&mut s, ';');
    let r = decimal_string(c.r as usize);
    s.append(r.as_str());
    push_char(&mut s, ';');
    let g = decimal_string(c.g as usize);
    s.append(g.as_str());
    push_char(&mut s, ';');
    let b = decimal_string(c.b as usize);
    s.append(b.as_str());
    push_char(&mut s, 'm');
    assert(s@ =~= color_escape_spec(c, background));
    s
}

/// Build the style reset sequence.
pub fn reset_escape() -> (s: String)
    ensures
        s@ == reset_spec(),
{
    let mut s = String::new();
    push_char(&mut s, '\u{1b}');
    push_char(&mut s, '[');
    push_char(&mut s, '0');
    push_char(&mut s, 'm');
    assert(s@ =~= reset_spec());
    s
}

} // verus!
