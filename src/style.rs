use colored::{Colorize, CustomColor};
use crate::text::decimal;
use vstd::prelude::*;

verus! {

/// The terminal styles the formatter uses.
#[derive(Clone, Copy, Debug, PartialEq, Eq, Structural)]
pub enum Style {
    Reversed,
    Red,
    Yellow,
    Green,
    Blue,
    /// A 24-bit color.
    Rgb(u8, u8, u8),
    Cyan,
    Bold,
}

/// The SGR parameter of a style.
pub open spec fn sgr_code(style: Style) -> Seq<char> {
    match style {
        Style::Reversed => seq!['7'],
        Style::Red => seq!['3', '1'],
        Style::Yellow => seq!['3', '3'],
        Style::Green => seq!['3', '2'],
        Style::Blue => seq!['3', '4'],
        Style::Rgb(r, g, b) => seq!['3', '8', ';', '2', ';'] + decimal(r as nat) + seq![';'] + decimal(g as nat) + seq![';']
            + decimal(b as nat),
        Style::Cyan => seq!['3', '6'],
        Style::Bold => seq!['1'],
    }
}

pub open spec fn escape() -> char {
    '\x1b'
}

/// `ESC [ code m`
pub open spec fn sgr(code: Seq<char>) -> Seq<char> {
    seq![escape(), '['] + code + seq!['m']
}

/// `ESC [ 0 m`, which clears every style.
pub open spec fn reset() -> Seq<char> {
    sgr(seq!['0'])
}

pub open spec fn has_escape(s: Seq<char>) -> bool {
    exists|i: int| 0 <= i < s.len() && s[i] == escape()
}

/// `text` wrapped in the escapes of `style`.
pub open spec fn wrapped(code: Seq<char>, text: Seq<char>) -> Seq<char> {
    sgr(code) + text + reset()
}

/// The SGR parameter of one of the sixteen basic foreground colors.
pub open spec fn basic_foreground(code: Seq<char>) -> bool {
    &&& code.len() == 2
    &&& code[0] == '3' || code[0] == '9'
    &&& '0' <= code[1] <= '7'
}

/// What may stand for `text` painted in `style`: the text itself, where the
/// terminal settings turn colors off, or the text between the style's escape
/// and a reset. A 24-bit color may come as the nearest basic color, where the
/// terminal does not announce 24-bit support.
pub open spec fn painted(style: Style, text: Seq<char>, out: Seq<char>) -> bool {
    out == text || out == wrapped(sgr_code(style), text) || (style is Rgb && exists|code: Seq<char>|
        basic_foreground(code) && #[trigger] wrapped(code, text) == out)
}

/// `out` shows `text` in `style` when `enabled`, and is `text` itself otherwise.
pub open spec fn shown(enabled: bool, style: Style, text: Seq<char>, out: Seq<char>) -> bool {
    if enabled {
        painted(style, text, out)
    } else {
        out == text
    }
}

/// Relies on colored's ColoredString and its Display: the text alone when the
/// terminal settings disable colors, else the style's escape, the text and a
/// reset (inner resets are only rewritten where the text holds an escape). A
/// 24-bit color is written `38;2;r;g;b`, or as the nearest basic color when
/// COLORTERM does not announce 24-bit support.
#[verifier::external_body]
fn colorize(text: &str, style: Style) -> (r: String)
    ensures
        !has_escape(text@) ==> painted(style, text@, r@),
{
    match style {
        Style::Reversed => text.reversed(),
        Style::Red => text.red(),
        Style::Yellow => text.yellow(),
        Style::Green => text.green(),
        Style::Blue => text.blue(),
        Style::Rgb(r, g, b) => text.custom_color(CustomColor::new(r, g, b)),
        Style::Cyan => text.cyan(),
        Style::Bold => text.bold(),
    }.to_string()
}

/// `text` painted in `style` when `enabled`, else unchanged.
pub fn paint(text: &str, style: Style, enabled: bool) -> (r: String)
    ensures
        !has_escape(text@) ==> shown(enabled, style, text@, r@),
        !enabled ==> r@ == text@,
{
    if enabled {
        colorize(text, style)
    } else {
        text.to_owned()
    }
}

} // verus!
