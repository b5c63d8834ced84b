//! Coloured terminal text: what a text looks like once a 24-bit colour has
//! been applied to it, and the two calls that apply one.

use vstd::prelude::*;
use colored_text::Colorize;

verus! {

/// Whether a character is a hex digit, of either case.
pub open spec fn is_hex_digit(c: char) -> bool {
    ('0' <= c && c <= '9') || ('a' <= c && c <= 'f') || ('A' <= c && c <= 'F')
}

/// Whether a text names a colour as six hex digits.
pub open spec fn is_hex_color(text: Seq<char>) -> bool {
    text.len() == 6 && forall|i: int| 0 <= i < 6 ==> is_hex_digit(#[trigger] text[i])
}

/// The value of a hex digit.
pub open spec fn hex_value(c: char) -> int {
    if '0' <= c && c <= '9' {
        c as int - '0' as int
    } else if 'a' <= c && c <= 'f' {
        c as int - 'a' as int + 10
    } else {
        c as int - 'A' as int + 10
    }
}

/// The value of the two hex digits of a colour that start at `at`.
pub open spec fn channel_value(color: Seq<char>, at: int) -> nat {
    (16 * hex_value(color[at]) + hex_value(color[at + 1])) as nat
}

/// A number in decimal digits, without leading zeros.
pub open spec fn decimal(n: nat) -> Seq<char>
    decreases n,
{
    let last = ('0' as int + n % 10) as char;
    if n < 10 {
        seq![last]
    } else {
        decimal(n / 10).push(last)
    }
}

/// The SGR parameters that select a colour given as six hex digits, for the
/// foreground (layer 38) or the background (layer 48): the layer, the mark of
/// a 24-bit colour, and the red, green and blue values in decimal.
pub open spec fn rgb_code(layer: nat, color: Seq<char>) -> Seq<char> {
    decimal(layer) + seq![';', '2', ';'] + decimal(channel_value(color, 0)) + seq![';'] + decimal(
        channel_value(color, 2),
    ) + seq![';'] + decimal(channel_value(color, 4))
}

/// The SGR layer of the foreground colour.
pub open spec fn foreground() -> nat {
    38
}

/// The SGR layer of the background colour.
pub open spec fn background() -> nat {
    48
}

/// A text between one SGR escape sequence with the parameters `code` and the
/// sequence that resets all attributes.
pub open spec fn sgr(code: Seq<char>, text: Seq<char>) -> Seq<char> {
    seq!['\x1b', '['] + code + seq!['m'] + text + seq!['\x1b', '[', '0', 'm']
}

/// `styled` is `text` as it is, or `text` in the colour `color` on `layer`.
pub open spec fn is_styled(styled: Seq<char>, text: Seq<char>, layer: nat, color: Seq<char>) -> bool {
    styled == text || styled == sgr(rgb_code(layer, color), text)
}

/// `Colorize::hex` of colored_text: the text in the foreground colour that
/// six hex digits name.
///
/// Believed of it: given six hex digits, it returns the text unchanged, which
/// is what it gives where colours are switched off or the output is no
/// terminal, or else the text between the escape sequence that selects this
/// 24-bit foreground colour and the reset sequence. Which of the two is not
/// stated.
#[verifier::external_body]
pub(crate) fn hex(text: &str, color: &str) -> (styled: String)
    requires
        is_hex_color(color@),
    ensures
        is_styled(styled@, text@, foreground(), color@),
{
    text.hex(color)
}

/// `Colorize::on_hex` of colored_text: the text on the background colour that
/// six hex digits name.
///
/// Believed of it: the same as of `hex`, with the escape sequence that
/// selects the background colour.
#[verifier::external_body]
pub(crate) fn on_hex(text: &str, color: &str) -> (styled: String)
    requires
        is_hex_color(color@),
    ensures
        is_styled(styled@, text@, background(), color@),
{
    text.on_hex(color)
}

} // verus!
