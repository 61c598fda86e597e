//! The colour that a token of a style string names.
//!
//! A token names a colour in one of these ways: `normal` stands for no colour
//! and `auto` for the default that the caller hands in; the sixteen ANSI
//! colours have names; a decimal number from 0 to 255 is a number of the
//! 256-colour palette; `#` and six hexadecimal digits are a 24-bit colour,
//! which a terminal without true colour gets as the nearest colour of the
//! palette.

use crate::error::{StyleError, StyleErrorView, outcome};
use crate::terminal::Color;
use crate::text::{lowercase, lowercase_chars, string_of, word_is};
use vstd::prelude::*;

verus! {

/// The number of the 256-colour palette that `ansi_colours::ansi256_from_rgb`
/// picks for a 24-bit colour.
pub uninterp spec fn ansi256_of(r: u8, g: u8, b: u8) -> u8;

/// `ansi_colours::ansi256_from_rgb`, on the colour as a triple: the palette
/// number is a function of the three components alone, and it is known here
/// only under the name `ansi256_of`.
#[verifier::external_body]
fn ansi256_from_rgb(r: u8, g: u8, b: u8) -> (index: u8)
    ensures
        index == ansi256_of(r, g, b),
{
    ansi_colours::ansi256_from_rgb((r, g, b))
}

/// The palette number of an ANSI colour name.
pub open spec fn ansi_color_number(name: Seq<char>) -> Option<u8> {
    if name == "black"@ {
        Some(0u8)
    } else if name == "red"@ {
        Some(1u8)
    } else if name == "green"@ {
        Some(2u8)
    } else if name == "yellow"@ {
        Some(3u8)
    } else if name == "blue"@ {
        Some(4u8)
    } else if name == "magenta"@ {
        Some(5u8)
    } else if name == "purple"@ {
        Some(5u8)
    } else if name == "cyan"@ {
        Some(6u8)
    } else if name == "white"@ {
        Some(7u8)
    } else if name == "bright-black"@ {
        Some(8u8)
    } else if name == "bright-red"@ {
        Some(9u8)
    } else if name == "bright-green"@ {
        Some(10u8)
    } else if name == "bright-yellow"@ {
        Some(11u8)
    } else if name == "bright-blue"@ {
        Some(12u8)
    } else if name == "bright-magenta"@ {
        Some(13u8)
    } else if name == "bright-purple"@ {
        Some(13u8)
    } else if name == "bright-cyan"@ {
        Some(14u8)
    } else if name == "bright-white"@ {
        Some(15u8)
    } else {
        None
    }
}

/// The decimal digits.
pub open spec fn is_digit(c: char) -> bool {
    '0' <= c && c <= '9'
}

/// The value of a decimal digit; of any other character, 0.
pub open spec fn digit_value(c: char) -> nat {
    if is_digit(c) {
        (c as u8 - 48) as nat
    } else {
        0
    }
}

/// The number that a sequence of decimal digits writes.
pub open spec fn decimal_value(digits: Seq<char>) -> nat
    decreases digits.len(),
{
    if digits.len() == 0 {
        0
    } else {
        10 * decimal_value(digits.drop_last()) + digit_value(digits.last())
    }
}

/// The digits of a number token: the token without one leading `+`.
pub open spec fn unsigned_part(token: Seq<char>) -> Seq<char> {
    if token.len() > 0 && token[0] == '+' {
        token.drop_first()
    } else {
        token
    }
}

/// The palette number that a token writes in decimal: one or more digits,
/// after at most one `+`, with a value of at most 255.
pub open spec fn color_code(token: Seq<char>) -> Option<u8> {
    let digits = unsigned_part(token);
    if digits.len() > 0 && (forall|i: int| 0 <= i < digits.len() ==> is_digit(#[trigger] digits[i]))
        && decimal_value(digits) <= 255 {
        Some(decimal_value(digits) as u8)
    } else {
        None
    }
}

/// The value of a hexadecimal digit.
pub open spec fn hex_digit(c: char) -> Option<u8> {
    if '0' <= c && c <= '9' {
        Some((c as u8 - 48) as u8)
    } else if 'a' <= c && c <= 'f' {
        Some((c as u8 - 87) as u8)
    } else if 'A' <= c && c <= 'F' {
        Some((c as u8 - 55) as u8)
    } else {
        None
    }
}

/// The byte that two hexadecimal digits write.
pub open spec fn hex_byte(high: char, low: char) -> Option<u8> {
    match (hex_digit(high), hex_digit(low)) {
        (Some(h), Some(l)) => Some((16 * h + l) as u8),
        _ => None,
    }
}

/// The three components that `#` and six hexadecimal digits write.
pub open spec fn hex_triple(token: Seq<char>) -> Option<(u8, u8, u8)> {
    if token.len() == 7 && token[0] == '#' {
        match (
            hex_byte(token[1], token[2]),
            hex_byte(token[3], token[4]),
            hex_byte(token[5], token[6]),
        ) {
            (Some(r), Some(g), Some(b)) => Some((r, g, b)),
            _ => None,
        }
    } else {
        None
    }
}

/// A 24-bit colour as the terminal can show it: itself with true colour, else
/// the palette colour that comes nearest.
pub open spec fn rgb_color(r: u8, g: u8, b: u8, true_color: bool) -> Color {
    if true_color {
        Color::RGB(r, g, b)
    } else {
        Color::Fixed(ansi256_of(r, g, b))
    }
}

/// The colour that a token names: `None` where it names none, `Some(None)`
/// where it asks for no colour.
#[verifier::opaque]
pub open spec fn resolve_color(token: Seq<char>, default: Option<Color>, true_color: bool)
    -> Option<Option<Color>> {
    if token == "normal"@ {
        Some(None)
    } else if token == "auto"@ {
        Some(default)
    } else if token.len() > 0 && token[0] == '#' {
        match hex_triple(token) {
            Some((r, g, b)) => Some(Some(rgb_color(r, g, b, true_color))),
            None => None,
        }
    } else if color_code(token) is Some {
        Some(Some(Color::Fixed(color_code(token).unwrap())))
    } else if ansi_color_number(token) is Some {
        Some(Some(Color::Fixed(ansi_color_number(token).unwrap())))
    } else {
        None
    }
}

/// What resolving a token gives its caller: the colour, or the token as an
/// error.
pub open spec fn color_outcome(token: Seq<char>, default: Option<Color>, true_color: bool)
    -> Result<Option<Color>, StyleErrorView> {
    match resolve_color(token, default, true_color) {
        Some(color) => Ok(color),
        None => Err(StyleErrorView::InvalidColor { token }),
    }
}

/// A number does not get smaller when digits are written behind it.
pub proof fn lemma_decimal_value_grows(digits: Seq<char>, n: int)
    requires
        0 <= n <= digits.len(),
    ensures
        decimal_value(digits.take(n)) <= decimal_value(digits),
    decreases digits.len() - n,
{
    if n == digits.len() {
        assert(digits.take(n) =~= digits);
    } else {
        lemma_decimal_value_grows(digits.drop_last(), n);
        assert(digits.drop_last().take(n) =~= digits.take(n));
    }
}

/// The palette number of an ANSI colour name in lower case.
fn name_number(name: &Vec<char>) -> (r: Option<u8>)
    ensures
        r == ansi_color_number(name@),
{
    if word_is(name, "black") {
        Some(0)
    } else if word_is(name, "red") {
        Some(1)
    } else if word_is(name, "green") {
        Some(2)
    } else if word_is(name, "yellow") {
        Some(3)
    } else if word_is(name, "blue") {
        Some(4)
    } else if word_is(name, "magenta") {
        Some(5)
    } else if word_is(name, "purple") {
        Some(5)
    } else if word_is(name, "cyan") {
        Some(6)
    } else if word_is(name, "white") {
        Some(7)
    } else if word_is(name, "bright-black") {
        Some(8)
    } else if word_is(name, "bright-red") {
        Some(9)
    } else if word_is(name, "bright-green") {
        Some(10)
    } else if word_is(name, "bright-yellow") {
        Some(11)
    } else if word_is(name, "bright-blue") {
        Some(12)
    } else if word_is(name, "bright-magenta") {
        Some(13)
    } else if word_is(name, "bright-purple") {
        Some(13)
    } else if word_is(name, "bright-cyan") {
        Some(14)
    } else if word_is(name, "bright-white") {
        Some(15)
    } else {
        None
    }
}

/// The palette number that a token writes in decimal.
#[verifier::rlimit(20)]
fn parse_color_code(token: &Vec<char>) -> (r: Option<u8>)
    ensures
        r == color_code(token@),
{
    let start: usize = if token.len() > 0 && token[0] == '+' {
        1
    } else {
        0
    };
    let ghost digits = unsigned_part(token@);
    assert(digits =~= token@.skip(start as int));
    if start >= token.len() {
        return None;
    }
    let mut value: u16 = 0;
    let mut i: usize = start;
    assert(digits.take(0) =~= Seq::<char>::empty());
    while i < token.len()
        invariant
            start <= i <= token.len(),
            digits == token@.skip(start as int),
            digits == unsigned_part(token@),
            value <= 255,
            value == decimal_value(digits.take(i - start)),
            forall|k: int| 0 <= k < i - start ==> is_digit(#[trigger] digits[k]),
        decreases token.len() - i,
    {
        let c = token[i];
        assert(c == digits[i - start]);
        if !('0' <= c && c <= '9') {
            assert(!is_digit(digits[i - start]));
            return None;
        }
        assert(digits.take(i - start + 1).drop_last() =~= digits.take(i - start));
        value = value * 10 + ((c as u8) - 48) as u16;
        assert(value == decimal_value(digits.take(i - start + 1)));
        if value > 255 {
            proof {
                lemma_decimal_value_grows(digits, i - start + 1);
            }
            return None;
        }
        i += 1;
    }
    assert(digits.take(digits.len() as int) =~= digits);
    Some(value as u8)
}

/// The value of a hexadecimal digit.
fn parse_hex_digit(c: char) -> (r: Option<u8>)
    ensures
        r == hex_digit(c),
{
    if '0' <= c && c <= '9' {
        Some((c as u8) - 48)
    } else if 'a' <= c && c <= 'f' {
        Some((c as u8) - 87)
    } else if 'A' <= c && c <= 'F' {
        Some((c as u8) - 55)
    } else {
        None
    }
}

/// The byte that two hexadecimal digits write.
fn parse_hex_byte(high: char, low: char) -> (r: Option<u8>)
    ensures
        r == hex_byte(high, low),
{
    match (parse_hex_digit(high), parse_hex_digit(low)) {
        (Some(h), Some(l)) => Some(16 * h + l),
        _ => None,
    }
}

/// The three components that `#` and six hexadecimal digits write.
fn parse_hex_triple(token: &Vec<char>) -> (r: Option<(u8, u8, u8)>)
    ensures
        r == hex_triple(token@),
{
    if token.len() == 7 && token[0] == '#' {
        match (
            parse_hex_byte(token[1], token[2]),
            parse_hex_byte(token[3], token[4]),
            parse_hex_byte(token[5], token[6]),
        ) {
            (Some(r), Some(g), Some(b)) => Some((r, g, b)),
            _ => None,
        }
    } else {
        None
    }
}

/// The colour that stands for a 24-bit colour on this terminal.
pub fn color_from_rgb(r: u8, g: u8, b: u8, true_color: bool) -> (color: Color)
    ensures
        color == rgb_color(r, g, b, true_color),
{
    if true_color {
        Color::RGB(r, g, b)
    } else {
        Color::Fixed(ansi256_from_rgb(r, g, b))
    }
}

/// The colour that a token names, where the token is already in lower case.
pub fn resolve_token(token: &Vec<char>, default: Option<Color>, true_color: bool) -> (r: Option<
    Option<Color>,
>)
    ensures
        r == resolve_color(token@, default, true_color),
{
    reveal(resolve_color);
    if word_is(token, "normal") {
        Some(None)
    } else if word_is(token, "auto") {
        Some(default)
    } else if token.len() > 0 && token[0] == '#' {
        match parse_hex_triple(token) {
            Some((r, g, b)) => Some(Some(color_from_rgb(r, g, b, true_color))),
            None => None,
        }
    } else {
        match parse_color_code(token) {
            Some(code) => Some(Some(Color::Fixed(code))),
            None => match name_number(token) {
                Some(number) => Some(Some(Color::Fixed(number))),
                None => None,
            },
        }
    }
}

/// The palette number of an ANSI colour name, whatever the case of its
/// letters: 0 to 7 for `black`, `red`, `green`, `yellow`, `blue`, `magenta`
/// or `purple`, `cyan` and `white`, and 8 to 15 for the same names behind
/// `bright-`.
pub fn ansi_color_name_to_number(name: &str) -> (r: Option<u8>)
    ensures
        r == ansi_color_number(lowercase(name@)),
{
    let lowered = lowercase_chars(name);
    name_number(&lowered)
}

/// The colour that `arg` names, whatever the case of its letters. `default`
/// is the colour that `auto` stands for.
pub fn color_from_rgb_or_ansi_code_with_default(
    arg: &str,
    default: Option<Color>,
    true_color: bool,
) -> (r: Result<Option<Color>, StyleError>)
    ensures
        outcome(r) == color_outcome(lowercase(arg@), default, true_color),
{
    let lowered = lowercase_chars(arg);
    match resolve_token(&lowered, default, true_color) {
        Some(color) => Ok(color),
        None => Err(StyleError::InvalidColor { token: string_of(&lowered) }),
    }
}

} // verus!
