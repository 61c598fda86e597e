//! Colours and text attributes as a terminal takes them.

use vstd::prelude::*;

verus! {

/// A colour of the terminal: one of the eight basic colours, a number of the
/// 256-colour palette, or a 24-bit colour.
#[derive(Clone, Copy, Debug, PartialEq, Eq)]
pub enum Color {
    Black,
    Red,
    Green,
    Yellow,
    Blue,
    Purple,
    Cyan,
    White,
    Fixed(u8),
    RGB(u8, u8, u8),
}

/// The colours and the attributes that a piece of text is painted with.
/// Every field is independent of the others.
#[derive(Clone, Copy, Debug, PartialEq, Eq)]
pub struct TerminalStyle {
    pub foreground: Option<Color>,
    pub background: Option<Color>,
    pub is_bold: bool,
    pub is_dimmed: bool,
    pub is_italic: bool,
    pub is_underline: bool,
    pub is_blink: bool,
    pub is_reverse: bool,
    pub is_hidden: bool,
    pub is_strikethrough: bool,
}

impl TerminalStyle {
    /// The style that changes nothing: no colour, no attribute.
    pub open spec fn plain() -> TerminalStyle {
        TerminalStyle {
            foreground: None,
            background: None,
            is_bold: false,
            is_dimmed: false,
            is_italic: false,
            is_underline: false,
            is_blink: false,
            is_reverse: false,
            is_hidden: false,
            is_strikethrough: false,
        }
    }

    /// A style with no colour and no attribute.
    pub fn new() -> (style: TerminalStyle)
        ensures
            style == TerminalStyle::plain(),
    {
        TerminalStyle {
            foreground: None,
            background: None,
            is_bold: false,
            is_dimmed: false,
            is_italic: false,
            is_underline: false,
            is_blink: false,
            is_reverse: false,
            is_hidden: false,
            is_strikethrough: false,
        }
    }
}

} // verus!
