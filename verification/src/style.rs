//! Styles, as the strings of a command line or of a configuration describe
//! them.
//!
//! A style is what a piece of text is painted with, together with the
//! decoration that is drawn around it. It is made from a style string, a
//! decoration style string, and default colours.

use crate::attributes::DecorationFlag;
use crate::decoration::{
    DecorationStyle,
    DecorationWord,
    extract,
    mentions,
    mentions_word,
    strip_decoration_words,
};
use crate::error::{StyleError, StyleErrorView, outcome};
use crate::parser::{parse_ansi_term_style, parse_style};
use crate::terminal::{Color, TerminalStyle};
use crate::text::{tokenize, tokens_of};
use vstd::prelude::*;

verus! {

/// What a piece of text is painted with, and the decoration around it.
#[derive(Clone, Copy, Debug, PartialEq, Eq)]
pub struct Style {
    pub ansi_term_style: TerminalStyle,
    pub is_emph: bool,
    pub is_omitted: bool,
    pub is_raw: bool,
    pub is_syntax_highlighted: bool,
    pub decoration_style: DecorationStyle,
}

/// The characters of a string that may be absent.
pub open spec fn text_of(s: Option<&str>) -> Option<Seq<char>> {
    match s {
        Some(s) => Some(s@),
        None => None,
    }
}

/// What a decoration style string that may be absent says: no decoration
/// where it is absent or empty.
pub open spec fn decoration_of(decoration_style_string: Option<Seq<char>>, true_color: bool)
    -> Result<DecorationStyle, StyleErrorView> {
    match decoration_style_string {
        Some(s) => if s.len() == 0 {
            Ok(DecorationStyle::NoDecoration)
        } else {
            DecorationStyle::parsed(s, true_color)
        },
        None => Ok(DecorationStyle::NoDecoration),
    }
}

impl Style {
    /// The style that changes nothing.
    pub open spec fn plain() -> Style {
        Style {
            ansi_term_style: TerminalStyle::plain(),
            is_emph: false,
            is_omitted: false,
            is_raw: false,
            is_syntax_highlighted: false,
            decoration_style: DecorationStyle::NoDecoration,
        }
    }

    /// The style that a style string and a decoration style string
    /// describe. The style string is read first.
    #[verifier::opaque]
    pub open spec fn parsed(
        style_string: Seq<char>,
        foreground_default: Option<Color>,
        background_default: Option<Color>,
        decoration_style_string: Option<Seq<char>>,
        true_color: bool,
        is_emph: bool,
    ) -> Result<Style, StyleErrorView> {
        match parse_style(style_string, foreground_default, background_default, true_color) {
            Err(error) => Err(error),
            Ok((ansi_term_style, is_omitted, is_raw, is_syntax_highlighted)) => match decoration_of(
                decoration_style_string,
                true_color,
            ) {
                Err(error) => Err(error),
                Ok(decoration_style) => Ok(
                    Style {
                        ansi_term_style,
                        is_emph,
                        is_omitted,
                        is_raw,
                        is_syntax_highlighted,
                        decoration_style,
                    },
                ),
            },
        }
    }

    /// The style that a style string describes where it may hold decoration
    /// words.
    ///
    /// The decoration words are taken out and the rest is read as by
    /// `parsed`. Then the words take effect. `box`, `ol` and `ul` give the
    /// decoration their kind, and leave the style that it is drawn in.
    /// Without them, `plain` takes the decoration away. `none` takes the
    /// colours and the attributes of the text away, and leaves the
    /// decoration to the other words.
    #[verifier::opaque]
    pub open spec fn parsed_with_decoration_words(
        style_string: Seq<char>,
        foreground_default: Option<Color>,
        background_default: Option<Color>,
        decoration_style_string: Option<Seq<char>>,
        true_color: bool,
        is_emph: bool,
    ) -> Result<Style, StyleErrorView> {
        let tokens = tokens_of(style_string);
        let (plain, flags) = extract(style_string);
        match Style::parsed(
            plain,
            foreground_default,
            background_default,
            decoration_style_string,
            true_color,
            is_emph,
        ) {
            Err(error) => Err(error),
            Ok(style) => {
                let ansi_term_style = if mentions(tokens, DecorationWord::NoStyle) {
                    TerminalStyle::plain()
                } else {
                    style.ansi_term_style
                };
                let decoration_style = if flags != Set::<DecorationFlag>::empty() {
                    style.decoration_style.overlaid(flags)
                } else if mentions(tokens, DecorationWord::Plain) {
                    DecorationStyle::NoDecoration
                } else {
                    style.decoration_style
                };
                Ok(Style { ansi_term_style, decoration_style, ..style })
            },
        }
    }

    /// The style with the given foreground colour, in the text and in the
    /// decoration.
    pub open spec fn foreground_set(self, foreground: Option<Color>) -> Style {
        Style {
            ansi_term_style: TerminalStyle { foreground, ..self.ansi_term_style },
            decoration_style: self.decoration_style.foreground_set(foreground),
            ..self
        }
    }

    /// The style that `parsed_with_decoration_words` gives, with the
    /// foreground colour of the deprecated argument where there is one. The
    /// argument is read as a style string without default colours; only its
    /// foreground colour counts.
    #[verifier::opaque]
    pub open spec fn parsed_with_deprecated_foreground(
        style_string: Seq<char>,
        foreground_default: Option<Color>,
        background_default: Option<Color>,
        decoration_style_string: Option<Seq<char>>,
        deprecated_foreground_color_arg: Option<Seq<char>>,
        true_color: bool,
        is_emph: bool,
    ) -> Result<Style, StyleErrorView> {
        match Style::parsed_with_decoration_words(
            style_string,
            foreground_default,
            background_default,
            decoration_style_string,
            true_color,
            is_emph,
        ) {
            Err(error) => Err(error),
            Ok(style) => match deprecated_foreground_color_arg {
                None => Ok(style),
                Some(arg) => match parse_style(arg, None, None, true_color) {
                    Err(error) => Err(error),
                    Ok((read, _, _, _)) => Ok(style.foreground_set(read.foreground)),
                },
            },
        }
    }

    /// The style that changes nothing: no colour, no attribute, no flag and
    /// no decoration.
    pub fn new() -> (style: Style)
        ensures
            style == Style::plain(),
    {
        Style {
            ansi_term_style: TerminalStyle::new(),
            is_emph: false,
            is_omitted: false,
            is_raw: false,
            is_syntax_highlighted: false,
            decoration_style: DecorationStyle::NoDecoration,
        }
    }

    /// Makes a style from a style string, a decoration style string and
    /// default colours. A style string holds at most two colours, the
    /// foreground before the background, and any number of attributes.
    pub fn from_str(
        style_string: &str,
        foreground_default: Option<Color>,
        background_default: Option<Color>,
        decoration_style_string: Option<&str>,
        true_color: bool,
        is_emph: bool,
    ) -> (r: Result<Style, StyleError>)
        ensures
            outcome(r) == Style::parsed(
                style_string@,
                foreground_default,
                background_default,
                text_of(decoration_style_string),
                true_color,
                is_emph,
            ),
    {
        reveal(Style::parsed);
        let (ansi_term_style, is_omitted, is_raw, is_syntax_highlighted) =
            match parse_ansi_term_style(
            style_string,
            foreground_default,
            background_default,
            true_color,
        ) {
            Ok(read) => read,
            Err(error) => {
                return Err(error);
            },
        };
        let decoration_style = match decoration_style_string {
            Some(s) => if s.is_empty() {
                DecorationStyle::NoDecoration
            } else {
                match DecorationStyle::from_str(s, true_color) {
                    Ok(decoration_style) => decoration_style,
                    Err(error) => {
                        return Err(error);
                    },
                }
            },
            None => DecorationStyle::NoDecoration,
        };
        Ok(
            Style {
                ansi_term_style,
                is_emph,
                is_omitted,
                is_raw,
                is_syntax_highlighted,
                decoration_style,
            },
        )
    }

    /// Makes a style as `from_str` does, but takes `ul`, `box` and the other
    /// decoration words of the style string as said of the decoration.
    pub fn from_str_with_handling_of_special_decoration_attributes(
        style_string: &str,
        foreground_default: Option<Color>,
        background_default: Option<Color>,
        decoration_style_string: Option<&str>,
        true_color: bool,
        is_emph: bool,
    ) -> (r: Result<Style, StyleError>)
        ensures
            outcome(r) == Style::parsed_with_decoration_words(
                style_string@,
                foreground_default,
                background_default,
                text_of(decoration_style_string),
                true_color,
                is_emph,
            ),
    {
        reveal(Style::parsed_with_decoration_words);
        let tokens = tokenize(style_string);
        let (plain, special_attributes) = strip_decoration_words(&tokens);
        let mut style = match Style::from_str(
            plain.as_str(),
            foreground_default,
            background_default,
            decoration_style_string,
            true_color,
            is_emph,
        ) {
            Ok(style) => style,
            Err(error) => {
                return Err(error);
            },
        };
        if mentions_word(&tokens, DecorationWord::NoStyle) {
            style.ansi_term_style = TerminalStyle::new();
        }
        if !special_attributes.is_empty() {
            style.decoration_style = DecorationStyle::apply_special_decoration_attribute(
                style.decoration_style,
                special_attributes,
            );
        } else if mentions_word(&tokens, DecorationWord::Plain) {
            style.decoration_style = DecorationStyle::NoDecoration;
        }
        Ok(style)
    }

    /// Makes a style as `from_str_with_handling_of_special_decoration_attributes`
    /// does, and then gives it the foreground colour of the deprecated
    /// argument, which has precedence where it is present: in the text, and
    /// in the decoration where there is one.
    pub fn from_str_with_handling_of_special_decoration_attributes_and_respecting_deprecated_foreground_color_arg(
        style_string: &str,
        foreground_default: Option<Color>,
        background_default: Option<Color>,
        decoration_style_string: Option<&str>,
        deprecated_foreground_color_arg: Option<&str>,
        true_color: bool,
        is_emph: bool,
    ) -> (r: Result<Style, StyleError>)
        ensures
            outcome(r) == Style::parsed_with_deprecated_foreground(
                style_string@,
                foreground_default,
                background_default,
                text_of(decoration_style_string),
                text_of(deprecated_foreground_color_arg),
                true_color,
                is_emph,
            ),
    {
        reveal(Style::parsed_with_deprecated_foreground);
        let mut style = match Style::from_str_with_handling_of_special_decoration_attributes(
            style_string,
            foreground_default,
            background_default,
            decoration_style_string,
            true_color,
            is_emph,
        ) {
            Ok(style) => style,
            Err(error) => {
                return Err(error);
            },
        };
        if let Some(s) = deprecated_foreground_color_arg {
            let foreground_from_deprecated_arg = match parse_ansi_term_style(
                s,
                None,
                None,
                true_color,
            ) {
                Ok(read) => read.0.foreground,
                Err(error) => {
                    return Err(error);
                },
            };
            style = style.with_foreground(foreground_from_deprecated_arg);
        }
        Ok(style)
    }

    /// The style with the given foreground colour, in the text and in the
    /// decoration where there is one.
    pub fn with_foreground(self, foreground: Option<Color>) -> (style: Style)
        ensures
            style == self.foreground_set(foreground),
    {
        let mut style = self;
        style.ansi_term_style.foreground = foreground;
        style.decoration_style = style.decoration_style.with_foreground(foreground);
        style
    }

    /// The style that the decoration is drawn in, where there is a
    /// decoration.
    pub fn decoration_ansi_term_style(&self) -> (style: Option<TerminalStyle>)
        ensures
            style == self.decoration_style.carried(),
    {
        self.decoration_style.terminal_style()
    }
}

} // verus!
