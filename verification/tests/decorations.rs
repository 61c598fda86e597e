use term_style::attributes::{DecorationAttributes, DecorationFlag, DecorationKind};
use term_style::decoration::{extract_special_decoration_attribute, DecorationStyle};
use term_style::error::StyleError;
use term_style::terminal::{Color, TerminalStyle};

#[test]
fn test_extract_special_decoration_attribute() {
    assert_eq!(
        extract_special_decoration_attribute(""),
        ("".to_string(), DecorationAttributes::new())
    );
    assert_eq!(
        extract_special_decoration_attribute("box"),
        ("".to_string(), DecorationAttributes::new().insert(DecorationFlag::Box))
    );
    assert_eq!(extract_special_decoration_attribute("").1.kind(), DecorationKind::NoDecoration);
    assert_eq!(extract_special_decoration_attribute("box").1.kind(), DecorationKind::Box);
}

#[test]
fn the_decoration_words_are_taken_out_and_the_rest_is_joined() {
    let only = |flag| DecorationAttributes::new().insert(flag);
    assert_eq!(
        extract_special_decoration_attribute("box ul green"),
        (
            "green".to_string(),
            only(DecorationFlag::Box).insert(DecorationFlag::Underline)
        )
    );
    assert_eq!(
        extract_special_decoration_attribute("  Bold\t'OL'  blue \"Overline\"  "),
        ("bold blue".to_string(), only(DecorationFlag::Overline))
    );
    assert_eq!(
        extract_special_decoration_attribute("underline red ul"),
        ("red".to_string(), only(DecorationFlag::Underline))
    );
    assert_eq!(
        extract_special_decoration_attribute("none red plain green"),
        ("red green".to_string(), DecorationAttributes::new())
    );
    assert_eq!(
        extract_special_decoration_attribute("omit underoverline raw syntax"),
        ("omit underoverline raw syntax".to_string(), DecorationAttributes::new())
    );
    // An empty token stays among the tokens that are joined.
    assert_eq!(
        extract_special_decoration_attribute("'' red \"\""),
        (" red ".to_string(), DecorationAttributes::new())
    );
    assert_eq!(
        extract_special_decoration_attribute("BÖX ul É"),
        ("böx é".to_string(), only(DecorationFlag::Underline))
    );
}

#[test]
fn a_set_of_flags_has_its_bits_and_its_kind() {
    let empty = DecorationAttributes::new();
    assert!(empty.is_empty());
    assert_eq!(empty.bits(), 0);
    assert_eq!(empty.kind(), DecorationKind::NoDecoration);
    let flags = [DecorationFlag::Box, DecorationFlag::Overline, DecorationFlag::Underline];
    for (i, flag) in flags.iter().enumerate() {
        let one = empty.insert(*flag);
        assert_eq!(one.bits(), 1 << i);
        assert_eq!(flag.bit(), 1 << i);
        assert!(!one.is_empty());
        assert_eq!(one.insert(*flag), one);
        for other in flags {
            assert_eq!(one.contains(other), other == *flag);
        }
    }
    let boxed = empty.insert(DecorationFlag::Box);
    let over = empty.insert(DecorationFlag::Overline);
    let under = empty.insert(DecorationFlag::Underline);
    assert_eq!(boxed.kind(), DecorationKind::Box);
    assert_eq!(over.kind(), DecorationKind::Overline);
    assert_eq!(under.kind(), DecorationKind::Underline);
    assert_eq!(over.insert(DecorationFlag::Underline).kind(), DecorationKind::Underoverline);
    assert_eq!(under.insert(DecorationFlag::Overline).bits(), 6);
    // A box takes the lines in.
    assert_eq!(boxed.insert(DecorationFlag::Underline).kind(), DecorationKind::Box);
    assert_eq!(boxed.insert(DecorationFlag::Overline).kind(), DecorationKind::Box);
    assert_eq!(
        boxed.insert(DecorationFlag::Overline).insert(DecorationFlag::Underline).kind(),
        DecorationKind::Box
    );
    assert_eq!(
        boxed.insert(DecorationFlag::Overline).insert(DecorationFlag::Underline).bits(),
        7
    );
}

#[test]
fn a_decoration_style_string_gives_the_decoration_and_its_style() {
    let green = TerminalStyle { foreground: Some(Color::Fixed(2)), ..TerminalStyle::new() };
    assert_eq!(DecorationStyle::from_str("box green", false), Ok(DecorationStyle::Box(green)));
    assert_eq!(
        DecorationStyle::from_str("green ul", false),
        Ok(DecorationStyle::Underline(green))
    );
    assert_eq!(
        DecorationStyle::from_str("underline green", false),
        Ok(DecorationStyle::Underline(green))
    );
    assert_eq!(
        DecorationStyle::from_str("ol green", false),
        Ok(DecorationStyle::Overline(green))
    );
    assert_eq!(
        DecorationStyle::from_str("green overline", false),
        Ok(DecorationStyle::Overline(green))
    );
    assert_eq!(
        DecorationStyle::from_str("ul green ol", false),
        Ok(DecorationStyle::Underoverline(green))
    );
    assert_eq!(
        DecorationStyle::from_str("box", false),
        Ok(DecorationStyle::Box(TerminalStyle::new()))
    );
    assert_eq!(
        DecorationStyle::from_str("Box bold #010203 7", true),
        Ok(DecorationStyle::Box(TerminalStyle {
            foreground: Some(Color::RGB(1, 2, 3)),
            background: Some(Color::Fixed(7)),
            is_bold: true,
            ..TerminalStyle::new()
        }))
    );
    // The word for a line is said of the decoration, not of its style.
    assert_eq!(
        DecorationStyle::from_str("ul", false),
        Ok(DecorationStyle::Underline(TerminalStyle::new()))
    );
}

#[test]
fn a_box_with_lines_is_a_box() {
    let green = TerminalStyle { foreground: Some(Color::Fixed(2)), ..TerminalStyle::new() };
    assert_eq!(DecorationStyle::from_str("box ul green", false), Ok(DecorationStyle::Box(green)));
    assert_eq!(DecorationStyle::from_str("ol green box", false), Ok(DecorationStyle::Box(green)));
    assert_eq!(
        DecorationStyle::from_str("ul ol box omit", false),
        Ok(DecorationStyle::Box(TerminalStyle::new()))
    );
}

#[test]
fn without_a_decoration_word_there_is_no_decoration() {
    for s in ["", "   ", "none", "plain", "omit", "green", "bold green", "none green", "plain omit"] {
        assert_eq!(DecorationStyle::from_str(s, false), Ok(DecorationStyle::NoDecoration), "{:?}", s);
    }
}

#[test]
fn raw_and_syntax_are_refused_in_a_decoration_style() {
    assert_eq!(DecorationStyle::from_str("raw red", false), Err(StyleError::RawInDecoration));
    assert_eq!(
        DecorationStyle::from_str("syntax red", false),
        Err(StyleError::SyntaxInDecoration)
    );
    assert_eq!(DecorationStyle::from_str("box raw", false), Err(StyleError::RawInDecoration));
    assert_eq!(DecorationStyle::from_str("ul syntax", false), Err(StyleError::SyntaxInDecoration));
    assert_eq!(DecorationStyle::from_str("raw", false), Err(StyleError::RawInDecoration));
    // Where both stand in the string, `raw` is the one reported.
    assert_eq!(
        DecorationStyle::from_str("syntax raw box", false),
        Err(StyleError::RawInDecoration)
    );
}

#[test]
fn an_error_of_the_style_comes_before_raw_and_syntax() {
    assert_eq!(
        DecorationStyle::from_str("box raw red green blue", false),
        Err(StyleError::InvalidStyleString { style_string: "raw red green blue".to_string() })
    );
    assert_eq!(
        DecorationStyle::from_str("raw red syntax ul", false),
        Err(StyleError::SyntaxAsBackground)
    );
    assert_eq!(
        DecorationStyle::from_str("box underoverline", false),
        Err(StyleError::InvalidColor { token: "underoverline".to_string() })
    );
}

#[test]
fn an_empty_token_is_lost_when_the_rest_is_joined() {
    // Read as a style string the empty token names no colour; behind the
    // decoration words it is gone.
    assert_eq!(
        DecorationStyle::from_str("box '' red", false),
        Ok(DecorationStyle::Box(TerminalStyle {
            foreground: Some(Color::Fixed(1)),
            ..TerminalStyle::new()
        }))
    );
}

#[test]
fn a_decoration_takes_another_kind_and_keeps_its_style() {
    let green = TerminalStyle { foreground: Some(Color::Fixed(2)), is_bold: true, ..TerminalStyle::new() };
    let empty = DecorationAttributes::new();
    let boxed = empty.insert(DecorationFlag::Box);
    let under = empty.insert(DecorationFlag::Underline);
    let over = empty.insert(DecorationFlag::Overline);
    let both = under.insert(DecorationFlag::Overline);
    let all = [
        DecorationStyle::Box(green),
        DecorationStyle::Underline(green),
        DecorationStyle::Overline(green),
        DecorationStyle::Underoverline(green),
    ];
    for decoration in all {
        assert_eq!(
            DecorationStyle::apply_special_decoration_attribute(decoration, boxed),
            DecorationStyle::Box(green)
        );
        assert_eq!(
            DecorationStyle::apply_special_decoration_attribute(decoration, under),
            DecorationStyle::Underline(green)
        );
        assert_eq!(
            DecorationStyle::apply_special_decoration_attribute(decoration, over),
            DecorationStyle::Overline(green)
        );
        assert_eq!(
            DecorationStyle::apply_special_decoration_attribute(decoration, both),
            DecorationStyle::Underoverline(green)
        );
        assert_eq!(
            DecorationStyle::apply_special_decoration_attribute(decoration, empty),
            DecorationStyle::NoDecoration
        );
        assert_eq!(decoration.terminal_style(), Some(green));
    }
    assert_eq!(
        DecorationStyle::apply_special_decoration_attribute(DecorationStyle::NoDecoration, boxed),
        DecorationStyle::Box(TerminalStyle::new())
    );
    assert_eq!(
        DecorationStyle::apply_special_decoration_attribute(DecorationStyle::NoDecoration, empty),
        DecorationStyle::NoDecoration
    );
    assert_eq!(DecorationStyle::NoDecoration.terminal_style(), None);
}

#[test]
fn a_decoration_takes_a_foreground_and_keeps_the_rest() {
    let green = TerminalStyle {
        foreground: Some(Color::Fixed(2)),
        background: Some(Color::Fixed(3)),
        is_bold: true,
        ..TerminalStyle::new()
    };
    let red = TerminalStyle { foreground: Some(Color::Red), ..green };
    let none = TerminalStyle { foreground: None, ..green };
    assert_eq!(
        DecorationStyle::Box(green).with_foreground(Some(Color::Red)),
        DecorationStyle::Box(red)
    );
    assert_eq!(
        DecorationStyle::Underline(green).with_foreground(Some(Color::Red)),
        DecorationStyle::Underline(red)
    );
    assert_eq!(
        DecorationStyle::Overline(green).with_foreground(Some(Color::Red)),
        DecorationStyle::Overline(red)
    );
    assert_eq!(
        DecorationStyle::Underoverline(green).with_foreground(Some(Color::Red)),
        DecorationStyle::Underoverline(red)
    );
    assert_eq!(
        DecorationStyle::Underoverline(green).with_foreground(None),
        DecorationStyle::Underoverline(none)
    );
    assert_eq!(
        DecorationStyle::NoDecoration.with_foreground(Some(Color::Red)),
        DecorationStyle::NoDecoration
    );
    assert_eq!(
        DecorationStyle::new(DecorationKind::Overline, green),
        DecorationStyle::Overline(green)
    );
    assert_eq!(
        DecorationStyle::new(DecorationKind::NoDecoration, green),
        DecorationStyle::NoDecoration
    );
}

#[test]
fn a_decoration_written_out_is_read_back() {
    let style = TerminalStyle {
        foreground: Some(Color::Fixed(12)),
        background: None,
        is_bold: true,
        is_dimmed: true,
        is_italic: true,
        is_underline: false,
        is_blink: true,
        is_reverse: true,
        is_hidden: true,
        is_strikethrough: true,
    };
    let written = "blink bold dim hidden italic reverse strike 12 normal";
    assert_eq!(
        DecorationStyle::from_str(&format!("box {}", written), false),
        Ok(DecorationStyle::Box(style))
    );
    assert_eq!(
        DecorationStyle::from_str(&format!("ul {}", written), false),
        Ok(DecorationStyle::Underline(style))
    );
    assert_eq!(
        DecorationStyle::from_str(&format!("ol {}", written), false),
        Ok(DecorationStyle::Overline(style))
    );
    assert_eq!(
        DecorationStyle::from_str(&format!("ul ol {}", written), false),
        Ok(DecorationStyle::Underoverline(style))
    );
    assert_eq!(DecorationStyle::from_str("", false), Ok(DecorationStyle::NoDecoration));
}
