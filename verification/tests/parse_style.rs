use term_style::color::ansi_color_name_to_number;
use term_style::error::StyleError;
use term_style::parser::parse_ansi_term_style;
use term_style::terminal::{Color, TerminalStyle};

#[test]
fn test_parse_ansi_term_style() {
    assert_eq!(
        parse_ansi_term_style("", None, None, false),
        Ok((TerminalStyle::new(), false, false, false))
    );
    assert_eq!(
        parse_ansi_term_style("red", None, None, false),
        Ok((
            TerminalStyle {
                foreground: Some(Color::Fixed(ansi_color_name_to_number("red").unwrap())),
                ..TerminalStyle::new()
            },
            false,
            false,
            false
        ))
    );
    assert_eq!(
        parse_ansi_term_style("red green", None, None, false),
        Ok((
            TerminalStyle {
                foreground: Some(Color::Fixed(ansi_color_name_to_number("red").unwrap())),
                background: Some(Color::Fixed(ansi_color_name_to_number("green").unwrap())),
                ..TerminalStyle::new()
            },
            false,
            false,
            false
        ))
    );
    assert_eq!(
        parse_ansi_term_style("bold red underline green blink", None, None, false),
        Ok((
            TerminalStyle {
                foreground: Some(Color::Fixed(ansi_color_name_to_number("red").unwrap())),
                background: Some(Color::Fixed(ansi_color_name_to_number("green").unwrap())),
                is_blink: true,
                is_bold: true,
                is_underline: true,
                ..TerminalStyle::new()
            },
            false,
            false,
            false
        ))
    );
}

#[test]
fn test_parse_ansi_term_style_with_special_syntax_color() {
    assert_eq!(
        parse_ansi_term_style("syntax", None, None, false),
        Ok((TerminalStyle::new(), false, false, true))
    );
    assert_eq!(
        parse_ansi_term_style("syntax italic white hidden", None, None, false),
        Ok((
            TerminalStyle {
                background: Some(Color::Fixed(ansi_color_name_to_number("white").unwrap())),
                is_italic: true,
                is_hidden: true,
                ..TerminalStyle::new()
            },
            false,
            false,
            true
        ))
    );
    assert_eq!(
        parse_ansi_term_style("bold syntax italic white hidden", None, None, false),
        Ok((
            TerminalStyle {
                background: Some(Color::Fixed(ansi_color_name_to_number("white").unwrap())),
                is_bold: true,
                is_italic: true,
                is_hidden: true,
                ..TerminalStyle::new()
            },
            false,
            false,
            true
        ))
    );
}

#[test]
fn test_parse_ansi_term_style_with_special_omit_attribute() {
    assert_eq!(
        parse_ansi_term_style("omit", None, None, false),
        Ok((TerminalStyle::new(), true, false, false))
    );
    // It doesn't make sense for omit to be combined with anything else, but it is not an error.
    assert_eq!(
        parse_ansi_term_style("omit syntax italic white hidden", None, None, false),
        Ok((
            TerminalStyle {
                background: Some(Color::Fixed(ansi_color_name_to_number("white").unwrap())),
                is_italic: true,
                is_hidden: true,
                ..TerminalStyle::new()
            },
            true,
            false,
            true
        ))
    );
}

#[test]
fn test_parse_ansi_term_style_with_special_raw_attribute() {
    assert_eq!(
        parse_ansi_term_style("raw", None, None, false),
        Ok((TerminalStyle::new(), false, true, false))
    );
    // It doesn't make sense for raw to be combined with anything else, but it is not an error.
    assert_eq!(
        parse_ansi_term_style("raw syntax italic white hidden", None, None, false),
        Ok((
            TerminalStyle {
                background: Some(Color::Fixed(ansi_color_name_to_number("white").unwrap())),
                is_italic: true,
                is_hidden: true,
                ..TerminalStyle::new()
            },
            false,
            true,
            true
        ))
    );
}

#[test]
fn the_names_of_the_test_colours_have_their_numbers() {
    assert_eq!(ansi_color_name_to_number("red"), Some(1));
    assert_eq!(ansi_color_name_to_number("green"), Some(2));
    assert_eq!(ansi_color_name_to_number("white"), Some(7));
}

#[test]
fn every_attribute_word_sets_its_attribute() {
    let all = parse_ansi_term_style(
        "blink bold dim hidden italic reverse strike ul",
        None,
        None,
        false,
    );
    assert_eq!(
        all,
        Ok((
            TerminalStyle {
                foreground: None,
                background: None,
                is_bold: true,
                is_dimmed: true,
                is_italic: true,
                is_underline: true,
                is_blink: true,
                is_reverse: true,
                is_hidden: true,
                is_strikethrough: true,
            },
            false,
            false,
            false
        ))
    );
    let words = [
        "blink", "bold", "dim", "hidden", "italic", "reverse", "strike", "ul", "underline",
    ];
    for word in words {
        let (style, omitted, raw, syntax) =
            parse_ansi_term_style(word, None, None, false).unwrap();
        let expected = TerminalStyle {
            is_blink: word == "blink",
            is_bold: word == "bold",
            is_dimmed: word == "dim",
            is_hidden: word == "hidden",
            is_italic: word == "italic",
            is_reverse: word == "reverse",
            is_strikethrough: word == "strike",
            is_underline: word == "ul" || word == "underline",
            ..TerminalStyle::new()
        };
        assert_eq!(style, expected);
        assert!(!omitted && !raw && !syntax);
    }
}

#[test]
fn an_attribute_word_may_stand_anywhere_and_any_number_of_times() {
    let expected = parse_ansi_term_style("red green bold", None, None, false);
    assert!(expected.is_ok());
    for s in [
        "bold red green",
        "red bold green",
        "red green bold",
        "bold red bold green bold",
        "  bold\tred\n green  ",
    ] {
        assert_eq!(parse_ansi_term_style(s, None, None, false), expected);
    }
}

#[test]
fn omit_and_raw_take_no_colour_slot() {
    let (style, omitted, raw, syntax) =
        parse_ansi_term_style("omit red raw green", None, None, false).unwrap();
    assert_eq!(style.foreground, Some(Color::Fixed(1)));
    assert_eq!(style.background, Some(Color::Fixed(2)));
    assert!(omitted && raw && !syntax);
}

#[test]
fn three_colours_are_refused() {
    assert_eq!(
        parse_ansi_term_style("red green blue", None, None, false),
        Err(StyleError::InvalidStyleString { style_string: "red green blue".to_string() })
    );
    // The string is kept as it was given.
    assert_eq!(
        parse_ansi_term_style(" Red  'green' BLUE bold", None, None, false),
        Err(StyleError::InvalidStyleString {
            style_string: " Red  'green' BLUE bold".to_string()
        })
    );
    assert_eq!(
        parse_ansi_term_style("syntax green syntax", None, None, false),
        Err(StyleError::InvalidStyleString { style_string: "syntax green syntax".to_string() })
    );
}

#[test]
fn syntax_is_refused_as_the_background() {
    assert_eq!(
        parse_ansi_term_style("red syntax", None, None, false),
        Err(StyleError::SyntaxAsBackground)
    );
    assert_eq!(
        parse_ansi_term_style("bold syntax omit syntax", None, None, false),
        Err(StyleError::SyntaxAsBackground)
    );
}

#[test]
fn a_token_that_names_no_colour_is_refused() {
    assert_eq!(
        parse_ansi_term_style("reddish", None, None, false),
        Err(StyleError::InvalidColor { token: "reddish".to_string() })
    );
    assert_eq!(
        parse_ansi_term_style("red Greenish", None, None, false),
        Err(StyleError::InvalidColor { token: "greenish".to_string() })
    );
    // A word of quotes alone leaves an empty token, which names no colour.
    assert_eq!(
        parse_ansi_term_style("\"\"", None, None, false),
        Err(StyleError::InvalidColor { token: String::new() })
    );
}

#[test]
fn the_first_error_in_the_string_is_the_one_reported() {
    assert_eq!(
        parse_ansi_term_style("nocolor syntax blue", None, None, false),
        Err(StyleError::InvalidColor { token: "nocolor".to_string() })
    );
    assert_eq!(
        parse_ansi_term_style("red syntax blue", None, None, false),
        Err(StyleError::SyntaxAsBackground)
    );
    assert_eq!(
        parse_ansi_term_style("red nocolor blue", None, None, false),
        Err(StyleError::InvalidColor { token: "nocolor".to_string() })
    );
    assert_eq!(
        parse_ansi_term_style("red green nocolor", None, None, false),
        Err(StyleError::InvalidStyleString { style_string: "red green nocolor".to_string() })
    );
}

#[test]
fn tokens_are_read_without_regard_to_case_and_quotes() {
    let expected = Ok((
        TerminalStyle {
            foreground: Some(Color::Fixed(1)),
            is_bold: true,
            ..TerminalStyle::new()
        },
        false,
        false,
        false,
    ));
    assert_eq!(parse_ansi_term_style("BOLD Red", None, None, false), expected);
    assert_eq!(parse_ansi_term_style("'bold' \"red\"", None, None, false), expected);
    assert_eq!(parse_ansi_term_style("\"'bold'\" ''red\"", None, None, false), expected);
    // Quotes inside a token stay.
    assert_eq!(
        parse_ansi_term_style("bo'ld", None, None, false),
        Err(StyleError::InvalidColor { token: "bo'ld".to_string() })
    );
}

#[test]
fn white_space_of_every_kind_parts_the_tokens() {
    let expected = parse_ansi_term_style("bold red", None, None, false);
    assert!(expected.is_ok());
    for separator in ["\t", "\n", "\u{b}", "\u{c}", "\r", "\u{85}", "\u{a0}", "\u{2003}", "\u{3000}"] {
        let s = format!("bold{}red", separator);
        assert_eq!(parse_ansi_term_style(&s, None, None, false), expected, "{:?}", s);
    }
    // A character that is no white space parts nothing.
    assert_eq!(
        parse_ansi_term_style("bold\u{200b}red", None, None, false),
        Err(StyleError::InvalidColor { token: "bold\u{200b}red".to_string() })
    );
}

#[test]
fn text_beyond_ascii_is_put_in_lower_case_too() {
    assert_eq!(
        parse_ansi_term_style("ROUGE-FONCÉ", None, None, false),
        Err(StyleError::InvalidColor { token: "rouge-foncé".to_string() })
    );
    // The Kelvin sign is a capital letter whose small letter is `k`.
    assert_eq!(
        parse_ansi_term_style("stri\u{212a}e", None, None, false),
        Ok((
            TerminalStyle { is_strikethrough: true, ..TerminalStyle::new() },
            false,
            false,
            false
        ))
    );
    assert_eq!(
        parse_ansi_term_style("stri\u{212a}e É", None, None, false),
        Err(StyleError::InvalidColor { token: "é".to_string() })
    );
}

#[test]
fn the_defaults_are_what_auto_stands_for() {
    let (style, _, _, _) =
        parse_ansi_term_style("auto auto", Some(Color::Blue), Some(Color::RGB(1, 2, 3)), false)
            .unwrap();
    assert_eq!(style.foreground, Some(Color::Blue));
    assert_eq!(style.background, Some(Color::RGB(1, 2, 3)));
    // Without a token that asks for them the defaults are not used.
    let (style, _, _, _) =
        parse_ansi_term_style("bold", Some(Color::Blue), Some(Color::Red), false).unwrap();
    assert_eq!(style.foreground, None);
    assert_eq!(style.background, None);
    let (style, _, _, _) =
        parse_ansi_term_style("normal red", Some(Color::Blue), Some(Color::Red), false).unwrap();
    assert_eq!(style.foreground, None);
    assert_eq!(style.background, Some(Color::Fixed(1)));
}

#[test]
fn a_style_written_out_is_read_back() {
    // Words of the attributes first, then the two colours.
    let cases = [
        (
            "normal normal",
            (TerminalStyle::new(), false, false, false),
            false,
        ),
        (
            "bold 1 2",
            (
                TerminalStyle {
                    foreground: Some(Color::Fixed(1)),
                    background: Some(Color::Fixed(2)),
                    is_bold: true,
                    ..TerminalStyle::new()
                },
                false,
                false,
                false,
            ),
            false,
        ),
        (
            "blink dim hidden italic omit reverse raw strike ul syntax 255",
            (
                TerminalStyle {
                    foreground: None,
                    background: Some(Color::Fixed(255)),
                    is_bold: false,
                    is_dimmed: true,
                    is_italic: true,
                    is_underline: true,
                    is_blink: true,
                    is_reverse: true,
                    is_hidden: true,
                    is_strikethrough: true,
                },
                true,
                true,
                true,
            ),
            false,
        ),
        (
            "#0a10ff normal",
            (
                TerminalStyle {
                    foreground: Some(Color::RGB(10, 16, 255)),
                    ..TerminalStyle::new()
                },
                false,
                false,
                false,
            ),
            true,
        ),
    ];
    for (written, style, true_color) in cases {
        assert_eq!(parse_ansi_term_style(written, None, None, true_color), Ok(style));
        assert_eq!(
            parse_ansi_term_style(written, Some(Color::Red), Some(Color::Blue), true_color),
            Ok(style)
        );
    }
}
