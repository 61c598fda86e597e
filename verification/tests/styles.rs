use term_style::decoration::DecorationStyle;
use term_style::error::StyleError;
use term_style::style::Style;
use term_style::terminal::{Color, TerminalStyle};

fn red() -> TerminalStyle {
    TerminalStyle { foreground: Some(Color::Fixed(1)), ..TerminalStyle::new() }
}

fn blue() -> TerminalStyle {
    TerminalStyle { foreground: Some(Color::Fixed(4)), ..TerminalStyle::new() }
}

#[test]
fn a_new_style_changes_nothing() {
    let style = Style::new();
    assert_eq!(
        style,
        Style {
            ansi_term_style: TerminalStyle::new(),
            is_emph: false,
            is_omitted: false,
            is_raw: false,
            is_syntax_highlighted: false,
            decoration_style: DecorationStyle::NoDecoration,
        }
    );
    assert_eq!(style.decoration_ansi_term_style(), None);
    assert_eq!(
        TerminalStyle::new(),
        TerminalStyle {
            foreground: None,
            background: None,
            is_bold: false,
            is_dimmed: false,
            is_italic: false,
            is_underline: false,
            is_blink: false,
            is_reverse: false,
            is_hidden: false,
            is_strikethrough: false,
        }
    );
}

#[test]
fn a_style_is_made_from_its_two_strings() {
    assert_eq!(
        Style::from_str("bold red", None, None, Some("ul blue"), false, true),
        Ok(Style {
            ansi_term_style: TerminalStyle { is_bold: true, ..red() },
            is_emph: true,
            is_omitted: false,
            is_raw: false,
            is_syntax_highlighted: false,
            decoration_style: DecorationStyle::Underline(blue()),
        })
    );
    assert_eq!(
        Style::from_str("omit raw syntax auto", Some(Color::Red), Some(Color::Green), Some("box"), true, false),
        Ok(Style {
            ansi_term_style: TerminalStyle {
                background: Some(Color::Green),
                ..TerminalStyle::new()
            },
            is_emph: false,
            is_omitted: true,
            is_raw: true,
            is_syntax_highlighted: true,
            decoration_style: DecorationStyle::Box(TerminalStyle::new()),
        })
    );
    assert_eq!(Style::from_str("", None, None, None, false, false), Ok(Style::new()));
    assert_eq!(
        Style::from_str("", None, None, None, false, true),
        Ok(Style { is_emph: true, ..Style::new() })
    );
}

#[test]
fn without_a_decoration_style_string_there_is_no_decoration() {
    for decoration in [None, Some("")] {
        let style = Style::from_str("red", None, None, decoration, false, false).unwrap();
        assert_eq!(style.decoration_style, DecorationStyle::NoDecoration);
        assert_eq!(style.decoration_ansi_term_style(), None);
        assert_eq!(style.ansi_term_style, red());
    }
    // A string of spaces is not empty: it is read, and says nothing.
    let style = Style::from_str("red", None, None, Some("  "), false, false).unwrap();
    assert_eq!(style.decoration_style, DecorationStyle::NoDecoration);
}

#[test]
fn in_from_str_the_decoration_words_are_words_of_the_style() {
    // `ul` underlines the text, and `box` is taken for a colour.
    let style = Style::from_str("ul red", None, None, None, false, false).unwrap();
    assert_eq!(style.ansi_term_style, TerminalStyle { is_underline: true, ..red() });
    assert_eq!(style.decoration_style, DecorationStyle::NoDecoration);
    assert_eq!(
        Style::from_str("box red", None, None, None, false, false),
        Err(StyleError::InvalidColor { token: "box".to_string() })
    );
}

#[test]
fn the_style_string_is_read_before_the_decoration_style_string() {
    assert_eq!(
        Style::from_str("red green blue", None, None, Some("raw"), false, false),
        Err(StyleError::InvalidStyleString { style_string: "red green blue".to_string() })
    );
    assert_eq!(
        Style::from_str("red", None, None, Some("raw"), false, false),
        Err(StyleError::RawInDecoration)
    );
    assert_eq!(
        Style::from_str("red", None, None, Some("box syntax"), false, false),
        Err(StyleError::SyntaxInDecoration)
    );
    assert_eq!(
        Style::from_str("red", None, None, Some("box 1 2 3"), false, false),
        Err(StyleError::InvalidStyleString { style_string: "1 2 3".to_string() })
    );
}

#[test]
fn the_decoration_style_of_a_style_is_that_of_its_decoration() {
    let all = [
        (DecorationStyle::Box(red()), Some(red())),
        (DecorationStyle::Underline(red()), Some(red())),
        (DecorationStyle::Overline(blue()), Some(blue())),
        (DecorationStyle::Underoverline(blue()), Some(blue())),
        (DecorationStyle::NoDecoration, None),
    ];
    for (decoration_style, expected) in all {
        let style = Style { decoration_style, ..Style::new() };
        assert_eq!(style.decoration_ansi_term_style(), expected);
    }
}

#[test]
fn decoration_words_in_the_style_string_give_the_decoration_its_kind() {
    let from = Style::from_str_with_handling_of_special_decoration_attributes;
    // `bold box` asks for a box.
    assert_eq!(
        from("bold box", None, None, None, false, false),
        Ok(Style {
            ansi_term_style: TerminalStyle { is_bold: true, ..TerminalStyle::new() },
            decoration_style: DecorationStyle::Box(TerminalStyle::new()),
            ..Style::new()
        })
    );
    // The decoration keeps the style that it is drawn in.
    assert_eq!(
        from("red box", None, None, Some("ul blue"), false, false),
        Ok(Style {
            ansi_term_style: red(),
            decoration_style: DecorationStyle::Box(blue()),
            ..Style::new()
        })
    );
    assert_eq!(
        from("ul red", None, None, Some("box blue"), false, false),
        Ok(Style {
            ansi_term_style: red(),
            decoration_style: DecorationStyle::Underline(blue()),
            ..Style::new()
        })
    );
    assert_eq!(
        from("overline red underline", None, None, Some("box blue"), false, true),
        Ok(Style {
            ansi_term_style: red(),
            is_emph: true,
            decoration_style: DecorationStyle::Underoverline(blue()),
            ..Style::new()
        })
    );
    assert_eq!(
        from("ol red box", None, None, Some("blue"), false, false),
        Ok(Style {
            ansi_term_style: red(),
            decoration_style: DecorationStyle::Box(TerminalStyle::new()),
            ..Style::new()
        })
    );
    // Without a decoration word the style is that of `from_str`.
    for (s, d) in [("red", None), ("bold 1 2", Some("box blue")), ("omit", Some("")), ("", None)] {
        assert_eq!(
            from(s, None, None, d, false, false),
            Style::from_str(s, None, None, d, false, false)
        );
    }
}

#[test]
fn plain_takes_the_decoration_away() {
    let from = Style::from_str_with_handling_of_special_decoration_attributes;
    assert_eq!(
        from("plain red", None, None, Some("box blue"), false, false),
        Ok(Style { ansi_term_style: red(), ..Style::new() })
    );
    // A decoration word in the same string has precedence.
    assert_eq!(
        from("plain red ul", None, None, Some("box blue"), false, false),
        Ok(Style {
            ansi_term_style: red(),
            decoration_style: DecorationStyle::Underline(blue()),
            ..Style::new()
        })
    );
}

#[test]
fn none_takes_the_colours_and_attributes_of_the_text_away() {
    let from = Style::from_str_with_handling_of_special_decoration_attributes;
    assert_eq!(
        from("none", None, None, Some("box blue"), false, false),
        Ok(Style { decoration_style: DecorationStyle::Box(blue()), ..Style::new() })
    );
    // The flags stay, and so does the decoration.
    assert_eq!(
        from("bold red green omit raw none", None, None, Some("ul blue"), false, true),
        Ok(Style {
            ansi_term_style: TerminalStyle::new(),
            is_emph: true,
            is_omitted: true,
            is_raw: true,
            is_syntax_highlighted: false,
            decoration_style: DecorationStyle::Underline(blue()),
        })
    );
    assert_eq!(
        from("NONE syntax", None, None, None, false, false),
        Ok(Style { is_syntax_highlighted: true, ..Style::new() })
    );
    // The other decoration words of the string take effect beside it.
    assert_eq!(
        from("none red box", None, None, Some("ul blue"), false, false),
        Ok(Style { decoration_style: DecorationStyle::Box(blue()), ..Style::new() })
    );
    assert_eq!(
        from("none red plain", None, None, Some("ul blue"), false, false),
        Ok(Style::new())
    );
    // What is left of the string is still read, and may be refused.
    assert_eq!(
        from("none red green blue", None, None, None, false, false),
        Err(StyleError::InvalidStyleString { style_string: "red green blue".to_string() })
    );
}

#[test]
fn errors_of_the_strings_come_through() {
    let from = Style::from_str_with_handling_of_special_decoration_attributes;
    assert_eq!(
        from("box red syntax", None, None, None, false, false),
        Err(StyleError::SyntaxAsBackground)
    );
    assert_eq!(
        from("box red", None, None, Some("raw"), false, false),
        Err(StyleError::RawInDecoration)
    );
    assert_eq!(
        from("box pink", None, None, None, false, false),
        Err(StyleError::InvalidColor { token: "pink".to_string() })
    );
}

#[test]
fn the_deprecated_argument_gives_the_foreground_of_text_and_decoration() {
    let from = Style::from_str_with_handling_of_special_decoration_attributes_and_respecting_deprecated_foreground_color_arg;
    let yellow = Some(Color::Fixed(3));
    assert_eq!(
        from("bold red green", None, None, Some("box blue 7 italic"), Some("yellow"), false, false),
        Ok(Style {
            ansi_term_style: TerminalStyle {
                foreground: yellow,
                background: Some(Color::Fixed(2)),
                is_bold: true,
                ..TerminalStyle::new()
            },
            decoration_style: DecorationStyle::Box(TerminalStyle {
                foreground: yellow,
                background: Some(Color::Fixed(7)),
                is_italic: true,
                ..TerminalStyle::new()
            }),
            ..Style::new()
        })
    );
    for (word, decoration) in [
        ("ul", DecorationStyle::Underline(TerminalStyle { foreground: yellow, ..TerminalStyle::new() })),
        ("ol", DecorationStyle::Overline(TerminalStyle { foreground: yellow, ..TerminalStyle::new() })),
        ("ul ol", DecorationStyle::Underoverline(TerminalStyle { foreground: yellow, ..TerminalStyle::new() })),
        ("", DecorationStyle::NoDecoration),
    ] {
        assert_eq!(
            from("red", None, None, Some(word), Some("yellow"), false, true),
            Ok(Style {
                ansi_term_style: TerminalStyle { foreground: yellow, ..TerminalStyle::new() },
                is_emph: true,
                decoration_style: decoration,
                ..Style::new()
            })
        );
    }
}

#[test]
fn of_the_deprecated_argument_only_the_foreground_counts() {
    let from = Style::from_str_with_handling_of_special_decoration_attributes_and_respecting_deprecated_foreground_color_arg;
    assert_eq!(
        from("red", None, None, Some("box"), Some("bold yellow green omit raw"), false, false),
        Ok(Style {
            ansi_term_style: TerminalStyle { foreground: Some(Color::Fixed(3)), ..TerminalStyle::new() },
            decoration_style: DecorationStyle::Box(TerminalStyle {
                foreground: Some(Color::Fixed(3)),
                ..TerminalStyle::new()
            }),
            ..Style::new()
        })
    );
    // An argument without a colour takes the foreground away.
    for arg in ["", "bold", "syntax", "normal"] {
        assert_eq!(
            from("red green", None, None, Some("ul blue"), Some(arg), false, false),
            Ok(Style {
                ansi_term_style: TerminalStyle {
                    background: Some(Color::Fixed(2)),
                    ..TerminalStyle::new()
                },
                decoration_style: DecorationStyle::Underline(TerminalStyle::new()),
                ..Style::new()
            }),
            "{:?}",
            arg
        );
    }
    // The defaults of the style are not those of the argument.
    assert_eq!(
        from("auto", Some(Color::Red), None, None, Some("auto"), false, false),
        Ok(Style::new())
    );
}

#[test]
fn without_the_deprecated_argument_nothing_changes() {
    let from = Style::from_str_with_handling_of_special_decoration_attributes_and_respecting_deprecated_foreground_color_arg;
    for (s, d) in [("red box", Some("ul blue")), ("none bold", None), ("", Some("box"))] {
        assert_eq!(
            from(s, None, None, d, None, false, false),
            Style::from_str_with_handling_of_special_decoration_attributes(s, None, None, d, false, false)
        );
    }
}

#[test]
fn an_error_of_the_deprecated_argument_comes_last() {
    let from = Style::from_str_with_handling_of_special_decoration_attributes_and_respecting_deprecated_foreground_color_arg;
    assert_eq!(
        from("red", None, None, None, Some("pink"), false, false),
        Err(StyleError::InvalidColor { token: "pink".to_string() })
    );
    assert_eq!(
        from("red", None, None, None, Some("1 2 3"), false, false),
        Err(StyleError::InvalidStyleString { style_string: "1 2 3".to_string() })
    );
    assert_eq!(
        from("red syntax", None, None, None, Some("pink"), false, false),
        Err(StyleError::SyntaxAsBackground)
    );
    assert_eq!(
        from("red", None, None, Some("raw"), Some("pink"), false, false),
        Err(StyleError::RawInDecoration)
    );
}

#[test]
fn the_two_strings_of_a_style_written_out_are_read_back() {
    let style = Style {
        ansi_term_style: TerminalStyle {
            foreground: Some(Color::Fixed(1)),
            background: Some(Color::RGB(0, 171, 255)),
            is_bold: true,
            is_underline: true,
            ..TerminalStyle::new()
        },
        is_emph: true,
        is_omitted: true,
        is_raw: false,
        is_syntax_highlighted: false,
        decoration_style: DecorationStyle::Underoverline(TerminalStyle {
            foreground: Some(Color::Fixed(4)),
            is_italic: true,
            ..TerminalStyle::new()
        }),
    };
    // The words of the attributes, then the colours; for the decoration its
    // words first.
    assert_eq!(
        Style::from_str(
            "bold omit ul 1 #00abff",
            Some(Color::Red),
            None,
            Some("ul ol italic 4 normal"),
            true,
            true
        ),
        Ok(style)
    );
    assert_eq!(
        Style::from_str("normal normal", None, None, Some(""), false, false),
        Ok(Style::new())
    );
    assert_eq!(
        Style::from_str("raw syntax 0", None, None, Some("box normal 255"), false, false),
        Ok(Style {
            ansi_term_style: TerminalStyle { background: Some(Color::Fixed(0)), ..TerminalStyle::new() },
            is_raw: true,
            is_syntax_highlighted: true,
            decoration_style: DecorationStyle::Box(TerminalStyle {
                background: Some(Color::Fixed(255)),
                ..TerminalStyle::new()
            }),
            ..Style::new()
        })
    );
}
