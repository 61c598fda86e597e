use term_style::decoration::DecorationStyle;
use term_style::error::StyleError;
use term_style::parser::parse_ansi_term_style;

#[test]
fn every_error_has_its_message() {
    assert_eq!(
        StyleError::InvalidStyleString { style_string: "red green blue".to_string() }.message(),
        "Invalid style string: red green blue. See the STYLES section of delta --help."
    );
    assert_eq!(
        StyleError::SyntaxAsBackground.message(),
        "You have used the special color 'syntax' as a background color \
         (second color in a style string). It may only be used as a foreground \
         color (first color in a style string)."
    );
    assert_eq!(
        StyleError::RawInDecoration.message(),
        "'raw' may not be used in a decoration style."
    );
    assert_eq!(
        StyleError::SyntaxInDecoration.message(),
        "'syntax' may not be used in a decoration style."
    );
    assert_eq!(
        StyleError::InvalidColor { token: "pink".to_string() }.message(),
        "Invalid color or style attribute: pink"
    );
    assert_eq!(
        StyleError::InvalidStyleString { style_string: String::new() }.message(),
        "Invalid style string: . See the STYLES section of delta --help."
    );
}

#[test]
fn the_message_names_the_string_as_it_was_given() {
    let error = parse_ansi_term_style("Red  GREEN \"blue\"", None, None, false).unwrap_err();
    assert_eq!(
        error.message(),
        "Invalid style string: Red  GREEN \"blue\". See the STYLES section of delta --help."
    );
    let error = parse_ansi_term_style("Red 'Verdigris'", None, None, false).unwrap_err();
    assert_eq!(error.message(), "Invalid color or style attribute: verdigris");
    let error = DecorationStyle::from_str("Box RAW", false).unwrap_err();
    assert_eq!(error.message(), "'raw' may not be used in a decoration style.");
    let error = DecorationStyle::from_str("syntax ul", false).unwrap_err();
    assert_eq!(error.message(), "'syntax' may not be used in a decoration style.");
    let error = parse_ansi_term_style("1 Syntax", None, None, false).unwrap_err();
    assert!(error.message().starts_with("You have used the special color 'syntax'"));
}
