use term_style::color::{
    ansi_color_name_to_number, color_from_rgb, color_from_rgb_or_ansi_code_with_default,
};
use term_style::error::StyleError;
use term_style::terminal::Color;

#[test]
fn the_sixteen_ansi_colours_have_names() {
    let names = [
        ("black", 0),
        ("red", 1),
        ("green", 2),
        ("yellow", 3),
        ("blue", 4),
        ("magenta", 5),
        ("purple", 5),
        ("cyan", 6),
        ("white", 7),
        ("bright-black", 8),
        ("bright-red", 9),
        ("bright-green", 10),
        ("bright-yellow", 11),
        ("bright-blue", 12),
        ("bright-magenta", 13),
        ("bright-purple", 13),
        ("bright-cyan", 14),
        ("bright-white", 15),
    ];
    for (name, number) in names {
        assert_eq!(ansi_color_name_to_number(name), Some(number), "{}", name);
        assert_eq!(
            color_from_rgb_or_ansi_code_with_default(name, None, false),
            Ok(Some(Color::Fixed(number)))
        );
    }
    assert_eq!(ansi_color_name_to_number("Bright-Red"), Some(9));
    assert_eq!(ansi_color_name_to_number("orange"), None);
    assert_eq!(ansi_color_name_to_number(""), None);
    assert_eq!(ansi_color_name_to_number("bright"), None);
}

#[test]
fn a_number_up_to_255_is_a_colour_of_the_palette() {
    for (token, number) in [("0", 0), ("7", 7), ("255", 255), ("007", 7), ("+12", 12), ("0000255", 255)] {
        assert_eq!(
            color_from_rgb_or_ansi_code_with_default(token, None, false),
            Ok(Some(Color::Fixed(number))),
            "{}",
            token
        );
    }
    for token in ["256", "1000", "99999999999999999999", "-1", "+", "++1", "1+", "1.0", "0x10", " 1", "１"] {
        assert_eq!(
            color_from_rgb_or_ansi_code_with_default(token, None, false),
            Err(StyleError::InvalidColor { token: token.to_lowercase() }),
            "{}",
            token
        );
    }
}

#[test]
fn six_hexadecimal_digits_are_a_24_bit_colour_with_true_colour() {
    assert_eq!(
        color_from_rgb_or_ansi_code_with_default("#ff0000", None, true),
        Ok(Some(Color::RGB(255, 0, 0)))
    );
    assert_eq!(
        color_from_rgb_or_ansi_code_with_default("#0A1b2C", None, true),
        Ok(Some(Color::RGB(10, 27, 44)))
    );
    for token in ["#", "#fff", "#ff00000", "#ff000", "#gg0000", "#ff00 0", "ff0000", "#ff000０"] {
        assert_eq!(
            color_from_rgb_or_ansi_code_with_default(token, None, true),
            Err(StyleError::InvalidColor { token: token.to_string() }),
            "{}",
            token
        );
    }
}

#[test]
fn without_true_colour_a_24_bit_colour_becomes_the_nearest_of_the_palette() {
    for (r, g, b) in [(255, 0, 0), (0, 0, 0), (255, 255, 255), (95, 135, 175), (10, 27, 44), (128, 128, 128)] {
        let nearest = ansi_colours::ansi256_from_rgb((r, g, b));
        let token = format!("#{:02x}{:02x}{:02x}", r, g, b);
        assert_eq!(
            color_from_rgb_or_ansi_code_with_default(&token, None, false),
            Ok(Some(Color::Fixed(nearest))),
            "{}",
            token
        );
        assert_eq!(color_from_rgb(r, g, b, false), Color::Fixed(nearest));
        assert_eq!(color_from_rgb(r, g, b, true), Color::RGB(r, g, b));
    }
    assert_eq!(
        color_from_rgb_or_ansi_code_with_default("#ff0000", None, false),
        Ok(Some(Color::Fixed(196)))
    );
    assert_eq!(
        color_from_rgb_or_ansi_code_with_default("#5f87af", None, false),
        Ok(Some(Color::Fixed(67)))
    );
}

#[test]
fn normal_is_no_colour_and_auto_is_the_default() {
    for default in [None, Some(Color::Red), Some(Color::Fixed(3)), Some(Color::RGB(1, 2, 3))] {
        for true_color in [false, true] {
            assert_eq!(
                color_from_rgb_or_ansi_code_with_default("normal", default, true_color),
                Ok(None)
            );
            assert_eq!(
                color_from_rgb_or_ansi_code_with_default("auto", default, true_color),
                Ok(default)
            );
            assert_eq!(
                color_from_rgb_or_ansi_code_with_default("AUTO", default, true_color),
                Ok(default)
            );
        }
    }
}
