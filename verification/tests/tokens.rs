use term_style::text::{chars_of, split_tokens, string_of, tokenize};

fn words(tokens: &[&str]) -> Vec<Vec<char>> {
    tokens.iter().map(|t| t.chars().collect()).collect()
}

#[test]
fn a_string_is_cut_into_its_tokens() {
    assert_eq!(tokenize(""), words(&[]));
    assert_eq!(tokenize("   \t\n "), words(&[]));
    assert_eq!(tokenize("red"), words(&["red"]));
    assert_eq!(tokenize("bold red underline green blink"), words(&["bold", "red", "underline", "green", "blink"]));
    assert_eq!(tokenize("  Bold\t\tRED \n"), words(&["bold", "red"]));
    assert_eq!(tokenize("'bold' \"red\" '\"x\"' \"'"), words(&["bold", "red", "x", ""]));
    assert_eq!(tokenize("a'b 'c'd' e\"f\" \"g\"h"), words(&["a'b", "c'd", "e\"f", "g\"h"]));
    assert_eq!(tokenize("#FF00aa Bright-Red"), words(&["#ff00aa", "bright-red"]));
}

#[test]
fn tokens_beyond_ascii_are_cut_and_lowered_by_the_tables_of_unicode() {
    assert_eq!(tokenize("ÉTÉ\u{3000}ÀÇ"), words(&["été", "àç"]));
    assert_eq!(tokenize("É 'Ü'"), words(&["é", "ü"]));
    assert_eq!(tokenize("ΌΣΟΣ"), words(&["όσος"]));
    assert_eq!(tokenize("a\u{a0}b\u{2028}c"), words(&["a", "b", "c"]));
}

#[test]
fn a_text_in_lower_case_is_cut_as_it_stands() {
    let text: Vec<char> = " Bold  'red' ".chars().collect();
    assert_eq!(split_tokens(&text), words(&["Bold", "red"]));
}

#[test]
fn characters_and_strings_turn_into_each_other() {
    for s in ["", "red", "überstrichen", "a b\tc", "日本語"] {
        let chars = chars_of(s);
        assert_eq!(chars, s.chars().collect::<Vec<char>>());
        assert_eq!(string_of(&chars), s);
    }
}
