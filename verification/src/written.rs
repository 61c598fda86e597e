//! Styles written out as style strings.
//!
//! A style whose colours are numbers of the palette, or 24-bit colours on a
//! terminal with true colour, can be written as a style string. Reading
//! that string gives the style back.

use crate::color::{
    color_code,
    decimal_value,
    digit_value,
    hex_byte,
    hex_digit,
    hex_triple,
    is_digit,
    resolve_color,
    rgb_color,
    unsigned_part,
};
use crate::error::StyleErrorView;
use crate::parser::{
    StyleWord,
    claims_color,
    color_words,
    lemma_color_words_push,
    lemma_parse_no_tokens,
    lemma_parse_tokens_push,
    parse_style,
    parse_tokens,
    set_word,
    style_word,
};
use crate::settled::{
    all_settled,
    is_settled,
    is_settled_char,
    lemma_tokens_of_joined,
    not_empty,
};
use crate::terminal::{Color, TerminalStyle};
use crate::text::{is_quote, join, tokens_of};
use vstd::prelude::*;

verus! {

/// The character of a decimal digit.
pub open spec fn digit_char(d: nat) -> char {
    (48 + d) as char
}

/// A number in decimal digits, without leading zeros.
pub open spec fn decimal_digits(n: nat) -> Seq<char>
    decreases n,
{
    if n < 10 {
        seq![digit_char(n)]
    } else {
        decimal_digits(n / 10).push(digit_char(n % 10))
    }
}

/// The character of a hexadecimal digit, in lower case.
pub open spec fn hex_char(d: nat) -> char {
    if d < 10 {
        (48 + d) as char
    } else {
        (87 + d) as char
    }
}

/// A 24-bit colour as `#` and six hexadecimal digits.
pub open spec fn hex_digits(r: u8, g: u8, b: u8) -> Seq<char> {
    seq![
        '#',
        hex_char(r as nat / 16),
        hex_char(r as nat % 16),
        hex_char(g as nat / 16),
        hex_char(g as nat % 16),
        hex_char(b as nat / 16),
        hex_char(b as nat % 16),
    ]
}

/// The digits of a number are digits, and they write the number.
pub proof fn lemma_decimal_digits(n: nat)
    ensures
        decimal_digits(n).len() > 0,
        forall|i: int| 0 <= i < decimal_digits(n).len() ==> is_digit(#[trigger] decimal_digits(n)[i]),
        decimal_value(decimal_digits(n)) == n,
    decreases n,
{
    let digits = decimal_digits(n);
    if n < 10 {
        assert(is_digit(digit_char(n)));
        assert(digits.drop_last() =~= Seq::<char>::empty());
        assert(decimal_value(digits.drop_last()) == 0);
        assert(digit_value(digits.last()) == n);
    } else {
        lemma_decimal_digits(n / 10);
        let front = decimal_digits(n / 10);
        assert(is_digit(digit_char(n % 10)));
        assert(digits.drop_last() =~= front);
        assert(digit_value(digits.last()) == n % 10);
        assert forall|i: int| 0 <= i < digits.len() implies is_digit(#[trigger] digits[i]) by {
            if i < front.len() {
                assert(digits[i] == front[i]);
            }
        }
    }
}

/// A number of the palette in decimal digits is a token that tokenizing
/// leaves as it is, and it names the colour of that number.
pub proof fn lemma_written_number(n: u8, default: Option<Color>, true_color: bool)
    ensures
        is_settled(decimal_digits(n as nat)),
        decimal_digits(n as nat).len() > 0,
        style_word(decimal_digits(n as nat)) == StyleWord::Color,
        resolve_color(decimal_digits(n as nat), default, true_color) == Some(Some(Color::Fixed(n))),
{
    let token = decimal_digits(n as nat);
    lemma_decimal_digits(n as nat);
    assert(is_digit(token[0]));
    assert(is_digit(token.last()));
    assert forall|i: int| 0 <= i < token.len() implies is_settled_char(#[trigger] token[i]) by {
        assert(is_digit(token[i]));
    }
    assert(unsigned_part(token) == token);
    assert(color_code(token) == Some(n));
    lemma_first_letters();
    reveal(style_word);
    reveal(resolve_color);
}

/// The digits of a 24-bit colour are a token that tokenizing leaves as it
/// is, and it names that colour.
pub proof fn lemma_written_rgb(r: u8, g: u8, b: u8, default: Option<Color>, true_color: bool)
    ensures
        is_settled(hex_digits(r, g, b)),
        hex_digits(r, g, b).len() > 0,
        style_word(hex_digits(r, g, b)) == StyleWord::Color,
        resolve_color(hex_digits(r, g, b), default, true_color) == Some(
            Some(rgb_color(r, g, b, true_color)),
        ),
{
    let token = hex_digits(r, g, b);
    lemma_hex_char(r as nat / 16);
    lemma_hex_char(r as nat % 16);
    lemma_hex_char(g as nat / 16);
    lemma_hex_char(g as nat % 16);
    lemma_hex_char(b as nat / 16);
    lemma_hex_char(b as nat % 16);
    assert(hex_byte(token[1], token[2]) == Some(r));
    assert(hex_byte(token[3], token[4]) == Some(g));
    assert(hex_byte(token[5], token[6]) == Some(b));
    assert(hex_triple(token) == Some((r, g, b)));
    assert(is_settled_char('#'));
    lemma_first_letters();
    reveal(style_word);
    reveal(resolve_color);
}

/// A hexadecimal digit in lower case is a settled character, and it writes
/// its value.
pub proof fn lemma_hex_char(d: nat)
    requires
        d < 16,
    ensures
        is_settled_char(hex_char(d)),
        !is_quote(hex_char(d)),
        hex_digit(hex_char(d)) == Some(d as u8),
{
}

/// The words that the parser and the resolver know begin with a letter.
pub proof fn lemma_first_letters()
    ensures
        "blink"@.len() > 0 && "blink"@[0] == 'b',
        "bold"@.len() > 0 && "bold"@[0] == 'b',
        "dim"@.len() > 0 && "dim"@[0] == 'd',
        "hidden"@.len() > 0 && "hidden"@[0] == 'h',
        "italic"@.len() > 0 && "italic"@[0] == 'i',
        "omit"@.len() > 0 && "omit"@[0] == 'o',
        "reverse"@.len() > 0 && "reverse"@[0] == 'r',
        "raw"@.len() > 0 && "raw"@[0] == 'r',
        "strike"@.len() > 0 && "strike"@[0] == 's',
        "ul"@.len() > 0 && "ul"@[0] == 'u',
        "underline"@.len() > 0 && "underline"@[0] == 'u',
        "syntax"@.len() > 0 && "syntax"@[0] == 's',
        "normal"@.len() > 0 && "normal"@[0] == 'n',
        "auto"@.len() > 0 && "auto"@[0] == 'a',
{
    reveal_strlit("blink");
    reveal_strlit("bold");
    reveal_strlit("dim");
    reveal_strlit("hidden");
    reveal_strlit("italic");
    reveal_strlit("omit");
    reveal_strlit("reverse");
    reveal_strlit("raw");
    reveal_strlit("strike");
    reveal_strlit("ul");
    reveal_strlit("underline");
    reveal_strlit("syntax");
    reveal_strlit("normal");
    reveal_strlit("auto");
}

/// The words of the parser are what they spell.
pub proof fn lemma_spelling()
    ensures
        "blink"@ == seq!['b', 'l', 'i', 'n', 'k'],
        "bold"@ == seq!['b', 'o', 'l', 'd'],
        "dim"@ == seq!['d', 'i', 'm'],
        "hidden"@ == seq!['h', 'i', 'd', 'd', 'e', 'n'],
        "italic"@ == seq!['i', 't', 'a', 'l', 'i', 'c'],
        "omit"@ == seq!['o', 'm', 'i', 't'],
        "reverse"@ == seq!['r', 'e', 'v', 'e', 'r', 's', 'e'],
        "raw"@ == seq!['r', 'a', 'w'],
        "strike"@ == seq!['s', 't', 'r', 'i', 'k', 'e'],
        "ul"@ == seq!['u', 'l'],
        "underline"@ == seq!['u', 'n', 'd', 'e', 'r', 'l', 'i', 'n', 'e'],
        "syntax"@ == seq!['s', 'y', 'n', 't', 'a', 'x'],
        "normal"@ == seq!['n', 'o', 'r', 'm', 'a', 'l'],
        "auto"@ == seq!['a', 'u', 't', 'o'],
{
    reveal_strlit("blink");
    reveal_strlit("bold");
    reveal_strlit("dim");
    reveal_strlit("hidden");
    reveal_strlit("italic");
    reveal_strlit("omit");
    reveal_strlit("reverse");
    reveal_strlit("raw");
    reveal_strlit("strike");
    reveal_strlit("ul");
    reveal_strlit("underline");
    reveal_strlit("syntax");
    reveal_strlit("normal");
    reveal_strlit("auto");
    assert("blink"@ =~= seq!['b', 'l', 'i', 'n', 'k']);
    assert("bold"@ =~= seq!['b', 'o', 'l', 'd']);
    assert("dim"@ =~= seq!['d', 'i', 'm']);
    assert("hidden"@ =~= seq!['h', 'i', 'd', 'd', 'e', 'n']);
    assert("italic"@ =~= seq!['i', 't', 'a', 'l', 'i', 'c']);
    assert("omit"@ =~= seq!['o', 'm', 'i', 't']);
    assert("reverse"@ =~= seq!['r', 'e', 'v', 'e', 'r', 's', 'e']);
    assert("raw"@ =~= seq!['r', 'a', 'w']);
    assert("strike"@ =~= seq!['s', 't', 'r', 'i', 'k', 'e']);
    assert("ul"@ =~= seq!['u', 'l']);
    assert("underline"@ =~= seq!['u', 'n', 'd', 'e', 'r', 'l', 'i', 'n', 'e']);
    assert("syntax"@ =~= seq!['s', 'y', 'n', 't', 'a', 'x']);
    assert("normal"@ =~= seq!['n', 'o', 'r', 'm', 'a', 'l']);
    assert("auto"@ =~= seq!['a', 'u', 't', 'o']);
}

/// A word of small ASCII letters is a token that tokenizing leaves as it
/// is.
pub proof fn lemma_small_letters_are_settled(word: Seq<char>)
    requires
        forall|i: int| 0 <= i < word.len() ==> 'a' <= #[trigger] word[i] <= 'z',
    ensures
        is_settled(word),
{
    assert forall|i: int| 0 <= i < word.len() implies is_settled_char(#[trigger] word[i]) by {
        assert('a' <= word[i] <= 'z');
    }
    if word.len() > 0 {
        assert('a' <= word[0] <= 'z');
        assert('a' <= word.last() <= 'z');
    }
}

/// The words of the parser are settled tokens, and each is the word that it
/// spells.
pub proof fn lemma_words_of_the_parser()
    ensures
        is_settled("blink"@) && style_word("blink"@) == StyleWord::Blink,
        is_settled("bold"@) && style_word("bold"@) == StyleWord::Bold,
        is_settled("dim"@) && style_word("dim"@) == StyleWord::Dim,
        is_settled("hidden"@) && style_word("hidden"@) == StyleWord::Hidden,
        is_settled("italic"@) && style_word("italic"@) == StyleWord::Italic,
        is_settled("omit"@) && style_word("omit"@) == StyleWord::Omit,
        is_settled("reverse"@) && style_word("reverse"@) == StyleWord::Reverse,
        is_settled("raw"@) && style_word("raw"@) == StyleWord::Raw,
        is_settled("strike"@) && style_word("strike"@) == StyleWord::Strike,
        is_settled("ul"@) && style_word("ul"@) == StyleWord::Underline,
        is_settled("underline"@) && style_word("underline"@) == StyleWord::Underline,
        is_settled("syntax"@) && style_word("syntax"@) == StyleWord::Syntax,
        is_settled("normal"@) && style_word("normal"@) == StyleWord::Color,
        "blink"@.len() > 0 && "bold"@.len() > 0 && "dim"@.len() > 0 && "hidden"@.len() > 0
            && "italic"@.len() > 0 && "omit"@.len() > 0 && "reverse"@.len() > 0 && "raw"@.len()
            > 0 && "strike"@.len() > 0 && "ul"@.len() > 0 && "underline"@.len() > 0
            && "syntax"@.len() > 0 && "normal"@.len() > 0,
{
    lemma_spelling();
    reveal(style_word);
    lemma_small_letters_are_settled("blink"@);
    lemma_small_letters_are_settled("bold"@);
    lemma_small_letters_are_settled("dim"@);
    lemma_small_letters_are_settled("hidden"@);
    lemma_small_letters_are_settled("italic"@);
    lemma_small_letters_are_settled("omit"@);
    lemma_small_letters_are_settled("reverse"@);
    lemma_small_letters_are_settled("raw"@);
    lemma_small_letters_are_settled("strike"@);
    lemma_small_letters_are_settled("ul"@);
    lemma_small_letters_are_settled("underline"@);
    lemma_small_letters_are_settled("syntax"@);
    lemma_small_letters_are_settled("normal"@);
}

/// The token that names a colour: its number, its six digits, or `normal`
/// where there is none.
pub open spec fn color_token(color: Option<Color>) -> Seq<char> {
    match color {
        Some(Color::Fixed(n)) => decimal_digits(n as nat),
        Some(Color::RGB(r, g, b)) => hex_digits(r, g, b),
        _ => "normal"@,
    }
}

/// The colours that a token can name: no colour, a number of the palette,
/// and, on a terminal with true colour, a 24-bit colour.
pub open spec fn can_be_written(color: Option<Color>, true_color: bool) -> bool {
    match color {
        None => true,
        Some(Color::Fixed(_)) => true,
        Some(Color::RGB(_, _, _)) => true_color,
        Some(_) => false,
    }
}

/// The word, where it is present.
pub open spec fn word_if(present: bool, word: Seq<char>) -> Seq<Seq<char>> {
    if present {
        seq![word]
    } else {
        Seq::empty()
    }
}

/// The words of the attributes and flags that are set.
pub open spec fn attribute_tokens(read: (TerminalStyle, bool, bool, bool)) -> Seq<Seq<char>> {
    let (style, omitted, raw, syntax) = read;
    word_if(style.is_blink, "blink"@) + word_if(style.is_bold, "bold"@) + word_if(
        style.is_dimmed,
        "dim"@,
    ) + word_if(style.is_hidden, "hidden"@) + word_if(style.is_italic, "italic"@) + word_if(
        omitted,
        "omit"@,
    ) + word_if(style.is_reverse, "reverse"@) + word_if(raw, "raw"@) + word_if(
        style.is_strikethrough,
        "strike"@,
    ) + word_if(style.is_underline, "ul"@)
}

/// The tokens of a style: the words of its attributes and flags, then the
/// foreground, or `syntax` in its place, then the background.
pub open spec fn style_tokens(read: (TerminalStyle, bool, bool, bool)) -> Seq<Seq<char>> {
    attribute_tokens(read).push(
        if read.3 {
            "syntax"@
        } else {
            color_token(read.0.foreground)
        },
    ).push(color_token(read.0.background))
}

/// A style as a style string.
pub open spec fn written(read: (TerminalStyle, bool, bool, bool)) -> Seq<char> {
    join(style_tokens(read))
}

/// The styles that a style string can describe: their colours can be
/// written, and where `syntax` takes the place of the foreground there is no
/// foreground colour.
pub open spec fn is_writable(read: (TerminalStyle, bool, bool, bool), true_color: bool) -> bool {
    &&& can_be_written(read.0.foreground, true_color)
    &&& can_be_written(read.0.background, true_color)
    &&& read.3 ==> read.0.foreground is None
}

/// Settled tokens of which none is empty.
pub open spec fn all_written(tokens: Seq<Seq<char>>) -> bool {
    forall|i: int| 0 <= i < tokens.len() ==> is_settled(#[trigger] tokens[i]) && tokens[i].len() > 0
}

/// A string of settled tokens of which none is empty has these tokens.
pub proof fn lemma_tokens_of_written(tokens: Seq<Seq<char>>)
    requires
        all_written(tokens),
    ensures
        tokens_of(join(tokens)) == tokens,
    decreases tokens.len(),
{
    assert(all_settled(tokens)) by {
        assert forall|i: int| 0 <= i < tokens.len() implies is_settled(#[trigger] tokens[i]) by {
            assert(is_settled(tokens[i]) && tokens[i].len() > 0);
        }
    }
    lemma_tokens_of_joined(tokens);
    lemma_filter_keeps_all(tokens);
}

/// Where no token is empty, leaving out the empty ones leaves all.
pub proof fn lemma_filter_keeps_all(tokens: Seq<Seq<char>>)
    requires
        forall|i: int| 0 <= i < tokens.len() ==> (#[trigger] tokens[i]).len() > 0,
    ensures
        tokens.filter(not_empty()) == tokens,
    decreases tokens.len(),
{
    reveal(Seq::filter);
    if tokens.len() > 0 {
        let front = tokens.drop_last();
        assert forall|i: int| 0 <= i < front.len() implies (#[trigger] front[i]).len() > 0 by {
            assert(front[i] == tokens[i]);
        }
        lemma_filter_keeps_all(front);
        assert(tokens.last() == tokens[tokens.len() - 1]);
        assert(front.push(tokens.last()) =~= tokens);
    }
}

/// The tokens are written, claim no colour, and say `read`.
#[verifier::opaque]
spec fn says(
    tokens: Seq<Seq<char>>,
    read: (TerminalStyle, bool, bool, bool),
    s: Seq<char>,
    f: Option<Color>,
    b: Option<Color>,
    t: bool,
) -> bool {
    &&& parse_tokens(tokens, s, f, b, t) == Ok::<(TerminalStyle, bool, bool, bool), StyleErrorView>(
        read,
    )
    &&& color_words(tokens).len() == 0
    &&& all_written(tokens)
}

/// One more word, where it is present, behind tokens that claim no colour.
proof fn lemma_written_word(
    tokens: Seq<Seq<char>>,
    present: bool,
    word: Seq<char>,
    expected: StyleWord,
    read: (TerminalStyle, bool, bool, bool),
    s: Seq<char>,
    f: Option<Color>,
    b: Option<Color>,
    t: bool,
)
    requires
        says(tokens, read, s, f, b, t),
        is_settled(word),
        word.len() > 0,
        style_word(word) == expected,
        expected != StyleWord::Color,
        expected != StyleWord::Syntax,
    ensures
        says(
            tokens + word_if(present, word),
            if present {
                set_word(read, expected)
            } else {
                read
            },
            s,
            f,
            b,
            t,
        ),
{
    reveal(says);
    let longer = tokens + word_if(present, word);
    if present {
        assert(longer =~= tokens.push(word));
        lemma_parse_tokens_push(tokens, word, s, f, b, t);
        lemma_color_words_push(tokens, word);
        assert forall|i: int| 0 <= i < longer.len() implies is_settled(#[trigger] longer[i])
            && longer[i].len() > 0 by {
            if i < tokens.len() {
                assert(longer[i] == tokens[i]);
            }
        }
    } else {
        assert(longer =~= tokens);
    }
}

/// The token of a colour that can be written is settled and not empty, and
/// it names the colour.
pub proof fn lemma_written_color(color: Option<Color>, default: Option<Color>, true_color: bool)
    requires
        can_be_written(color, true_color),
    ensures
        is_settled(color_token(color)),
        color_token(color).len() > 0,
        style_word(color_token(color)) == StyleWord::Color,
        resolve_color(color_token(color), default, true_color) == Some(color),
{
    match color {
        Some(Color::Fixed(n)) => {
            lemma_written_number(n, default, true_color);
        },
        Some(Color::RGB(r, g, b)) => {
            lemma_written_rgb(r, g, b, default, true_color);
        },
        _ => {
            lemma_words_of_the_parser();
            reveal(resolve_color);
        },
    }
}

/// What the first `n` of the words of a style say.
spec fn said_by(read: (TerminalStyle, bool, bool, bool), n: nat) -> (
    TerminalStyle,
    bool,
    bool,
    bool,
) {
    let (style, omitted, raw, syntax) = read;
    (
        TerminalStyle {
            foreground: None,
            background: None,
            is_blink: n >= 1 && style.is_blink,
            is_bold: n >= 2 && style.is_bold,
            is_dimmed: n >= 3 && style.is_dimmed,
            is_hidden: n >= 4 && style.is_hidden,
            is_italic: n >= 5 && style.is_italic,
            is_reverse: n >= 7 && style.is_reverse,
            is_strikethrough: n >= 9 && style.is_strikethrough,
            is_underline: n >= 10 && style.is_underline,
        },
        n >= 6 && omitted,
        n >= 8 && raw,
        false,
    )
}

/// The first five of the words of a style.
spec fn first_five(read: (TerminalStyle, bool, bool, bool)) -> Seq<Seq<char>> {
    word_if(read.0.is_blink, "blink"@) + word_if(read.0.is_bold, "bold"@) + word_if(
        read.0.is_dimmed,
        "dim"@,
    ) + word_if(read.0.is_hidden, "hidden"@) + word_if(read.0.is_italic, "italic"@)
}

/// The first five words of a style say what they stand for.
proof fn lemma_first_five(
    read: (TerminalStyle, bool, bool, bool),
    s: Seq<char>,
    f: Option<Color>,
    b: Option<Color>,
    t: bool,
)
    ensures
        says(first_five(read), said_by(read, 5), s, f, b, t),
{
    let style = read.0;
    lemma_words_of_the_parser();
    let t0 = Seq::<Seq<char>>::empty();
    assert(says(t0, said_by(read, 0), s, f, b, t)) by {
        reveal(says);
        lemma_parse_no_tokens(s, f, b, t);
    }
    lemma_written_word(
        t0,
        style.is_blink,
        "blink"@,
        StyleWord::Blink,
        said_by(read, 0),
        s,
        f,
        b,
        t,
    );
    let t1 = t0 + word_if(style.is_blink, "blink"@);
    assert(t1 =~= word_if(style.is_blink, "blink"@));
    assert(says(t1, said_by(read, 1), s, f, b, t));
    lemma_written_word(t1, style.is_bold, "bold"@, StyleWord::Bold, said_by(read, 1), s, f, b, t);
    let t2 = t1 + word_if(style.is_bold, "bold"@);
    assert(says(t2, said_by(read, 2), s, f, b, t));
    lemma_written_word(t2, style.is_dimmed, "dim"@, StyleWord::Dim, said_by(read, 2), s, f, b, t);
    let t3 = t2 + word_if(style.is_dimmed, "dim"@);
    assert(says(t3, said_by(read, 3), s, f, b, t));
    lemma_written_word(
        t3,
        style.is_hidden,
        "hidden"@,
        StyleWord::Hidden,
        said_by(read, 3),
        s,
        f,
        b,
        t,
    );
    let t4 = t3 + word_if(style.is_hidden, "hidden"@);
    assert(says(t4, said_by(read, 4), s, f, b, t));
    lemma_written_word(
        t4,
        style.is_italic,
        "italic"@,
        StyleWord::Italic,
        said_by(read, 4),
        s,
        f,
        b,
        t,
    );
}

/// The ten words of a style say what they stand for.
#[verifier::rlimit(20)]
proof fn lemma_ten_words(
    read: (TerminalStyle, bool, bool, bool),
    s: Seq<char>,
    f: Option<Color>,
    b: Option<Color>,
    t: bool,
)
    ensures
        says(attribute_tokens(read), said_by(read, 10), s, f, b, t),
{
    let style = read.0;
    lemma_words_of_the_parser();
    lemma_first_five(read, s, f, b, t);
    let t5 = first_five(read);
    lemma_written_word(t5, read.1, "omit"@, StyleWord::Omit, said_by(read, 5), s, f, b, t);
    let t6 = t5 + word_if(read.1, "omit"@);
    assert(says(t6, said_by(read, 6), s, f, b, t));
    lemma_written_word(
        t6,
        style.is_reverse,
        "reverse"@,
        StyleWord::Reverse,
        said_by(read, 6),
        s,
        f,
        b,
        t,
    );
    let t7 = t6 + word_if(style.is_reverse, "reverse"@);
    assert(says(t7, said_by(read, 7), s, f, b, t));
    lemma_written_word(t7, read.2, "raw"@, StyleWord::Raw, said_by(read, 7), s, f, b, t);
    let t8 = t7 + word_if(read.2, "raw"@);
    assert(says(t8, said_by(read, 8), s, f, b, t));
    lemma_written_word(
        t8,
        style.is_strikethrough,
        "strike"@,
        StyleWord::Strike,
        said_by(read, 8),
        s,
        f,
        b,
        t,
    );
    let t9 = t8 + word_if(style.is_strikethrough, "strike"@);
    assert(says(t9, said_by(read, 9), s, f, b, t));
    lemma_written_word(
        t9,
        style.is_underline,
        "ul"@,
        StyleWord::Underline,
        said_by(read, 9),
        s,
        f,
        b,
        t,
    );
    let t10 = t9 + word_if(style.is_underline, "ul"@);
    assert(says(t10, said_by(read, 10), s, f, b, t));
    assert(t10 == attribute_tokens(read));
}

/// The words of the attributes and flags of a style say these attributes
/// and flags, and claim no colour.
proof fn lemma_attribute_tokens(
    read: (TerminalStyle, bool, bool, bool),
    s: Seq<char>,
    f: Option<Color>,
    b: Option<Color>,
    t: bool,
)
    ensures
        parse_tokens(attribute_tokens(read), s, f, b, t) == Ok::<
            (TerminalStyle, bool, bool, bool),
            StyleErrorView,
        >((TerminalStyle { foreground: None, background: None, ..read.0 }, read.1, read.2, false)),
        color_words(attribute_tokens(read)).len() == 0,
        all_written(attribute_tokens(read)),
{
    lemma_ten_words(read, s, f, b, t);
    reveal(says);
}

/// The tokens of a style say the style.
proof fn lemma_style_tokens_say_the_style(
    read: (TerminalStyle, bool, bool, bool),
    s: Seq<char>,
    f: Option<Color>,
    b: Option<Color>,
    t: bool,
)
    requires
        is_writable(read, t),
    ensures
        parse_tokens(style_tokens(read), s, f, b, t) == Ok::<
            (TerminalStyle, bool, bool, bool),
            StyleErrorView,
        >(read),
{
    let words = attribute_tokens(read);
    lemma_attribute_tokens(read, s, f, b, t);
    let base = (
        TerminalStyle { foreground: None, background: None, ..read.0 },
        read.1,
        read.2,
        false,
    );
    let first = if read.3 {
        "syntax"@
    } else {
        color_token(read.0.foreground)
    };
    assert(claims_color(first) && (if read.3 {
        style_word(first) == StyleWord::Syntax
    } else {
        style_word(first) == StyleWord::Color && resolve_color(first, f, t) == Some(
            read.0.foreground,
        )
    })) by {
        lemma_words_of_the_parser();
        lemma_written_color(read.0.foreground, f, t);
    }
    let second = color_token(read.0.background);
    assert(style_word(second) == StyleWord::Color && resolve_color(second, b, t) == Some(
        read.0.background,
    )) by {
        lemma_written_color(read.0.background, b, t);
    }
    let with_first = words.push(first);
    lemma_parse_tokens_push(words, first, s, f, b, t);
    lemma_color_words_push(words, first);
    let middle = (TerminalStyle { background: None, ..read.0 }, read.1, read.2, read.3);
    assert(parse_tokens(with_first, s, f, b, t) == Ok::<
        (TerminalStyle, bool, bool, bool),
        StyleErrorView,
    >(middle));
    assert(color_words(with_first).len() == 1);
    lemma_parse_tokens_push(with_first, second, s, f, b, t);
}

/// The tokens of a style are settled, and none is empty.
#[verifier::rlimit(20)]
pub proof fn lemma_style_tokens_are_written(read: (TerminalStyle, bool, bool, bool), t: bool)
    requires
        is_writable(read, t),
    ensures
        all_written(style_tokens(read)),
{
    let words = attribute_tokens(read);
    lemma_attribute_tokens(read, Seq::empty(), None, None, t);
    lemma_words_of_the_parser();
    lemma_written_color(read.0.foreground, None, t);
    lemma_written_color(read.0.background, None, t);
    let tokens = style_tokens(read);
    assert forall|i: int| 0 <= i < tokens.len() implies is_settled(#[trigger] tokens[i])
        && tokens[i].len() > 0 by {
        if i < words.len() {
            assert(tokens[i] == words[i]);
        }
    }
}

/// Reading a style that was written as a style string gives the style
/// back, whatever the default colours are.
pub proof fn theorem_reading_what_was_written(
    read: (TerminalStyle, bool, bool, bool),
    foreground_default: Option<Color>,
    background_default: Option<Color>,
    true_color: bool,
)
    requires
        is_writable(read, true_color),
    ensures
        parse_style(written(read), foreground_default, background_default, true_color) == Ok::<
            (TerminalStyle, bool, bool, bool),
            StyleErrorView,
        >(read),
{
    lemma_style_tokens_are_written(read, true_color);
    lemma_tokens_of_written(style_tokens(read));
    lemma_style_tokens_say_the_style(
        read,
        written(read),
        foreground_default,
        background_default,
        true_color,
    );
}

/// Reading is idempotent: where a style string describes a style that can
/// be written, the style written out and read again is the same style.
pub proof fn theorem_reading_is_idempotent(
    style_string: Seq<char>,
    foreground_default: Option<Color>,
    background_default: Option<Color>,
    true_color: bool,
)
    requires
        parse_style(style_string, foreground_default, background_default, true_color) is Ok,
        is_writable(
            parse_style(style_string, foreground_default, background_default, true_color)->Ok_0,
            true_color,
        ),
    ensures
        parse_style(
            written(
                parse_style(
                    style_string,
                    foreground_default,
                    background_default,
                    true_color,
                )->Ok_0,
            ),
            foreground_default,
            background_default,
            true_color,
        ) == parse_style(style_string, foreground_default, background_default, true_color),
{
    theorem_reading_what_was_written(
        parse_style(style_string, foreground_default, background_default, true_color)->Ok_0,
        foreground_default,
        background_default,
        true_color,
    );
}

} // verus!
