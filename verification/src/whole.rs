//! Whole styles written out as their two strings.
//!
//! A decoration is written as its decoration words and the style it is
//! drawn in. Because `ul` in a decoration style string is said of the
//! decoration, a style that underlines cannot be written there. Reading the
//! two strings of a style gives the style back.

use crate::attributes::{DecorationFlag, DecorationKind, decoration_kind};
use crate::decoration::{
    DecorationStyle,
    DecorationWord,
    decoration_flags,
    decoration_word,
    extract,
    flag_word,
    mentions,
    no_decoration_word,
    plain_tokens,
};
use crate::error::StyleErrorView;
use crate::parser::{lemma_parse_no_tokens, parse_style};
use crate::settled::is_settled;
use crate::style::Style;
use crate::terminal::{Color, TerminalStyle};
use crate::text::join;
use crate::written::{
    all_written,
    attribute_tokens,
    color_token,
    decimal_digits,
    hex_digits,
    is_writable,
    lemma_decimal_digits,
    lemma_small_letters_are_settled,
    lemma_style_tokens_are_written,
    lemma_tokens_of_written,
    style_tokens,
    theorem_reading_what_was_written,
    word_if,
    written,
};
use vstd::prelude::*;

verus! {

/// The decoration words that ask for a decoration of the given kind.
pub open spec fn kind_words(kind: DecorationKind) -> Seq<Seq<char>> {
    match kind {
        DecorationKind::Box => seq!["box"@],
        DecorationKind::Underline => seq!["ul"@],
        DecorationKind::Overline => seq!["ol"@],
        DecorationKind::Underoverline => seq!["ul"@, "ol"@],
        DecorationKind::NoDecoration => Seq::empty(),
    }
}

/// The kind of a decoration.
pub open spec fn kind_of(decoration: DecorationStyle) -> DecorationKind {
    match decoration {
        DecorationStyle::Box(_) => DecorationKind::Box,
        DecorationStyle::Underline(_) => DecorationKind::Underline,
        DecorationStyle::Overline(_) => DecorationKind::Overline,
        DecorationStyle::Underoverline(_) => DecorationKind::Underoverline,
        DecorationStyle::NoDecoration => DecorationKind::NoDecoration,
    }
}

/// The tokens of a decoration: its decoration words, then the tokens of the
/// style it is drawn in. No decoration has no tokens.
pub open spec fn decoration_tokens(decoration: DecorationStyle) -> Seq<Seq<char>> {
    match decoration.carried() {
        Some(style) => kind_words(kind_of(decoration)) + style_tokens(
            (style, false, false, false),
        ),
        None => Seq::empty(),
    }
}

/// A decoration as a decoration style string.
pub open spec fn written_decoration(decoration: DecorationStyle) -> Seq<char> {
    join(decoration_tokens(decoration))
}

/// The decorations that a decoration style string can describe: the colours
/// of their style can be written, and the style does not underline.
pub open spec fn is_writable_decoration(decoration: DecorationStyle, true_color: bool) -> bool {
    match decoration.carried() {
        Some(style) => is_writable((style, false, false, false), true_color)
            && !style.is_underline,
        None => true,
    }
}

/// The styles that two strings can describe.
pub open spec fn is_writable_style(style: Style, true_color: bool) -> bool {
    &&& is_writable(
        (style.ansi_term_style, style.is_omitted, style.is_raw, style.is_syntax_highlighted),
        true_color,
    )
    &&& is_writable_decoration(style.decoration_style, true_color)
}

/// No token of the list is a decoration word.
#[verifier::opaque]
spec fn none_decorates(tokens: Seq<Seq<char>>) -> bool {
    forall|i: int| 0 <= i < tokens.len() ==> decoration_word(#[trigger] tokens[i])
        == DecorationWord::Other
}

/// The decoration words are what they spell, and the words of the parser
/// other than `ul` and `underline` are no decoration words.
proof fn lemma_decoration_words()
    ensures
        decoration_word("box"@) == DecorationWord::Box,
        decoration_word("ol"@) == DecorationWord::Overline,
        decoration_word("ul"@) == DecorationWord::Underline,
        decoration_word("blink"@) == DecorationWord::Other,
        decoration_word("bold"@) == DecorationWord::Other,
        decoration_word("dim"@) == DecorationWord::Other,
        decoration_word("hidden"@) == DecorationWord::Other,
        decoration_word("italic"@) == DecorationWord::Other,
        decoration_word("omit"@) == DecorationWord::Other,
        decoration_word("reverse"@) == DecorationWord::Other,
        decoration_word("raw"@) == DecorationWord::Other,
        decoration_word("strike"@) == DecorationWord::Other,
        decoration_word("syntax"@) == DecorationWord::Other,
        decoration_word("normal"@) == DecorationWord::Other,
        "box"@.len() == 3 && "ol"@.len() == 2 && "ul"@.len() == 2,
        forall|token: Seq<char>|
            token.len() > 0 && ('0' <= token[0] <= '9' || token[0] == '#') ==> decoration_word(
                token,
            ) == DecorationWord::Other,
{
    reveal(decoration_word);
    reveal_strlit("box");
    reveal_strlit("ol");
    reveal_strlit("overline");
    reveal_strlit("ul");
    reveal_strlit("underline");
    reveal_strlit("none");
    reveal_strlit("plain");
    reveal_strlit("blink");
    reveal_strlit("bold");
    reveal_strlit("dim");
    reveal_strlit("hidden");
    reveal_strlit("italic");
    reveal_strlit("omit");
    reveal_strlit("reverse");
    reveal_strlit("raw");
    reveal_strlit("strike");
    reveal_strlit("syntax");
    reveal_strlit("normal");
    assert("box"@[0] == 'b' && "ol"@[0] == 'o' && "overline"@[0] == 'o' && "ul"@[0] == 'u'
        && "underline"@[0] == 'u' && "none"@[0] == 'n' && "plain"@[0] == 'p');
    assert("none"@[2] == 'n' && "normal"@[2] == 'r');
    assert("blink"@[1] == 'l' && "bold"@[1] == 'o' && "box"@[2] == 'x' && "bold"@[2] == 'l');
    assert("omit"@[1] == 'm' && "ol"@[1] == 'l');
}

/// One more word, where it is present, that is no decoration word.
proof fn lemma_one_more_word(tokens: Seq<Seq<char>>, present: bool, word: Seq<char>)
    requires
        none_decorates(tokens),
        present ==> decoration_word(word) == DecorationWord::Other,
    ensures
        none_decorates(tokens + word_if(present, word)),
{
    reveal(none_decorates);
    let longer = tokens + word_if(present, word);
    assert forall|i: int| 0 <= i < longer.len() implies decoration_word(#[trigger] longer[i])
        == DecorationWord::Other by {
        if i < tokens.len() {
            assert(longer[i] == tokens[i]);
        } else {
            assert(longer[i] == word);
        }
    }
}

/// The words of the attributes and flags of a style that does not underline
/// are no decoration words.
proof fn lemma_attribute_tokens_do_not_decorate(read: (TerminalStyle, bool, bool, bool))
    requires
        !read.0.is_underline,
    ensures
        none_decorates(attribute_tokens(read)),
{
    let style = read.0;
    lemma_decoration_words();
    let t0 = Seq::<Seq<char>>::empty();
    assert(none_decorates(t0)) by {
        reveal(none_decorates);
    }
    lemma_one_more_word(t0, style.is_blink, "blink"@);
    let t1 = word_if(style.is_blink, "blink"@);
    assert(t0 + t1 =~= t1);
    lemma_one_more_word(t1, style.is_bold, "bold"@);
    let t2 = t1 + word_if(style.is_bold, "bold"@);
    lemma_one_more_word(t2, style.is_dimmed, "dim"@);
    let t3 = t2 + word_if(style.is_dimmed, "dim"@);
    lemma_one_more_word(t3, style.is_hidden, "hidden"@);
    let t4 = t3 + word_if(style.is_hidden, "hidden"@);
    lemma_one_more_word(t4, style.is_italic, "italic"@);
    let t5 = t4 + word_if(style.is_italic, "italic"@);
    lemma_one_more_word(t5, read.1, "omit"@);
    let t6 = t5 + word_if(read.1, "omit"@);
    lemma_one_more_word(t6, style.is_reverse, "reverse"@);
    let t7 = t6 + word_if(style.is_reverse, "reverse"@);
    lemma_one_more_word(t7, read.2, "raw"@);
    let t8 = t7 + word_if(read.2, "raw"@);
    lemma_one_more_word(t8, style.is_strikethrough, "strike"@);
    let t9 = t8 + word_if(style.is_strikethrough, "strike"@);
    lemma_one_more_word(t9, style.is_underline, "ul"@);
    let t10 = t9 + word_if(style.is_underline, "ul"@);
    assert(t10 == attribute_tokens(read));
}

/// The token of a colour is no decoration word.
proof fn lemma_color_token_does_not_decorate(color: Option<Color>)
    ensures
        decoration_word(color_token(color)) == DecorationWord::Other,
{
    lemma_decoration_words();
    match color {
        Some(Color::Fixed(n)) => {
            lemma_decimal_digits(n as nat);
            let token = decimal_digits(n as nat);
            assert('0' <= token[0] <= '9');
        },
        Some(Color::RGB(r, g, b)) => {
            assert(hex_digits(r, g, b)[0] == '#');
        },
        _ => {},
    }
}

/// The tokens of a style that does not underline are no decoration words.
proof fn lemma_style_tokens_do_not_decorate(read: (TerminalStyle, bool, bool, bool))
    requires
        !read.0.is_underline,
    ensures
        none_decorates(style_tokens(read)),
{
    lemma_attribute_tokens_do_not_decorate(read);
    lemma_decoration_words();
    lemma_color_token_does_not_decorate(read.0.foreground);
    lemma_color_token_does_not_decorate(read.0.background);
    let words = attribute_tokens(read);
    let first = if read.3 {
        "syntax"@
    } else {
        color_token(read.0.foreground)
    };
    lemma_one_more_word(words, true, first);
    assert(words + word_if(true, first) =~= words.push(first));
    lemma_one_more_word(words.push(first), true, color_token(read.0.background));
    assert(words.push(first) + word_if(true, color_token(read.0.background))
        =~= style_tokens(read));
}

/// Tokens of which none is a decoration word stay when the decoration
/// words are taken out, and they mention no decoration.
proof fn lemma_nothing_is_taken_out(tokens: Seq<Seq<char>>)
    requires
        none_decorates(tokens),
    ensures
        plain_tokens(tokens) == tokens,
        !mentions(tokens, DecorationWord::Box),
        !mentions(tokens, DecorationWord::Overline),
        !mentions(tokens, DecorationWord::Underline),
    decreases tokens.len(),
{
    reveal(none_decorates);
    reveal(mentions);
    reveal(Seq::filter);
    if tokens.len() > 0 {
        let front = tokens.drop_last();
        assert(none_decorates(front)) by {
            assert forall|i: int| 0 <= i < front.len() implies decoration_word(
                #[trigger] front[i],
            ) == DecorationWord::Other by {
                assert(front[i] == tokens[i]);
            }
        }
        lemma_nothing_is_taken_out(front);
        assert(decoration_word(tokens[tokens.len() - 1]) == DecorationWord::Other);
        assert(front.push(tokens.last()) =~= tokens);
    }
}

/// Two lists one behind the other mention the words that either mentions.
proof fn lemma_mentions_add(front: Seq<Seq<char>>, back: Seq<Seq<char>>, word: DecorationWord)
    ensures
        mentions(front + back, word) <==> mentions(front, word) || mentions(back, word),
{
    reveal(mentions);
    let whole = front + back;
    if mentions(front, word) {
        let i = choose|i: int|
            0 <= i < front.len() && decoration_word(#[trigger] front[i]) == word;
        assert(whole[i] == front[i]);
    }
    if mentions(back, word) {
        let i = choose|i: int| 0 <= i < back.len() && decoration_word(#[trigger] back[i]) == word;
        assert(whole[i + front.len()] == back[i]);
    }
    if mentions(whole, word) {
        let i = choose|i: int|
            0 <= i < whole.len() && decoration_word(#[trigger] whole[i]) == word;
        if i < front.len() {
            assert(whole[i] == front[i]);
        } else {
            assert(whole[i] == back[i - front.len()]);
        }
    }
}

/// The decoration words of a kind are taken out of a list, and they ask for
/// a decoration of that kind.
proof fn lemma_kind_words(kind: DecorationKind)
    ensures
        plain_tokens(kind_words(kind)) == Seq::<Seq<char>>::empty(),
        mentions(kind_words(kind), DecorationWord::Box) <==> kind == DecorationKind::Box,
        mentions(kind_words(kind), DecorationWord::Overline) <==> kind == DecorationKind::Overline
            || kind == DecorationKind::Underoverline,
        mentions(kind_words(kind), DecorationWord::Underline) <==> kind
            == DecorationKind::Underline || kind == DecorationKind::Underoverline,
        all_written(kind_words(kind)),
{
    reveal(mentions);
    reveal_with_fuel(Seq::filter, 3);
    lemma_decoration_words();
    let words = kind_words(kind);
    reveal_strlit("box");
    reveal_strlit("ol");
    reveal_strlit("ul");
    lemma_small_letters_are_settled("box"@);
    lemma_small_letters_are_settled("ol"@);
    lemma_small_letters_are_settled("ul"@);
    match kind {
        DecorationKind::Box => {
            assert(words[0] == "box"@);
            assert(words.drop_last() =~= Seq::<Seq<char>>::empty());
        },
        DecorationKind::Underline => {
            assert(words[0] == "ul"@);
            assert(words.drop_last() =~= Seq::<Seq<char>>::empty());
        },
        DecorationKind::Overline => {
            assert(words[0] == "ol"@);
            assert(words.drop_last() =~= Seq::<Seq<char>>::empty());
        },
        DecorationKind::Underoverline => {
            assert(words[0] == "ul"@);
            assert(words[1] == "ol"@);
            assert(words.drop_last() =~= seq!["ul"@]);
            assert(words.drop_last().drop_last() =~= Seq::<Seq<char>>::empty());
        },
        DecorationKind::NoDecoration => {},
    }
    assert(plain_tokens(words) =~= Seq::<Seq<char>>::empty());
}

/// Taking the decoration words out of the tokens of a decoration leaves
/// the tokens of its style, and the words ask for its kind.
proof fn lemma_extract_decoration_tokens(kind: DecorationKind, tokens: Seq<Seq<char>>)
    requires
        none_decorates(tokens),
    ensures
        plain_tokens(kind_words(kind) + tokens) == tokens,
        decoration_kind(decoration_flags(kind_words(kind) + tokens)) == kind,
{
    let words = kind_words(kind);
    lemma_kind_words(kind);
    lemma_nothing_is_taken_out(tokens);
    Seq::filter_distributes_over_add(words, tokens, no_decoration_word());
    assert(Seq::<Seq<char>>::empty() + tokens =~= tokens);
    lemma_mentions_add(words, tokens, DecorationWord::Box);
    lemma_mentions_add(words, tokens, DecorationWord::Overline);
    lemma_mentions_add(words, tokens, DecorationWord::Underline);
    let flags = decoration_flags(words + tokens);
    assert(flags.contains(DecorationFlag::Box) <==> mentions(
        words + tokens,
        flag_word(DecorationFlag::Box),
    ));
    assert(flags.contains(DecorationFlag::Overline) <==> mentions(
        words + tokens,
        flag_word(DecorationFlag::Overline),
    ));
    assert(flags.contains(DecorationFlag::Underline) <==> mentions(
        words + tokens,
        flag_word(DecorationFlag::Underline),
    ));
}

/// The tokens of a decoration are settled, and none is empty.
proof fn lemma_decoration_tokens_are_written(decoration: DecorationStyle, true_color: bool)
    requires
        is_writable_decoration(decoration, true_color),
    ensures
        all_written(decoration_tokens(decoration)),
        decoration.carried() is Some ==> decoration_tokens(decoration).len() > 0,
{
    let tokens = decoration_tokens(decoration);
    match decoration.carried() {
        Some(style) => {
            let read = (style, false, false, false);
            let words = kind_words(kind_of(decoration));
            lemma_kind_words(kind_of(decoration));
            lemma_style_tokens_are_written(read, true_color);
            assert forall|i: int| 0 <= i < tokens.len() implies is_settled(#[trigger] tokens[i])
                && tokens[i].len() > 0 by {
                if i < words.len() {
                    assert(tokens[i] == words[i]);
                } else {
                    assert(tokens[i] == style_tokens(read)[i - words.len()]);
                }
            }
        },
        None => {},
    }
}

/// Taking the decoration words out of a written decoration leaves its
/// style as it is written, and the words ask for its kind.
proof fn lemma_extract_written_decoration(decoration: DecorationStyle, true_color: bool)
    requires
        is_writable_decoration(decoration, true_color),
    ensures
        extract(written_decoration(decoration)).0 == match decoration.carried() {
            Some(style) => written((style, false, false, false)),
            None => Seq::empty(),
        },
        decoration_kind(extract(written_decoration(decoration)).1) == kind_of(decoration),
{
    let tokens = decoration_tokens(decoration);
    lemma_decoration_tokens_are_written(decoration, true_color);
    lemma_tokens_of_written(tokens);
    match decoration.carried() {
        Some(style) => {
            let read = (style, false, false, false);
            lemma_style_tokens_do_not_decorate(read);
            lemma_extract_decoration_tokens(kind_of(decoration), style_tokens(read));
        },
        None => {
            assert(none_decorates(tokens)) by {
                reveal(none_decorates);
            }
            lemma_nothing_is_taken_out(tokens);
            assert(join(tokens) =~= Seq::<char>::empty());
            assert(!decoration_flags(tokens).contains(DecorationFlag::Box));
            assert(!decoration_flags(tokens).contains(DecorationFlag::Overline));
            assert(!decoration_flags(tokens).contains(DecorationFlag::Underline));
        },
    }
}

/// Reading a decoration that was written as a decoration style string
/// gives the decoration back.
pub proof fn theorem_reading_a_written_decoration(decoration: DecorationStyle, true_color: bool)
    requires
        is_writable_decoration(decoration, true_color),
    ensures
        DecorationStyle::parsed(written_decoration(decoration), true_color) == Ok::<
            DecorationStyle,
            StyleErrorView,
        >(decoration),
{
    reveal(DecorationStyle::parsed);
    lemma_extract_written_decoration(decoration, true_color);
    match decoration.carried() {
        Some(style) => {
            theorem_reading_what_was_written((style, false, false, false), None, None, true_color);
        },
        None => {
            lemma_parse_of_nothing(true_color);
        },
    }
}

/// The empty string describes the plain style.
pub proof fn lemma_parse_of_nothing(true_color: bool)
    ensures
        parse_style(Seq::empty(), None, None, true_color) == Ok::<
            (TerminalStyle, bool, bool, bool),
            StyleErrorView,
        >((TerminalStyle::plain(), false, false, false)),
{
    let none = Seq::<Seq<char>>::empty();
    assert(all_written(none));
    lemma_tokens_of_written(none);
    assert(join(none) =~= Seq::<char>::empty());
    lemma_parse_no_tokens(Seq::empty(), None, None, true_color);
}

/// Tokens that are not empty make a string that is not empty.
proof fn lemma_joined_is_not_empty(tokens: Seq<Seq<char>>)
    requires
        all_written(tokens),
        tokens.len() > 0,
    ensures
        join(tokens).len() > 0,
{
    assert(tokens.last() == tokens[tokens.len() - 1]);
    assert(tokens.last().len() > 0);
}

/// Reading the two strings of a style that was written out gives the style
/// back, whatever the default colours are.
pub proof fn theorem_reading_a_written_style(
    style: Style,
    foreground_default: Option<Color>,
    background_default: Option<Color>,
    true_color: bool,
)
    requires
        is_writable_style(style, true_color),
    ensures
        Style::parsed(
            written(
                (
                    style.ansi_term_style,
                    style.is_omitted,
                    style.is_raw,
                    style.is_syntax_highlighted,
                ),
            ),
            foreground_default,
            background_default,
            Some(written_decoration(style.decoration_style)),
            true_color,
            style.is_emph,
        ) == Ok::<Style, StyleErrorView>(style),
{
    reveal(Style::parsed);
    let read = (
        style.ansi_term_style,
        style.is_omitted,
        style.is_raw,
        style.is_syntax_highlighted,
    );
    theorem_reading_what_was_written(read, foreground_default, background_default, true_color);
    let decoration = style.decoration_style;
    theorem_reading_a_written_decoration(decoration, true_color);
    match decoration.carried() {
        Some(carried) => {
            lemma_decoration_tokens_are_written(decoration, true_color);
            lemma_joined_is_not_empty(decoration_tokens(decoration));
        },
        None => {
            assert(join(decoration_tokens(decoration)) =~= Seq::<char>::empty());
        },
    }
}

} // verus!
