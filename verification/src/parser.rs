//! The reading of a style string.
//!
//! A style string is a list of tokens in any order: at most two colours, the
//! foreground before the background, any number of attribute words, and the
//! words `omit` and `raw`. In place of the foreground colour the word
//! `syntax` may stand.

use crate::color::{resolve_color, resolve_token};
use crate::error::{StyleError, StyleErrorView, outcome};
use crate::terminal::{Color, TerminalStyle};
use crate::text::{string_of, token_views, tokenize, tokens_of, word_is};
use vstd::prelude::*;

verus! {

/// What a token of a style string is: one of the words that the parser
/// knows, or else the name of a colour.
#[derive(Clone, Copy, Debug, PartialEq, Eq)]
pub enum StyleWord {
    Blink,
    Bold,
    Dim,
    Hidden,
    Italic,
    Omit,
    Reverse,
    Raw,
    Strike,
    Underline,
    Syntax,
    Color,
}

/// What a token is. A line below the text has two words, `ul` and
/// `underline`.
#[verifier::opaque]
pub open spec fn style_word(token: Seq<char>) -> StyleWord {
    if token == "blink"@ {
        StyleWord::Blink
    } else if token == "bold"@ {
        StyleWord::Bold
    } else if token == "dim"@ {
        StyleWord::Dim
    } else if token == "hidden"@ {
        StyleWord::Hidden
    } else if token == "italic"@ {
        StyleWord::Italic
    } else if token == "omit"@ {
        StyleWord::Omit
    } else if token == "reverse"@ {
        StyleWord::Reverse
    } else if token == "raw"@ {
        StyleWord::Raw
    } else if token == "strike"@ {
        StyleWord::Strike
    } else if token == "ul"@ || token == "underline"@ {
        StyleWord::Underline
    } else if token == "syntax"@ {
        StyleWord::Syntax
    } else {
        StyleWord::Color
    }
}

/// The tokens that claim a colour: the names of colours, and `syntax`.
pub open spec fn claims_color(token: Seq<char>) -> bool {
    style_word(token) == StyleWord::Color || style_word(token) == StyleWord::Syntax
}

/// The test for a token that claims a colour.
pub open spec fn color_claim() -> spec_fn(Seq<char>) -> bool {
    |token: Seq<char>| claims_color(token)
}

/// The tokens that claim a colour, in order.
pub open spec fn color_words(tokens: Seq<Seq<char>>) -> Seq<Seq<char>> {
    tokens.filter(color_claim())
}

/// Whether one of the tokens is the given word.
#[verifier::opaque]
pub open spec fn names(tokens: Seq<Seq<char>>, word: StyleWord) -> bool {
    exists|i: int| 0 <= i < tokens.len() && style_word(#[trigger] tokens[i]) == word
}

/// The style with the given colours and the attributes that the tokens name.
pub open spec fn style_of_tokens(
    tokens: Seq<Seq<char>>,
    foreground: Option<Color>,
    background: Option<Color>,
) -> TerminalStyle {
    TerminalStyle {
        foreground,
        background,
        is_bold: names(tokens, StyleWord::Bold),
        is_dimmed: names(tokens, StyleWord::Dim),
        is_italic: names(tokens, StyleWord::Italic),
        is_underline: names(tokens, StyleWord::Underline),
        is_blink: names(tokens, StyleWord::Blink),
        is_reverse: names(tokens, StyleWord::Reverse),
        is_hidden: names(tokens, StyleWord::Hidden),
        is_strikethrough: names(tokens, StyleWord::Strike),
    }
}

/// What the tokens that claim a colour give: the foreground, the
/// background, and whether `syntax` stands in place of the foreground.
///
/// The first token gives the foreground and the second the background. The
/// first may be `syntax`, which gives no colour; the second may not. A third
/// is an error. Of several errors the one that stands first in the list is
/// reported; `style_string` is what the error for a third colour carries.
pub open spec fn read_colors(
    colors: Seq<Seq<char>>,
    style_string: Seq<char>,
    foreground_default: Option<Color>,
    background_default: Option<Color>,
    true_color: bool,
) -> Result<(Option<Color>, Option<Color>, bool), StyleErrorView> {
    let syntax = colors.len() >= 1 && style_word(colors[0]) == StyleWord::Syntax;
    let foreground = if colors.len() >= 1 && !syntax {
        resolve_color(colors[0], foreground_default, true_color)
    } else {
        Some(None)
    };
    let background = if colors.len() >= 2 {
        resolve_color(colors[1], background_default, true_color)
    } else {
        Some(None)
    };
    if foreground is None {
        Err(StyleErrorView::InvalidColor { token: colors[0] })
    } else if colors.len() >= 2 && style_word(colors[1]) == StyleWord::Syntax {
        Err(StyleErrorView::SyntaxAsBackground)
    } else if background is None {
        Err(StyleErrorView::InvalidColor { token: colors[1] })
    } else if colors.len() >= 3 {
        Err(StyleErrorView::InvalidStyleString { style_string })
    } else {
        Ok((foreground.unwrap(), background.unwrap(), syntax))
    }
}

/// What a list of tokens says: the style, and whether the text is omitted,
/// raw, and highlighted by syntax.
///
/// The colours are read from the tokens that claim one, in their order. An
/// attribute is set where one of the tokens is its word, wherever it stands,
/// and so are the flags of `omit` and `raw`.
#[verifier::opaque]
pub open spec fn parse_tokens(
    tokens: Seq<Seq<char>>,
    style_string: Seq<char>,
    foreground_default: Option<Color>,
    background_default: Option<Color>,
    true_color: bool,
) -> Result<(TerminalStyle, bool, bool, bool), StyleErrorView> {
    match read_colors(
        color_words(tokens),
        style_string,
        foreground_default,
        background_default,
        true_color,
    ) {
        Err(error) => Err(error),
        Ok((foreground, background, syntax)) => Ok(
            (
                style_of_tokens(tokens, foreground, background),
                names(tokens, StyleWord::Omit),
                names(tokens, StyleWord::Raw),
                syntax,
            ),
        ),
    }
}

/// What a style string says.
pub open spec fn parse_style(
    style_string: Seq<char>,
    foreground_default: Option<Color>,
    background_default: Option<Color>,
    true_color: bool,
) -> Result<(TerminalStyle, bool, bool, bool), StyleErrorView> {
    parse_tokens(
        tokens_of(style_string),
        style_string,
        foreground_default,
        background_default,
        true_color,
    )
}

/// What a colour in the given slot makes of a style: slot 0 is the
/// foreground, slot 1 the background, and there is no other.
pub open spec fn color_step(
    so_far: (TerminalStyle, bool, bool, bool),
    slot: nat,
    token: Seq<char>,
    style_string: Seq<char>,
    foreground_default: Option<Color>,
    background_default: Option<Color>,
    true_color: bool,
) -> Result<(TerminalStyle, bool, bool, bool), StyleErrorView> {
    let (style, omitted, raw, syntax) = so_far;
    if slot == 0 {
        if style_word(token) == StyleWord::Syntax {
            Ok((style, omitted, raw, true))
        } else {
            match resolve_color(token, foreground_default, true_color) {
                Some(color) => Ok(
                    (TerminalStyle { foreground: color, ..style }, omitted, raw, syntax),
                ),
                None => Err(StyleErrorView::InvalidColor { token }),
            }
        }
    } else if slot == 1 {
        if style_word(token) == StyleWord::Syntax {
            Err(StyleErrorView::SyntaxAsBackground)
        } else {
            match resolve_color(token, background_default, true_color) {
                Some(color) => Ok(
                    (TerminalStyle { background: color, ..style }, omitted, raw, syntax),
                ),
                None => Err(StyleErrorView::InvalidColor { token }),
            }
        }
    } else {
        Err(StyleErrorView::InvalidStyleString { style_string })
    }
}

/// What a word that claims no colour makes of a style: it sets its
/// attribute or its flag, and leaves the rest.
pub open spec fn set_word(so_far: (TerminalStyle, bool, bool, bool), word: StyleWord) -> (
    TerminalStyle,
    bool,
    bool,
    bool,
) {
    let (style, omitted, raw, syntax) = so_far;
    match word {
        StyleWord::Blink => (TerminalStyle { is_blink: true, ..style }, omitted, raw, syntax),
        StyleWord::Bold => (TerminalStyle { is_bold: true, ..style }, omitted, raw, syntax),
        StyleWord::Dim => (TerminalStyle { is_dimmed: true, ..style }, omitted, raw, syntax),
        StyleWord::Hidden => (TerminalStyle { is_hidden: true, ..style }, omitted, raw, syntax),
        StyleWord::Italic => (TerminalStyle { is_italic: true, ..style }, omitted, raw, syntax),
        StyleWord::Omit => (style, true, raw, syntax),
        StyleWord::Reverse => (TerminalStyle { is_reverse: true, ..style }, omitted, raw, syntax),
        StyleWord::Raw => (style, omitted, true, syntax),
        StyleWord::Strike => (
            TerminalStyle { is_strikethrough: true, ..style },
            omitted,
            raw,
            syntax,
        ),
        StyleWord::Underline => (
            TerminalStyle { is_underline: true, ..style },
            omitted,
            raw,
            syntax,
        ),
        StyleWord::Syntax | StyleWord::Color => so_far,
    }
}

/// What one more token makes of what the tokens before it said, where
/// `colors_seen` of them claimed a colour.
pub open spec fn parse_step(
    so_far: (TerminalStyle, bool, bool, bool),
    colors_seen: nat,
    token: Seq<char>,
    style_string: Seq<char>,
    foreground_default: Option<Color>,
    background_default: Option<Color>,
    true_color: bool,
) -> Result<(TerminalStyle, bool, bool, bool), StyleErrorView> {
    if claims_color(token) {
        color_step(
            so_far,
            colors_seen,
            token,
            style_string,
            foreground_default,
            background_default,
            true_color,
        )
    } else {
        Ok(set_word(so_far, style_word(token)))
    }
}

/// A list with one more token names the words that it named before, and the
/// word that the token is.
pub proof fn lemma_names_push(tokens: Seq<Seq<char>>, token: Seq<char>, word: StyleWord)
    ensures
        names(tokens.push(token), word) <==> names(tokens, word) || style_word(token) == word,
{
    reveal(names);
    let longer = tokens.push(token);
    if names(tokens, word) {
        let i = choose|i: int| 0 <= i < tokens.len() && style_word(#[trigger] tokens[i]) == word;
        assert(longer[i] == tokens[i]);
    }
    if style_word(token) == word {
        assert(longer[tokens.len() as int] == token);
    }
    if names(longer, word) {
        let i = choose|i: int| 0 <= i < longer.len() && style_word(#[trigger] longer[i]) == word;
        if i < tokens.len() {
            assert(longer[i] == tokens[i]);
        }
    }
}

/// The attributes of a list with one more token.
proof fn lemma_style_of_tokens_push(
    tokens: Seq<Seq<char>>,
    token: Seq<char>,
    foreground: Option<Color>,
    background: Option<Color>,
)
    ensures
        style_of_tokens(tokens.push(token), foreground, background) == (TerminalStyle {
            is_bold: names(tokens, StyleWord::Bold) || style_word(token) == StyleWord::Bold,
            is_dimmed: names(tokens, StyleWord::Dim) || style_word(token) == StyleWord::Dim,
            is_italic: names(tokens, StyleWord::Italic) || style_word(token) == StyleWord::Italic,
            is_underline: names(tokens, StyleWord::Underline) || style_word(token)
                == StyleWord::Underline,
            is_blink: names(tokens, StyleWord::Blink) || style_word(token) == StyleWord::Blink,
            is_reverse: names(tokens, StyleWord::Reverse) || style_word(token)
                == StyleWord::Reverse,
            is_hidden: names(tokens, StyleWord::Hidden) || style_word(token) == StyleWord::Hidden,
            is_strikethrough: names(tokens, StyleWord::Strike) || style_word(token)
                == StyleWord::Strike,
            foreground,
            background,
        }),
        names(tokens.push(token), StyleWord::Omit) == (names(tokens, StyleWord::Omit)
            || style_word(token) == StyleWord::Omit),
        names(tokens.push(token), StyleWord::Raw) == (names(tokens, StyleWord::Raw) || style_word(
            token,
        ) == StyleWord::Raw),
{
    lemma_names_push(tokens, token, StyleWord::Bold);
    lemma_names_push(tokens, token, StyleWord::Dim);
    lemma_names_push(tokens, token, StyleWord::Italic);
    lemma_names_push(tokens, token, StyleWord::Underline);
    lemma_names_push(tokens, token, StyleWord::Blink);
    lemma_names_push(tokens, token, StyleWord::Reverse);
    lemma_names_push(tokens, token, StyleWord::Hidden);
    lemma_names_push(tokens, token, StyleWord::Strike);
    lemma_names_push(tokens, token, StyleWord::Omit);
    lemma_names_push(tokens, token, StyleWord::Raw);
}

/// The colour claims of a list with one more token.
pub proof fn lemma_color_words_push(tokens: Seq<Seq<char>>, token: Seq<char>)
    ensures
        color_words(tokens.push(token)) == if claims_color(token) {
            color_words(tokens).push(token)
        } else {
            color_words(tokens)
        },
{
    tokens.lemma_filter_push(token, color_claim());
}

/// What one more colour makes of the colours read so far.
pub open spec fn read_step(
    so_far: (Option<Color>, Option<Color>, bool),
    slot: nat,
    token: Seq<char>,
    style_string: Seq<char>,
    foreground_default: Option<Color>,
    background_default: Option<Color>,
    true_color: bool,
) -> Result<(Option<Color>, Option<Color>, bool), StyleErrorView> {
    let (foreground, background, syntax) = so_far;
    if slot == 0 {
        if style_word(token) == StyleWord::Syntax {
            Ok((foreground, background, true))
        } else {
            match resolve_color(token, foreground_default, true_color) {
                Some(color) => Ok((color, background, syntax)),
                None => Err(StyleErrorView::InvalidColor { token }),
            }
        }
    } else if slot == 1 {
        if style_word(token) == StyleWord::Syntax {
            Err(StyleErrorView::SyntaxAsBackground)
        } else {
            match resolve_color(token, background_default, true_color) {
                Some(color) => Ok((foreground, color, syntax)),
                None => Err(StyleErrorView::InvalidColor { token }),
            }
        }
    } else {
        Err(StyleErrorView::InvalidStyleString { style_string })
    }
}

/// Reading colours is reading them one by one. Where they are read without
/// error there are at most two, and a slot that no token has filled holds no
/// colour.
pub proof fn lemma_read_colors_push(
    colors: Seq<Seq<char>>,
    token: Seq<char>,
    style_string: Seq<char>,
    foreground_default: Option<Color>,
    background_default: Option<Color>,
    true_color: bool,
)
    requires
        read_colors(colors, style_string, foreground_default, background_default, true_color)
            is Ok,
    ensures
        colors.len() <= 2,
        read_colors(
            colors.push(token),
            style_string,
            foreground_default,
            background_default,
            true_color,
        ) == read_step(
            read_colors(
                colors,
                style_string,
                foreground_default,
                background_default,
                true_color,
            )->Ok_0,
            colors.len(),
            token,
            style_string,
            foreground_default,
            background_default,
            true_color,
        ),
{
    let longer = colors.push(token);
    assert(forall|i: int| 0 <= i < colors.len() ==> longer[i] == colors[i]);
    assert(longer[colors.len() as int] == token);
}

/// Reading a list of tokens is reading it token by token: what the list
/// with one more token says is the step from what the list said.
#[verifier::rlimit(20)]
pub proof fn lemma_parse_tokens_push(
    tokens: Seq<Seq<char>>,
    token: Seq<char>,
    style_string: Seq<char>,
    foreground_default: Option<Color>,
    background_default: Option<Color>,
    true_color: bool,
)
    requires
        parse_tokens(tokens, style_string, foreground_default, background_default, true_color)
            is Ok,
    ensures
        color_words(tokens).len() <= 2,
        parse_tokens(
            tokens.push(token),
            style_string,
            foreground_default,
            background_default,
            true_color,
        ) == parse_step(
            parse_tokens(
                tokens,
                style_string,
                foreground_default,
                background_default,
                true_color,
            )->Ok_0,
            color_words(tokens).len(),
            token,
            style_string,
            foreground_default,
            background_default,
            true_color,
        ),
{
    reveal(parse_tokens);
    let colors = color_words(tokens);
    lemma_color_words_push(tokens, token);
    let read = read_colors(
        colors,
        style_string,
        foreground_default,
        background_default,
        true_color,
    )->Ok_0;
    if claims_color(token) {
        lemma_read_colors_push(
            colors,
            token,
            style_string,
            foreground_default,
            background_default,
            true_color,
        );
        let next = read_step(
            read,
            colors.len(),
            token,
            style_string,
            foreground_default,
            background_default,
            true_color,
        );
        if next is Ok {
            lemma_style_of_tokens_push(tokens, token, next->Ok_0.0, next->Ok_0.1);
        }
    } else {
        assert(colors.len() <= 2);
        lemma_style_of_tokens_push(tokens, token, read.0, read.1);
    }
}

/// An error stays: where a list of tokens is refused, every list that
/// begins with it is refused for the same reason.
pub proof fn lemma_parse_error_stays(
    tokens: Seq<Seq<char>>,
    more: Seq<Seq<char>>,
    style_string: Seq<char>,
    foreground_default: Option<Color>,
    background_default: Option<Color>,
    true_color: bool,
)
    requires
        parse_tokens(tokens, style_string, foreground_default, background_default, true_color)
            is Err,
    ensures
        parse_tokens(
            tokens + more,
            style_string,
            foreground_default,
            background_default,
            true_color,
        ) == parse_tokens(
            tokens,
            style_string,
            foreground_default,
            background_default,
            true_color,
        ),
{
    reveal(parse_tokens);
    Seq::filter_distributes_over_add(tokens, more, color_claim());
}

/// Two lists one behind the other name the words that either names.
pub proof fn lemma_names_add(front: Seq<Seq<char>>, back: Seq<Seq<char>>, word: StyleWord)
    ensures
        names(front + back, word) <==> names(front, word) || names(back, word),
{
    reveal(names);
    let whole = front + back;
    if names(front, word) {
        let i = choose|i: int| 0 <= i < front.len() && style_word(#[trigger] front[i]) == word;
        assert(whole[i] == front[i]);
    }
    if names(back, word) {
        let i = choose|i: int| 0 <= i < back.len() && style_word(#[trigger] back[i]) == word;
        assert(whole[i + front.len()] == back[i]);
    }
    if names(whole, word) {
        let i = choose|i: int| 0 <= i < whole.len() && style_word(#[trigger] whole[i]) == word;
        if i < front.len() {
            assert(whole[i] == front[i]);
        } else {
            assert(whole[i] == back[i - front.len()]);
        }
    }
}

/// A list with one more token at any place names the words that it named
/// before, and the word that the token is.
pub proof fn lemma_names_insert(
    tokens: Seq<Seq<char>>,
    i: int,
    token: Seq<char>,
    word: StyleWord,
)
    requires
        0 <= i <= tokens.len(),
    ensures
        names(tokens.insert(i, token), word) <==> names(tokens, word) || style_word(token)
            == word,
{
    let front = tokens.take(i);
    let back = tokens.skip(i);
    assert(tokens.insert(i, token) =~= front.push(token) + back);
    assert(tokens =~= front + back);
    lemma_names_add(front.push(token), back, word);
    lemma_names_add(front, back, word);
    lemma_names_push(front, token, word);
}

/// A word that claims no colour claims none wherever it stands: the colour
/// claims of the list are those of the list without it.
pub proof fn lemma_color_words_insert(tokens: Seq<Seq<char>>, i: int, token: Seq<char>)
    requires
        0 <= i <= tokens.len(),
        !claims_color(token),
    ensures
        color_words(tokens.insert(i, token)) == color_words(tokens),
{
    let front = tokens.take(i);
    let back = tokens.skip(i);
    assert(tokens.insert(i, token) =~= front.push(token) + back);
    assert(tokens =~= front + back);
    Seq::filter_distributes_over_add(front.push(token), back, color_claim());
    Seq::filter_distributes_over_add(front, back, color_claim());
    lemma_color_words_push(front, token);
}

/// A word that claims no colour may stand anywhere in a style string: it
/// sets its attribute or its flag, and the rest of the string says what it
/// says without the word. It takes no colour slot and causes no error.
pub proof fn theorem_word_stands_anywhere(
    tokens: Seq<Seq<char>>,
    i: int,
    token: Seq<char>,
    style_string: Seq<char>,
    foreground_default: Option<Color>,
    background_default: Option<Color>,
    true_color: bool,
)
    requires
        0 <= i <= tokens.len(),
        !claims_color(token),
    ensures
        parse_tokens(
            tokens.insert(i, token),
            style_string,
            foreground_default,
            background_default,
            true_color,
        ) == match parse_tokens(
            tokens,
            style_string,
            foreground_default,
            background_default,
            true_color,
        ) {
            Ok(read) => Ok(set_word(read, style_word(token))),
            Err(error) => Err(error),
        },
{
    reveal(parse_tokens);
    lemma_color_words_insert(tokens, i, token);
    lemma_names_insert(tokens, i, token, StyleWord::Bold);
    lemma_names_insert(tokens, i, token, StyleWord::Dim);
    lemma_names_insert(tokens, i, token, StyleWord::Italic);
    lemma_names_insert(tokens, i, token, StyleWord::Underline);
    lemma_names_insert(tokens, i, token, StyleWord::Blink);
    lemma_names_insert(tokens, i, token, StyleWord::Reverse);
    lemma_names_insert(tokens, i, token, StyleWord::Hidden);
    lemma_names_insert(tokens, i, token, StyleWord::Strike);
    lemma_names_insert(tokens, i, token, StyleWord::Omit);
    lemma_names_insert(tokens, i, token, StyleWord::Raw);
}

/// A third colour is refused: a list in which three tokens or more claim a
/// colour says nothing.
pub proof fn theorem_third_color_is_refused(
    tokens: Seq<Seq<char>>,
    style_string: Seq<char>,
    foreground_default: Option<Color>,
    background_default: Option<Color>,
    true_color: bool,
)
    requires
        color_words(tokens).len() >= 3,
    ensures
        parse_tokens(tokens, style_string, foreground_default, background_default, true_color)
            is Err,
{
    reveal(parse_tokens);
}

/// `syntax` is refused as the background: a list in which it is the second
/// token that claims a colour says nothing.
pub proof fn theorem_syntax_is_no_background(
    tokens: Seq<Seq<char>>,
    style_string: Seq<char>,
    foreground_default: Option<Color>,
    background_default: Option<Color>,
    true_color: bool,
)
    requires
        color_words(tokens).len() >= 2,
        style_word(color_words(tokens)[1]) == StyleWord::Syntax,
    ensures
        parse_tokens(tokens, style_string, foreground_default, background_default, true_color)
            is Err,
        style_word(color_words(tokens)[0]) == StyleWord::Syntax || resolve_color(
            color_words(tokens)[0],
            foreground_default,
            true_color,
        ) is Some ==> parse_tokens(
            tokens,
            style_string,
            foreground_default,
            background_default,
            true_color,
        ) == Err::<(TerminalStyle, bool, bool, bool), StyleErrorView>(
            StyleErrorView::SyntaxAsBackground,
        ),
{
    reveal(parse_tokens);
}

/// A list without tokens says nothing: the plain style, and no flag.
pub proof fn lemma_parse_no_tokens(
    style_string: Seq<char>,
    foreground_default: Option<Color>,
    background_default: Option<Color>,
    true_color: bool,
)
    ensures
        color_words(Seq::empty()).len() == 0,
        parse_tokens(
            Seq::empty(),
            style_string,
            foreground_default,
            background_default,
            true_color,
        ) == Ok::<(TerminalStyle, bool, bool, bool), StyleErrorView>(
            (TerminalStyle::plain(), false, false, false),
        ),
{
    reveal(parse_tokens);
    reveal(names);
    reveal(Seq::filter);
    assert(color_words(Seq::empty()) =~= Seq::<Seq<char>>::empty());
}

/// What a token is.
pub fn classify(token: &Vec<char>) -> (word: StyleWord)
    ensures
        word == style_word(token@),
{
    reveal(style_word);
    if word_is(token, "blink") {
        StyleWord::Blink
    } else if word_is(token, "bold") {
        StyleWord::Bold
    } else if word_is(token, "dim") {
        StyleWord::Dim
    } else if word_is(token, "hidden") {
        StyleWord::Hidden
    } else if word_is(token, "italic") {
        StyleWord::Italic
    } else if word_is(token, "omit") {
        StyleWord::Omit
    } else if word_is(token, "reverse") {
        StyleWord::Reverse
    } else if word_is(token, "raw") {
        StyleWord::Raw
    } else if word_is(token, "strike") {
        StyleWord::Strike
    } else if word_is(token, "ul") || word_is(token, "underline") {
        StyleWord::Underline
    } else if word_is(token, "syntax") {
        StyleWord::Syntax
    } else {
        StyleWord::Color
    }
}

/// How far the two colours of a style string have been read.
#[derive(Clone, Copy, Debug, PartialEq, Eq)]
pub enum ColorsSeen {
    NoColorsSeen,
    ForegroundSeen,
    BothSeen,
}

impl ColorsSeen {
    /// The number of colours that have been read.
    pub open spec fn count(self) -> nat {
        match self {
            ColorsSeen::NoColorsSeen => 0,
            ColorsSeen::ForegroundSeen => 1,
            ColorsSeen::BothSeen => 2,
        }
    }

    /// The state after one more colour.
    pub open spec fn next(self) -> ColorsSeen {
        match self {
            ColorsSeen::NoColorsSeen => ColorsSeen::ForegroundSeen,
            _ => ColorsSeen::BothSeen,
        }
    }
}

/// Reads a token that claims a colour.
fn read_color(
    so_far: (TerminalStyle, bool, bool, bool),
    seen: ColorsSeen,
    syntax: bool,
    token: &Vec<char>,
    s: &str,
    foreground_default: Option<Color>,
    background_default: Option<Color>,
    true_color: bool,
) -> (r: Result<(TerminalStyle, bool, bool, bool), StyleError>)
    requires
        syntax == (style_word(token@) == StyleWord::Syntax),
    ensures
        outcome(r) == color_step(
            so_far,
            seen.count(),
            token@,
            s@,
            foreground_default,
            background_default,
            true_color,
        ),
{
    let (mut style, is_omitted, is_raw, is_syntax_highlighted) = so_far;
    match seen {
        ColorsSeen::NoColorsSeen => {
            if syntax {
                Ok((style, is_omitted, is_raw, true))
            } else {
                match resolve_token(token, foreground_default, true_color) {
                    Some(color) => {
                        style.foreground = color;
                        Ok((style, is_omitted, is_raw, is_syntax_highlighted))
                    },
                    None => Err(StyleError::InvalidColor { token: string_of(token) }),
                }
            }
        },
        ColorsSeen::ForegroundSeen => {
            if syntax {
                Err(StyleError::SyntaxAsBackground)
            } else {
                match resolve_token(token, background_default, true_color) {
                    Some(color) => {
                        style.background = color;
                        Ok((style, is_omitted, is_raw, is_syntax_highlighted))
                    },
                    None => Err(StyleError::InvalidColor { token: string_of(token) }),
                }
            }
        },
        ColorsSeen::BothSeen => Err(StyleError::InvalidStyleString { style_string: s.to_owned() }),
    }
}

/// Sets the attribute or the flag of a word that claims no colour.
fn read_word(so_far: (TerminalStyle, bool, bool, bool), word: StyleWord) -> (read: (
    TerminalStyle,
    bool,
    bool,
    bool,
))
    ensures
        read == set_word(so_far, word),
{
    let (mut style, mut is_omitted, mut is_raw, is_syntax_highlighted) = so_far;
    match word {
        StyleWord::Blink => {
            style.is_blink = true;
        },
        StyleWord::Bold => {
            style.is_bold = true;
        },
        StyleWord::Dim => {
            style.is_dimmed = true;
        },
        StyleWord::Hidden => {
            style.is_hidden = true;
        },
        StyleWord::Italic => {
            style.is_italic = true;
        },
        StyleWord::Omit => {
            is_omitted = true;
        },
        StyleWord::Reverse => {
            style.is_reverse = true;
        },
        StyleWord::Raw => {
            is_raw = true;
        },
        StyleWord::Strike => {
            style.is_strikethrough = true;
        },
        StyleWord::Underline => {
            style.is_underline = true;
        },
        StyleWord::Syntax => {},
        StyleWord::Color => {},
    }
    (style, is_omitted, is_raw, is_syntax_highlighted)
}

/// Reads one token.
fn read_token(
    so_far: (TerminalStyle, bool, bool, bool),
    seen: ColorsSeen,
    token: &Vec<char>,
    s: &str,
    foreground_default: Option<Color>,
    background_default: Option<Color>,
    true_color: bool,
) -> (r: Result<((TerminalStyle, bool, bool, bool), ColorsSeen), StyleError>)
    ensures
        outcome(r) == match parse_step(
            so_far,
            seen.count(),
            token@,
            s@,
            foreground_default,
            background_default,
            true_color,
        ) {
            Ok(read) => Ok(
                (
                    read,
                    if claims_color(token@) {
                        seen.next()
                    } else {
                        seen
                    },
                ),
            ),
            Err(error) => Err(error),
        },
{
    let word = classify(token);
    let syntax = matches!(word, StyleWord::Syntax);
    if syntax || matches!(word, StyleWord::Color) {
        let next = match seen {
            ColorsSeen::NoColorsSeen => ColorsSeen::ForegroundSeen,
            _ => ColorsSeen::BothSeen,
        };
        match read_color(
            so_far,
            seen,
            syntax,
            token,
            s,
            foreground_default,
            background_default,
            true_color,
        ) {
            Ok(read) => Ok((read, next)),
            Err(error) => Err(error),
        }
    } else {
        Ok((read_word(so_far, word), seen))
    }
}

/// Reads the tokens of a style string. `s` is the string that they were cut
/// from: an error for too many colours carries it.
pub fn parse_style_tokens(
    tokens: &Vec<Vec<char>>,
    s: &str,
    foreground_default: Option<Color>,
    background_default: Option<Color>,
    true_color: bool,
) -> (r: Result<(TerminalStyle, bool, bool, bool), StyleError>)
    ensures
        outcome(r) == parse_tokens(
            token_views(tokens@),
            s@,
            foreground_default,
            background_default,
            true_color,
        ),
{
    let ghost views = token_views(tokens@);
    let mut read = (TerminalStyle::new(), false, false, false);
    let mut seen = ColorsSeen::NoColorsSeen;
    let mut i: usize = 0;
    proof {
        lemma_parse_no_tokens(s@, foreground_default, background_default, true_color);
        assert(views.take(0) =~= Seq::<Seq<char>>::empty());
    }
    while i < tokens.len()
        invariant
            i <= tokens.len(),
            views == token_views(tokens@),
            parse_tokens(views.take(i as int), s@, foreground_default, background_default, true_color)
                == Ok::<(TerminalStyle, bool, bool, bool), StyleErrorView>(read),
            seen.count() == color_words(views.take(i as int)).len(),
        decreases tokens.len() - i,
    {
        let token = &tokens[i];
        proof {
            assert(views[i as int] == token@);
            assert(views.take(i as int).push(token@) =~= views.take(i + 1));
            lemma_parse_tokens_push(
                views.take(i as int),
                token@,
                s@,
                foreground_default,
                background_default,
                true_color,
            );
            lemma_color_words_push(views.take(i as int), token@);
        }
        match read_token(read, seen, token, s, foreground_default, background_default, true_color) {
            Ok((next_read, next_seen)) => {
                read = next_read;
                seen = next_seen;
            },
            Err(error) => {
                proof {
                    assert(views.take(i + 1) + views.skip(i + 1) =~= views);
                    lemma_parse_error_stays(
                        views.take(i + 1),
                        views.skip(i + 1),
                        s@,
                        foreground_default,
                        background_default,
                        true_color,
                    );
                }
                return Err(error);
            },
        }
        i += 1;
    }
    assert(views.take(tokens.len() as int) =~= views);
    Ok(read)
}

/// Reads a style string: at most two colours, the foreground before the
/// background, and any number of attribute words, in any order. Returns the
/// style and three flags: whether the text is omitted (`omit`), whether it
/// is raw (`raw`), and whether `syntax` stands in place of the foreground
/// colour.
///
/// `foreground_default` and `background_default` are the colours that `auto`
/// stands for in the two places.
pub fn parse_ansi_term_style(
    s: &str,
    foreground_default: Option<Color>,
    background_default: Option<Color>,
    true_color: bool,
) -> (r: Result<(TerminalStyle, bool, bool, bool), StyleError>)
    ensures
        outcome(r) == parse_style(s@, foreground_default, background_default, true_color),
{
    let tokens = tokenize(s);
    parse_style_tokens(&tokens, s, foreground_default, background_default, true_color)
}

} // verus!
