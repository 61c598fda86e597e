//! Decorations: the box or the lines that are drawn around a piece of text,
//! and the style they are drawn in.
//!
//! A decoration style string is a style string that also holds decoration
//! words: `box`, `ol` or `overline`, `ul` or `underline`, and `none` or
//! `plain`. The decoration words say what is drawn, the rest says in which
//! style. Several decoration words may stand in one string: a line above
//! and a line below are drawn together, and a box takes the lines in.

use crate::attributes::{DecorationAttributes, DecorationFlag, DecorationKind, decoration_kind};
use crate::error::{StyleError, StyleErrorView, outcome};
use crate::parser::{
    StyleWord,
    color_claim,
    color_words,
    names,
    parse_ansi_term_style,
    parse_style,
    parse_tokens,
    style_word,
};
use crate::settled::{
    lemma_filter_settled,
    lemma_tokens_of_ascii,
    lemma_tokens_of_joined,
    not_empty,
};
use crate::terminal::{Color, TerminalStyle};
use crate::text::{append_token, join, lemma_join_push, token_views, tokenize, tokens_of, word_is};
use vstd::prelude::*;
use vstd::utf8::is_ascii_chars;

verus! {

/// What a token is to a decoration: one of the decoration words, or
/// something else.
#[derive(Clone, Copy, Debug, PartialEq, Eq)]
pub enum DecorationWord {
    Box,
    Overline,
    Underline,
    /// The word `none`.
    NoStyle,
    /// The word `plain`.
    Plain,
    Other,
}

/// What a token is to a decoration.
#[verifier::opaque]
pub open spec fn decoration_word(token: Seq<char>) -> DecorationWord {
    if token == "box"@ {
        DecorationWord::Box
    } else if token == "ol"@ || token == "overline"@ {
        DecorationWord::Overline
    } else if token == "ul"@ || token == "underline"@ {
        DecorationWord::Underline
    } else if token == "none"@ {
        DecorationWord::NoStyle
    } else if token == "plain"@ {
        DecorationWord::Plain
    } else {
        DecorationWord::Other
    }
}

/// The word that asks for a decoration.
pub open spec fn flag_word(flag: DecorationFlag) -> DecorationWord {
    match flag {
        DecorationFlag::Box => DecorationWord::Box,
        DecorationFlag::Overline => DecorationWord::Overline,
        DecorationFlag::Underline => DecorationWord::Underline,
    }
}

/// Whether one of the tokens is the given decoration word.
#[verifier::opaque]
pub open spec fn mentions(tokens: Seq<Seq<char>>, word: DecorationWord) -> bool {
    exists|i: int| 0 <= i < tokens.len() && decoration_word(#[trigger] tokens[i]) == word
}

/// The decorations that the tokens ask for.
pub open spec fn decoration_flags(tokens: Seq<Seq<char>>) -> Set<DecorationFlag> {
    Set::new(|flag: DecorationFlag| mentions(tokens, flag_word(flag)))
}

/// The test for a token that is no decoration word.
pub open spec fn no_decoration_word() -> spec_fn(Seq<char>) -> bool {
    |token: Seq<char>| decoration_word(token) == DecorationWord::Other
}

/// The tokens that are no decoration words, in order.
pub open spec fn plain_tokens(tokens: Seq<Seq<char>>) -> Seq<Seq<char>> {
    tokens.filter(no_decoration_word())
}

/// A style string without its decoration words, and the decorations that
/// they ask for. What is left of the string is its other tokens, joined by
/// single spaces.
pub open spec fn extract(style_string: Seq<char>) -> (Seq<char>, Set<DecorationFlag>) {
    let tokens = tokens_of(style_string);
    (join(plain_tokens(tokens)), decoration_flags(tokens))
}

/// A list with one more token mentions the words that it mentioned before,
/// and the word that the token is.
pub proof fn lemma_mentions_push(tokens: Seq<Seq<char>>, token: Seq<char>, word: DecorationWord)
    ensures
        mentions(tokens.push(token), word) <==> mentions(tokens, word) || decoration_word(token)
            == word,
{
    reveal(mentions);
    let longer = tokens.push(token);
    if mentions(tokens, word) {
        let i = choose|i: int|
            0 <= i < tokens.len() && decoration_word(#[trigger] tokens[i]) == word;
        assert(longer[i] == tokens[i]);
    }
    if decoration_word(token) == word {
        assert(longer[tokens.len() as int] == token);
    }
    if mentions(longer, word) {
        let i = choose|i: int|
            0 <= i < longer.len() && decoration_word(#[trigger] longer[i]) == word;
        if i < tokens.len() {
            assert(longer[i] == tokens[i]);
        }
    }
}

/// The decorations that a list with one more token asks for.
pub proof fn lemma_decoration_flags_push(tokens: Seq<Seq<char>>, token: Seq<char>)
    ensures
        decoration_flags(tokens.push(token)) == match decoration_word(token) {
            DecorationWord::Box => decoration_flags(tokens).insert(DecorationFlag::Box),
            DecorationWord::Overline => decoration_flags(tokens).insert(DecorationFlag::Overline),
            DecorationWord::Underline => decoration_flags(tokens).insert(
                DecorationFlag::Underline,
            ),
            _ => decoration_flags(tokens),
        },
{
    lemma_mentions_push(tokens, token, DecorationWord::Box);
    lemma_mentions_push(tokens, token, DecorationWord::Overline);
    lemma_mentions_push(tokens, token, DecorationWord::Underline);
    let wanted = match decoration_word(token) {
        DecorationWord::Box => decoration_flags(tokens).insert(DecorationFlag::Box),
        DecorationWord::Overline => decoration_flags(tokens).insert(DecorationFlag::Overline),
        DecorationWord::Underline => decoration_flags(tokens).insert(DecorationFlag::Underline),
        _ => decoration_flags(tokens),
    };
    assert(decoration_flags(tokens.push(token)) =~= wanted);
}

/// What a token is to a decoration.
pub fn classify_decoration(token: &Vec<char>) -> (word: DecorationWord)
    ensures
        word == decoration_word(token@),
{
    reveal(decoration_word);
    if word_is(token, "box") {
        DecorationWord::Box
    } else if word_is(token, "ol") || word_is(token, "overline") {
        DecorationWord::Overline
    } else if word_is(token, "ul") || word_is(token, "underline") {
        DecorationWord::Underline
    } else if word_is(token, "none") {
        DecorationWord::NoStyle
    } else if word_is(token, "plain") {
        DecorationWord::Plain
    } else {
        DecorationWord::Other
    }
}

/// Whether one of the tokens is the given decoration word.
pub fn mentions_word(tokens: &Vec<Vec<char>>, word: DecorationWord) -> (b: bool)
    ensures
        b == mentions(token_views(tokens@), word),
{
    let ghost views = token_views(tokens@);
    let mut i: usize = 0;
    proof {
        reveal(mentions);
        assert(views.take(0) =~= Seq::<Seq<char>>::empty());
    }
    while i < tokens.len()
        invariant
            i <= tokens.len(),
            views == token_views(tokens@),
            !mentions(views.take(i as int), word),
        decreases tokens.len() - i,
    {
        proof {
            assert(views[i as int] == tokens@[i as int]@);
            assert(views.take(i as int).push(views[i as int]) =~= views.take(i + 1));
            assert(views.take(i + 1) + views.skip(i + 1) =~= views);
            lemma_mentions_push(views.take(i as int), views[i as int], word);
        }
        let found = match (classify_decoration(&tokens[i]), word) {
            (DecorationWord::Box, DecorationWord::Box) => true,
            (DecorationWord::Overline, DecorationWord::Overline) => true,
            (DecorationWord::Underline, DecorationWord::Underline) => true,
            (DecorationWord::NoStyle, DecorationWord::NoStyle) => true,
            (DecorationWord::Plain, DecorationWord::Plain) => true,
            (DecorationWord::Other, DecorationWord::Other) => true,
            _ => false,
        };
        if found {
            proof {
                reveal(mentions);
                assert(views[i as int] == views.take(i + 1)[i as int]);
            }
            return true;
        }
        i += 1;
    }
    assert(views.take(tokens.len() as int) =~= views);
    false
}

/// Takes the decoration words out of a list of tokens. Returns the other
/// tokens, joined by single spaces, and the decorations asked for.
pub fn strip_decoration_words(tokens: &Vec<Vec<char>>) -> (r: (String, DecorationAttributes))
    ensures
        r.0@ == join(plain_tokens(token_views(tokens@))),
        r.1@ == decoration_flags(token_views(tokens@)),
{
    let ghost views = token_views(tokens@);
    let mut attributes = DecorationAttributes::new();
    let mut plain = String::new();
    let mut first = true;
    let mut i: usize = 0;
    proof {
        reveal(mentions);
        reveal(Seq::filter);
        assert(views.take(0) =~= Seq::<Seq<char>>::empty());
        assert(plain_tokens(views.take(0)) =~= Seq::<Seq<char>>::empty());
        assert(decoration_flags(views.take(0)) =~= Set::<DecorationFlag>::empty());
    }
    while i < tokens.len()
        invariant
            i <= tokens.len(),
            views == token_views(tokens@),
            plain@ == join(plain_tokens(views.take(i as int))),
            first == (plain_tokens(views.take(i as int)).len() == 0),
            attributes@ == decoration_flags(views.take(i as int)),
        decreases tokens.len() - i,
    {
        let token = &tokens[i];
        proof {
            assert(views[i as int] == token@);
            assert(views.take(i as int).push(token@) =~= views.take(i + 1));
            lemma_decoration_flags_push(views.take(i as int), token@);
            views.take(i as int).lemma_filter_push(token@, no_decoration_word());
            lemma_join_push(plain_tokens(views.take(i as int)), token@);
            if first {
                assert(plain@ + token@ =~= token@);
            }
        }
        match classify_decoration(token) {
            DecorationWord::Box => {
                attributes = attributes.insert(DecorationFlag::Box);
            },
            DecorationWord::Overline => {
                attributes = attributes.insert(DecorationFlag::Overline);
            },
            DecorationWord::Underline => {
                attributes = attributes.insert(DecorationFlag::Underline);
            },
            DecorationWord::NoStyle => {},
            DecorationWord::Plain => {},
            DecorationWord::Other => {
                append_token(&mut plain, token, first);
                first = false;
            },
        }
        i += 1;
    }
    assert(views.take(tokens.len() as int) =~= views);
    (plain, attributes)
}

/// Takes the decoration words out of a style string. Returns what is left
/// of the string, and the decorations asked for.
pub fn extract_special_decoration_attribute(style_string: &str) -> (r: (
    String,
    DecorationAttributes,
))
    ensures
        r.0@ == extract(style_string@).0,
        r.1@ == extract(style_string@).1,
{
    let tokens = tokenize(style_string);
    strip_decoration_words(&tokens)
}

/// A decoration, and the style it is drawn in.
#[derive(Clone, Copy, Debug, PartialEq, Eq)]
pub enum DecorationStyle {
    Box(TerminalStyle),
    Underline(TerminalStyle),
    Overline(TerminalStyle),
    Underoverline(TerminalStyle),
    NoDecoration,
}

impl DecorationStyle {
    /// The decoration of the given kind, drawn in the given style.
    pub open spec fn of_kind(kind: DecorationKind, style: TerminalStyle) -> DecorationStyle {
        match kind {
            DecorationKind::Box => DecorationStyle::Box(style),
            DecorationKind::Underline => DecorationStyle::Underline(style),
            DecorationKind::Overline => DecorationStyle::Overline(style),
            DecorationKind::Underoverline => DecorationStyle::Underoverline(style),
            DecorationKind::NoDecoration => DecorationStyle::NoDecoration,
        }
    }

    /// The style that the decoration is drawn in, where there is one.
    pub open spec fn carried(self) -> Option<TerminalStyle> {
        match self {
            DecorationStyle::Box(style) => Some(style),
            DecorationStyle::Underline(style) => Some(style),
            DecorationStyle::Overline(style) => Some(style),
            DecorationStyle::Underoverline(style) => Some(style),
            DecorationStyle::NoDecoration => None,
        }
    }

    /// The same decoration, drawn in the given style.
    pub open spec fn redrawn(self, style: TerminalStyle) -> DecorationStyle {
        match self {
            DecorationStyle::Box(_) => DecorationStyle::Box(style),
            DecorationStyle::Underline(_) => DecorationStyle::Underline(style),
            DecorationStyle::Overline(_) => DecorationStyle::Overline(style),
            DecorationStyle::Underoverline(_) => DecorationStyle::Underoverline(style),
            DecorationStyle::NoDecoration => DecorationStyle::NoDecoration,
        }
    }

    /// What a decoration style string says.
    ///
    /// The decoration words are taken out, and what is left is read as a
    /// style string without default colours. It may hold neither `raw` nor
    /// `syntax`. The decoration words decide what is drawn; where there is
    /// none of them, nothing is drawn, whatever the rest says.
    #[verifier::opaque]
    pub open spec fn parsed(style_string: Seq<char>, true_color: bool) -> Result<
        DecorationStyle,
        StyleErrorView,
    > {
        let (plain, flags) = extract(style_string);
        match parse_style(plain, None, None, true_color) {
            Err(error) => Err(error),
            Ok((style, omitted, raw, syntax)) => if raw {
                Err(StyleErrorView::RawInDecoration)
            } else if syntax {
                Err(StyleErrorView::SyntaxInDecoration)
            } else {
                Ok(DecorationStyle::of_kind(decoration_kind(flags), style))
            },
        }
    }

    /// The decoration that the flags ask for, drawn in the style of this
    /// one; in the plain style where this one is no decoration.
    pub open spec fn overlaid(self, flags: Set<DecorationFlag>) -> DecorationStyle {
        DecorationStyle::of_kind(
            decoration_kind(flags),
            match self.carried() {
                Some(style) => style,
                None => TerminalStyle::plain(),
            },
        )
    }

    /// The same decoration with the given foreground colour.
    pub open spec fn foreground_set(self, foreground: Option<Color>) -> DecorationStyle {
        match self.carried() {
            Some(style) => self.redrawn(TerminalStyle { foreground, ..style }),
            None => self,
        }
    }

    /// The decoration of the given kind, drawn in the given style.
    pub fn new(kind: DecorationKind, style: TerminalStyle) -> (decoration: DecorationStyle)
        ensures
            decoration == DecorationStyle::of_kind(kind, style),
    {
        match kind {
            DecorationKind::Box => DecorationStyle::Box(style),
            DecorationKind::Underline => DecorationStyle::Underline(style),
            DecorationKind::Overline => DecorationStyle::Overline(style),
            DecorationKind::Underoverline => DecorationStyle::Underoverline(style),
            DecorationKind::NoDecoration => DecorationStyle::NoDecoration,
        }
    }

    /// The style that the decoration is drawn in, where there is one.
    pub fn terminal_style(&self) -> (style: Option<TerminalStyle>)
        ensures
            style == self.carried(),
    {
        match self {
            DecorationStyle::Box(style) => Some(*style),
            DecorationStyle::Underline(style) => Some(*style),
            DecorationStyle::Overline(style) => Some(*style),
            DecorationStyle::Underoverline(style) => Some(*style),
            DecorationStyle::NoDecoration => None,
        }
    }

    /// Reads a decoration style string, such as `box ul green`.
    pub fn from_str(style_string: &str, true_color: bool) -> (r: Result<
        DecorationStyle,
        StyleError,
    >)
        ensures
            outcome(r) == DecorationStyle::parsed(style_string@, true_color),
    {
        reveal(DecorationStyle::parsed);
        let (plain, attributes) = extract_special_decoration_attribute(style_string);
        let (style, is_omitted, is_raw, is_syntax_highlighted) = match parse_ansi_term_style(
            plain.as_str(),
            None,
            None,
            true_color,
        ) {
            Ok(read) => read,
            Err(error) => {
                return Err(error);
            },
        };
        if is_raw {
            return Err(StyleError::RawInDecoration);
        }
        if is_syntax_highlighted {
            return Err(StyleError::SyntaxInDecoration);
        }
        Ok(DecorationStyle::new(attributes.kind(), style))
    }

    /// Gives a decoration the kind that the flags ask for, and leaves the
    /// style it is drawn in as it is. No decoration becomes a decoration in
    /// the plain style; where the flags ask for nothing, the decoration
    /// goes.
    pub fn apply_special_decoration_attribute(
        decoration_style: DecorationStyle,
        special_attributes: DecorationAttributes,
    ) -> (decoration: DecorationStyle)
        ensures
            decoration == decoration_style.overlaid(special_attributes@),
    {
        let style = match decoration_style.terminal_style() {
            Some(style) => style,
            None => TerminalStyle::new(),
        };
        DecorationStyle::new(special_attributes.kind(), style)
    }

    /// The same decoration with the given foreground colour.
    pub fn with_foreground(self, foreground: Option<Color>) -> (decoration: DecorationStyle)
        ensures
            decoration == self.foreground_set(foreground),
    {
        match self {
            DecorationStyle::Box(mut style) => {
                style.foreground = foreground;
                DecorationStyle::Box(style)
            },
            DecorationStyle::Underline(mut style) => {
                style.foreground = foreground;
                DecorationStyle::Underline(style)
            },
            DecorationStyle::Overline(mut style) => {
                style.foreground = foreground;
                DecorationStyle::Overline(style)
            },
            DecorationStyle::Underoverline(mut style) => {
                style.foreground = foreground;
                DecorationStyle::Underoverline(style)
            },
            DecorationStyle::NoDecoration => DecorationStyle::NoDecoration,
        }
    }
}

/// What is left of an ASCII style string without its decoration words has
/// the tokens of the string that are no decoration words, but for the empty
/// ones.
pub proof fn theorem_tokens_of_the_rest(style_string: Seq<char>)
    requires
        is_ascii_chars(style_string),
    ensures
        tokens_of(extract(style_string).0) == plain_tokens(tokens_of(style_string)).filter(
            not_empty(),
        ),
{
    let tokens = tokens_of(style_string);
    lemma_tokens_of_ascii(style_string);
    lemma_filter_settled(tokens, no_decoration_word());
    lemma_tokens_of_joined(plain_tokens(tokens));
}

/// The words `raw`, `omit` and `syntax` are no decoration words, and no
/// token that is one of them is empty.
pub proof fn lemma_flag_words_are_no_decoration_words(token: Seq<char>)
    requires
        style_word(token) == StyleWord::Raw || style_word(token) == StyleWord::Syntax
            || style_word(token) == StyleWord::Omit,
    ensures
        decoration_word(token) == DecorationWord::Other,
        token.len() > 0,
{
    reveal(style_word);
    reveal(decoration_word);
    reveal_strlit("raw");
    reveal_strlit("syntax");
    reveal_strlit("omit");
    reveal_strlit("box");
    reveal_strlit("ol");
    reveal_strlit("overline");
    reveal_strlit("ul");
    reveal_strlit("underline");
    reveal_strlit("none");
    reveal_strlit("plain");
    assert("raw"@[0] == 'r' && "syntax"@[0] == 's' && "omit"@[1] == 'm');
    assert("box"@[0] == 'b' && "none"@[0] == 'n' && "ol"@[1] == 'l');
}

/// What is left of an ASCII style string without its decoration words still
/// says `raw`, `omit` and `syntax` where the string said them.
pub proof fn lemma_the_rest_names_the_flag_words(style_string: Seq<char>, word: StyleWord)
    requires
        is_ascii_chars(style_string),
        word == StyleWord::Raw || word == StyleWord::Syntax || word == StyleWord::Omit,
        names(tokens_of(style_string), word),
    ensures
        names(tokens_of(extract(style_string).0), word),
{
    reveal(names);
    let tokens = tokens_of(style_string);
    let i = choose|i: int| 0 <= i < tokens.len() && style_word(#[trigger] tokens[i]) == word;
    let token = tokens[i];
    lemma_flag_words_are_no_decoration_words(token);
    theorem_tokens_of_the_rest(style_string);
    let plain = plain_tokens(tokens);
    tokens.lemma_filter_contains(no_decoration_word(), i);
    let j = choose|j: int| 0 <= j < plain.len() && plain[j] == token;
    plain.lemma_filter_contains(not_empty(), j);
    let kept = plain.filter(not_empty());
    let k = choose|k: int| 0 <= k < kept.len() && kept[k] == token;
    assert(style_word(kept[k]) == word);
}

/// `raw` is refused in a decoration style: an ASCII decoration style string
/// with the word `raw` among its tokens describes no decoration.
pub proof fn theorem_raw_is_refused_in_a_decoration(style_string: Seq<char>, true_color: bool)
    requires
        is_ascii_chars(style_string),
        names(tokens_of(style_string), StyleWord::Raw),
    ensures
        DecorationStyle::parsed(style_string, true_color) is Err,
{
    reveal(DecorationStyle::parsed);
    reveal(parse_tokens);
    lemma_the_rest_names_the_flag_words(style_string, StyleWord::Raw);
}

/// `syntax` is refused in a decoration style: an ASCII decoration style
/// string with the word `syntax` among its tokens describes no decoration.
pub proof fn theorem_syntax_is_refused_in_a_decoration(style_string: Seq<char>, true_color: bool)
    requires
        is_ascii_chars(style_string),
        names(tokens_of(style_string), StyleWord::Syntax),
    ensures
        DecorationStyle::parsed(style_string, true_color) is Err,
{
    reveal(DecorationStyle::parsed);
    reveal(parse_tokens);
    reveal(names);
    lemma_the_rest_names_the_flag_words(style_string, StyleWord::Syntax);
    let rest = tokens_of(extract(style_string).0);
    let i = choose|i: int| 0 <= i < rest.len() && style_word(#[trigger] rest[i]) == StyleWord::Syntax;
    rest.lemma_filter_contains(color_claim(), i);
    let colors = color_words(rest);
    let j = choose|j: int| 0 <= j < colors.len() && colors[j] == rest[i];
    assert(style_word(colors[j]) == StyleWord::Syntax);
}

} // verus!
