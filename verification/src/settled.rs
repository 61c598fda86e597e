//! Tokens that tokenizing leaves as they are.
//!
//! A token is settled where putting it in lower case, cutting it at white
//! space and taking the quotes off its ends would not change it. The tokens
//! of ASCII text are settled, and a string of settled tokens joined by
//! spaces has these tokens again, but for the empty ones.

use crate::text::{
    ascii_lower,
    is_quote,
    is_whitespace,
    join,
    leading_quotes,
    lemma_word_len_bounds,
    lowercase,
    tokens_of,
    trailing_quotes,
    trim_quotes,
    word_len,
    words,
};
use vstd::prelude::*;
use vstd::utf8::is_ascii_chars;

verus! {

/// An ASCII character that is neither white space nor a capital letter.
pub open spec fn is_settled_char(c: char) -> bool {
    '\0' <= c && c <= '\u{7f}' && !is_whitespace(c) && !('A' <= c && c <= 'Z')
}

/// A token of such characters that neither begins nor ends with a quote.
pub open spec fn is_settled(token: Seq<char>) -> bool {
    &&& forall|i: int| 0 <= i < token.len() ==> is_settled_char(#[trigger] token[i])
    &&& token.len() > 0 ==> !is_quote(token[0]) && !is_quote(token.last())
}

/// Every token of the list is settled.
pub open spec fn all_settled(tokens: Seq<Seq<char>>) -> bool {
    forall|i: int| 0 <= i < tokens.len() ==> is_settled(#[trigger] tokens[i])
}

/// The test for a token that is not empty.
pub open spec fn not_empty() -> spec_fn(Seq<char>) -> bool {
    |token: Seq<char>| token.len() > 0
}

/// A text of settled characters and spaces.
pub open spec fn is_settled_text(text: Seq<char>) -> bool {
    forall|i: int| 0 <= i < text.len() ==> text[i] == ' ' || is_settled_char(#[trigger] text[i])
}

/// Settled tokens joined by spaces make a settled text.
pub proof fn lemma_join_settled(tokens: Seq<Seq<char>>)
    requires
        all_settled(tokens),
    ensures
        is_settled_text(join(tokens)),
    decreases tokens.len(),
{
    if tokens.len() >= 2 {
        let front = tokens.drop_last();
        assert forall|i: int| 0 <= i < front.len() implies is_settled(#[trigger] front[i]) by {
            assert(front[i] == tokens[i]);
        }
        lemma_join_settled(front);
        assert(is_settled(tokens.last()));
    } else if tokens.len() == 1 {
        assert(is_settled(tokens[0]));
    }
}

/// A settled text is in lower case already.
pub proof fn lemma_settled_text_is_lowercase(text: Seq<char>)
    requires
        is_settled_text(text),
    ensures
        lowercase(text) == text,
{
    assert(is_ascii_chars(text)) by {
        assert forall|i: int| 0 <= i < text.len() implies '\0' <= #[trigger] text[i] <= '\u{7f}' by {
            assert(text[i] == ' ' || is_settled_char(text[i]));
        }
    }
    assert(text.map_values(|c: char| ascii_lower(c)) =~= text) by {
        assert forall|i: int| 0 <= i < text.len() implies ascii_lower(#[trigger] text[i])
            == text[i] by {
            assert(text[i] == ' ' || is_settled_char(text[i]));
        }
    }
}

/// A text without white space is one word, or none where it is empty.
pub proof fn lemma_words_of_word(word: Seq<char>)
    requires
        forall|i: int| 0 <= i < word.len() ==> !is_whitespace(#[trigger] word[i]),
    ensures
        word_len(word) == word.len(),
        words(word) == if word.len() > 0 {
            seq![word]
        } else {
            Seq::empty()
        },
    decreases word.len(),
{
    if word.len() > 0 {
        let rest = word.drop_first();
        assert forall|i: int| 0 <= i < rest.len() implies !is_whitespace(#[trigger] rest[i]) by {
            assert(rest[i] == word[i + 1]);
        }
        lemma_words_of_word(rest);
        assert(word.take(word.len() as int) =~= word);
        assert(word.skip(word.len() as int) =~= Seq::<char>::empty());
        assert(words(Seq::<char>::empty()) =~= Seq::<Seq<char>>::empty());
        assert(seq![word] + Seq::<Seq<char>>::empty() =~= seq![word]);
    }
}

/// The first word of a text ends where the text has a space, whatever
/// follows the space.
pub proof fn lemma_word_len_before_space(text: Seq<char>, more: Seq<char>)
    ensures
        word_len(text + seq![' '] + more) == word_len(text),
    decreases text.len(),
{
    let whole = text + seq![' '] + more;
    if text.len() == 0 {
        assert(whole[0] == ' ');
    } else {
        assert(whole[0] == text[0]);
        if !is_whitespace(text[0]) {
            lemma_word_len_before_space(text.drop_first(), more);
            assert(whole.drop_first() =~= text.drop_first() + seq![' '] + more);
        }
    }
}

/// Behind a space, a word without white space adds itself to the words of
/// a text, and nothing where it is empty.
pub proof fn lemma_words_append(text: Seq<char>, word: Seq<char>)
    requires
        forall|i: int| 0 <= i < word.len() ==> !is_whitespace(#[trigger] word[i]),
    ensures
        words(text + seq![' '] + word) == words(text) + (if word.len() > 0 {
            seq![word]
        } else {
            Seq::empty()
        }),
    decreases text.len(),
{
    let whole = text + seq![' '] + word;
    let added: Seq<Seq<char>> = if word.len() > 0 {
        seq![word]
    } else {
        Seq::empty()
    };
    if text.len() == 0 {
        assert(whole[0] == ' ');
        assert(whole.drop_first() =~= word);
        lemma_words_of_word(word);
        assert(words(text) =~= Seq::<Seq<char>>::empty());
        assert(Seq::<Seq<char>>::empty() + added =~= added);
    } else {
        assert(whole[0] == text[0]);
        if is_whitespace(text[0]) {
            lemma_words_append(text.drop_first(), word);
            assert(whole.drop_first() =~= text.drop_first() + seq![' '] + word);
        } else {
            let n = word_len(text) as int;
            lemma_word_len_bounds(text);
            lemma_word_len_before_space(text, word);
            lemma_words_append(text.skip(n), word);
            assert(whole.take(n) =~= text.take(n));
            assert(whole.skip(n) =~= text.skip(n) + seq![' '] + word);
            assert((seq![text.take(n)] + words(text.skip(n))) + added =~= seq![text.take(n)] + (
            words(text.skip(n)) + added));
        }
    }
}

/// The words of settled tokens joined by spaces are the tokens that are not
/// empty.
pub proof fn lemma_words_of_joined(tokens: Seq<Seq<char>>)
    requires
        all_settled(tokens),
    ensures
        words(join(tokens)) == tokens.filter(not_empty()),
    decreases tokens.len(),
{
    reveal(Seq::filter);
    if tokens.len() == 0 {
        assert(words(join(tokens)) =~= Seq::<Seq<char>>::empty());
    } else {
        let front = tokens.drop_last();
        let last = tokens.last();
        assert(is_settled(last));
        assert forall|i: int| 0 <= i < last.len() implies !is_whitespace(#[trigger] last[i]) by {
            assert(is_settled_char(last[i]));
        }
        assert forall|i: int| 0 <= i < front.len() implies is_settled(#[trigger] front[i]) by {
            assert(front[i] == tokens[i]);
        }
        lemma_words_of_joined(front);
        let added: Seq<Seq<char>> = if last.len() > 0 {
            seq![last]
        } else {
            Seq::empty()
        };
        assert(tokens.filter(not_empty()) =~= front.filter(not_empty()) + added);
        if tokens.len() == 1 {
            lemma_words_of_word(last);
            assert(front.filter(not_empty()) =~= Seq::<Seq<char>>::empty());
        } else {
            lemma_words_append(join(front), last);
        }
    }
}

/// A settled token has no quotes to shed.
pub proof fn lemma_trim_settled(token: Seq<char>)
    requires
        is_settled(token),
    ensures
        trim_quotes(token) == token,
{
    assert(leading_quotes(token) == 0);
    assert(token.skip(0) =~= token);
    assert(trailing_quotes(token) == 0);
    assert(token.take(token.len() as int) =~= token);
}

/// A string of settled tokens joined by spaces has these tokens again, but
/// for the empty ones.
pub proof fn lemma_tokens_of_joined(tokens: Seq<Seq<char>>)
    requires
        all_settled(tokens),
    ensures
        tokens_of(join(tokens)) == tokens.filter(not_empty()),
{
    reveal(tokens_of);
    lemma_join_settled(tokens);
    lemma_settled_text_is_lowercase(join(tokens));
    lemma_words_of_joined(tokens);
    let kept = tokens.filter(not_empty());
    assert forall|i: int| 0 <= i < kept.len() implies trim_quotes(#[trigger] kept[i])
        == kept[i] by {
        tokens.lemma_filter_contains_rev(not_empty(), kept[i]);
        let j = choose|j: int| 0 <= j < tokens.len() && tokens[j] == kept[i];
        assert(is_settled(tokens[j]));
        lemma_trim_settled(kept[i]);
    }
    assert(kept.map_values(|w: Seq<char>| trim_quotes(w)) =~= kept);
}

/// The first character behind the leading quotes of a word is no quote.
pub proof fn lemma_leading_quotes(word: Seq<char>)
    ensures
        leading_quotes(word) <= word.len(),
        leading_quotes(word) < word.len() ==> !is_quote(word[leading_quotes(word) as int]),
    decreases word.len(),
{
    if word.len() > 0 && is_quote(word[0]) {
        lemma_leading_quotes(word.drop_first());
    }
}

/// The last character before the trailing quotes of a word is no quote.
pub proof fn lemma_trailing_quotes(word: Seq<char>)
    ensures
        trailing_quotes(word) <= word.len(),
        trailing_quotes(word) < word.len() ==> !is_quote(
            word[word.len() - trailing_quotes(word) - 1],
        ),
    decreases word.len(),
{
    if word.len() > 0 && is_quote(word.last()) {
        lemma_trailing_quotes(word.drop_last());
    }
}

/// A word of settled characters leaves a settled token.
pub proof fn lemma_trimmed_word_is_settled(word: Seq<char>)
    requires
        forall|i: int| 0 <= i < word.len() ==> is_settled_char(#[trigger] word[i]),
    ensures
        is_settled(trim_quotes(word)),
{
    lemma_leading_quotes(word);
    let rest = word.skip(leading_quotes(word) as int);
    lemma_trailing_quotes(rest);
    let token = trim_quotes(word);
    assert forall|i: int| 0 <= i < token.len() implies is_settled_char(#[trigger] token[i]) by {
        assert(token[i] == word[i + leading_quotes(word)]);
    }
}

/// The words of an ASCII text without capital letters are made of settled
/// characters.
pub proof fn lemma_words_of_lowered(text: Seq<char>)
    requires
        forall|i: int|
            0 <= i < text.len() ==> '\0' <= #[trigger] text[i] <= '\u{7f}' && !('A' <= text[i]
                && text[i] <= 'Z'),
    ensures
        forall|i: int, k: int|
            0 <= i < words(text).len() && 0 <= k < words(text)[i].len() ==> is_settled_char(
                #[trigger] words(text)[i][k],
            ),
    decreases text.len(),
{
    if text.len() > 0 {
        if is_whitespace(text[0]) {
            let rest = text.drop_first();
            assert forall|i: int| 0 <= i < rest.len() implies '\0' <= #[trigger] rest[i]
                <= '\u{7f}' && !('A' <= rest[i] && rest[i] <= 'Z') by {
                assert(rest[i] == text[i + 1]);
            }
            lemma_words_of_lowered(rest);
            assert(words(text) == words(rest));
        } else {
            let n = word_len(text) as int;
            lemma_word_len_bounds(text);
            let rest = text.skip(n);
            assert forall|i: int| 0 <= i < rest.len() implies '\0' <= #[trigger] rest[i]
                <= '\u{7f}' && !('A' <= rest[i] && rest[i] <= 'Z') by {
                assert(rest[i] == text[i + n]);
            }
            lemma_words_of_lowered(rest);
            let first = text.take(n);
            assert forall|i: int, k: int|
                0 <= i < words(text).len() && 0 <= k < words(text)[i].len() implies is_settled_char(
                #[trigger] words(text)[i][k],
            ) by {
                if i == 0 {
                    assert(words(text)[0] == first);
                    assert(first[k] == text[k]);
                } else {
                    assert(words(text)[i] == words(rest)[i - 1]);
                }
            }
        }
    } else {
        assert(words(text).len() == 0);
    }
}

/// The tokens of an ASCII string are settled.
pub proof fn lemma_tokens_of_ascii(s: Seq<char>)
    requires
        is_ascii_chars(s),
    ensures
        all_settled(tokens_of(s)),
{
    reveal(tokens_of);
    let text = lowercase(s);
    assert forall|i: int| 0 <= i < text.len() implies '\0' <= #[trigger] text[i] <= '\u{7f}' && !(
    'A' <= text[i] && text[i] <= 'Z') by {
        assert(text[i] == ascii_lower(s[i]));
        assert('\0' <= s[i] <= '\u{7f}');
    }
    lemma_words_of_lowered(text);
    let tokens = tokens_of(s);
    assert forall|i: int| 0 <= i < tokens.len() implies is_settled(#[trigger] tokens[i]) by {
        let word = words(text)[i];
        assert(tokens[i] == trim_quotes(word));
        assert forall|k: int| 0 <= k < word.len() implies is_settled_char(#[trigger] word[k]) by {
            assert(word[k] == words(text)[i][k]);
        }
        lemma_trimmed_word_is_settled(word);
    }
}

/// The settled tokens of a list stay settled where some are left out.
pub proof fn lemma_filter_settled(tokens: Seq<Seq<char>>, keep: spec_fn(Seq<char>) -> bool)
    requires
        all_settled(tokens),
    ensures
        all_settled(tokens.filter(keep)),
{
    let kept = tokens.filter(keep);
    assert forall|i: int| 0 <= i < kept.len() implies is_settled(#[trigger] kept[i]) by {
        tokens.lemma_filter_contains_rev(keep, kept[i]);
        let j = choose|j: int| 0 <= j < tokens.len() && tokens[j] == kept[i];
        assert(is_settled(tokens[j]));
    }
}

} // verus!
