//! The text of a style string: its characters, its lower-case form and the
//! tokens it is made of.
//!
//! A style string is read as a list of tokens. The whole string is put in
//! lower case, cut at white space, and every piece loses the quote characters
//! at its two ends. ASCII text is handled here; what lies beyond ASCII is left
//! to the Unicode tables of the standard library.

use vstd::prelude::*;
use vstd::std_specs::iter::IteratorSpec;

verus! {

/// The lower-case form that `str::to_lowercase` gives a text.
pub uninterp spec fn unicode_lowercase(s: Seq<char>) -> Seq<char>;

/// Whether `char::is_whitespace` holds of a character.
pub uninterp spec fn unicode_white_space(c: char) -> bool;

/// `str::to_lowercase`: the result is a function of the text alone, and it is
/// known here only under the name `unicode_lowercase`.
#[verifier::external_body]
fn unicode_lowercase_of(s: &str) -> (r: String)
    ensures
        r@ == unicode_lowercase(s@),
{
    s.to_lowercase()
}

/// `char::is_whitespace`: the answer is a function of the character alone, and
/// it is known here only under the name `unicode_white_space`.
#[verifier::external_body]
fn is_unicode_white_space(c: char) -> (b: bool)
    ensures
        b == unicode_white_space(c),
{
    c.is_whitespace()
}

/// `String::push`: the character is appended at the end of the string.
#[verifier::external_body]
fn push_char(s: &mut String, c: char)
    ensures
        final(s)@ == old(s)@.push(c),
{
    s.push(c)
}

/// The characters of `s`, in order.
pub fn chars_of(s: &str) -> (v: Vec<char>)
    ensures
        v@ == s@,
{
    let mut v: Vec<char> = Vec::new();
    let mut it = s.chars();
    loop
        invariant
            it.obeys_prophetic_iter_laws(),
            it.decrease() is Some,
            v@ + it.remaining() == s@,
        ensures
            v@ == s@,
        decreases it.decrease()->0,
    {
        match it.next() {
            Some(c) => {
                v.push(c);
            },
            None => {
                assert(v@ + it.remaining() =~= v@);
                break;
            },
        }
    }
    v
}

/// A string that holds the characters of `chars`, in order.
pub fn string_of(chars: &Vec<char>) -> (s: String)
    ensures
        s@ == chars@,
{
    let mut s = String::new();
    let mut i: usize = 0;
    while i < chars.len()
        invariant
            i <= chars.len(),
            s@ == chars@.take(i as int),
        decreases chars.len() - i,
    {
        push_char(&mut s, chars[i]);
        assert(chars@.take(i as int).push(chars@[i as int]) =~= chars@.take(i + 1));
        i += 1;
    }
    assert(chars@.take(chars.len() as int) =~= chars@);
    s
}

/// Whether `word` holds exactly the characters of `keyword`.
pub fn word_is(word: &Vec<char>, keyword: &str) -> (b: bool)
    ensures
        b == (word@ == keyword@),
{
    let mut it = keyword.chars();
    let mut i: usize = 0;
    loop
        invariant
            it.obeys_prophetic_iter_laws(),
            it.decrease() is Some,
            i <= word.len(),
            word@.take(i as int) + it.remaining() == keyword@,
        decreases it.decrease()->0,
    {
        let ghost rest = it.remaining();
        match it.next() {
            Some(c) => {
                assert(keyword@[i as int] == c && keyword@.len() > i) by {
                    assert((word@.take(i as int) + rest)[i as int] == rest[0]);
                }
                if i >= word.len() || word[i] != c {
                    return false;
                }
                assert(word@.take(i as int) + rest =~= word@.take(i + 1) + rest.drop_first());
                i += 1;
            },
            None => {
                assert(word@.take(i as int) + rest =~= word@.take(i as int));
                assert(i == word.len() ==> word@.take(i as int) =~= word@);
                return i == word.len();
            },
        }
    }
}

/// ASCII letters `A` to `Z` become `a` to `z`; every other character stays.
pub open spec fn ascii_lower(c: char) -> char {
    if 'A' <= c && c <= 'Z' {
        ((c as u8) + 32) as char
    } else {
        c
    }
}

/// The lower-case form of a text. ASCII text is lowered letter by letter;
/// any other text is lowered as `str::to_lowercase` does it.
pub open spec fn lowercase(s: Seq<char>) -> Seq<char> {
    if vstd::utf8::is_ascii_chars(s) {
        s.map_values(|c: char| ascii_lower(c))
    } else {
        unicode_lowercase(s)
    }
}

/// White space: among ASCII characters the space and the controls from tab
/// to carriage return, beyond ASCII what `char::is_whitespace` accepts.
pub open spec fn is_whitespace(c: char) -> bool {
    if c <= '\u{7f}' {
        c == ' ' || ('\t' <= c && c <= '\r')
    } else {
        unicode_white_space(c)
    }
}

/// The two quote characters that a token sheds at its ends.
pub open spec fn is_quote(c: char) -> bool {
    c == '"' || c == '\''
}

/// How many characters stand before the first white space of `s`.
pub open spec fn word_len(s: Seq<char>) -> nat
    decreases s.len(),
{
    if s.len() == 0 || is_whitespace(s[0]) {
        0
    } else {
        1 + word_len(s.drop_first())
    }
}

/// The maximal runs of characters other than white space, in order.
pub open spec fn words(s: Seq<char>) -> Seq<Seq<char>>
    decreases s.len(),
    via words_decreases
{
    if s.len() == 0 {
        Seq::empty()
    } else if is_whitespace(s[0]) {
        words(s.drop_first())
    } else {
        seq![s.take(word_len(s) as int)] + words(s.skip(word_len(s) as int))
    }
}

/// The text behind a word is shorter than the text that the word starts.
#[via_fn]
proof fn words_decreases(s: Seq<char>) {
    lemma_word_len_bounds(s);
}

/// A word is no longer than the text it starts, and is not empty where the
/// text starts with a character other than white space.
pub proof fn lemma_word_len_bounds(s: Seq<char>)
    ensures
        word_len(s) <= s.len(),
        s.len() > 0 && !is_whitespace(s[0]) ==> word_len(s) >= 1,
        forall|i: int| 0 <= i < word_len(s) ==> !is_whitespace(#[trigger] s[i]),
        word_len(s) < s.len() ==> is_whitespace(s[word_len(s) as int]),
    decreases s.len(),
{
    if s.len() != 0 && !is_whitespace(s[0]) {
        let rest = s.drop_first();
        lemma_word_len_bounds(rest);
        assert forall|i: int| 0 <= i < word_len(s) implies !is_whitespace(#[trigger] s[i]) by {
            if i > 0 {
                assert(s[i] == rest[i - 1]);
            }
        }
        if word_len(s) < s.len() {
            assert(s[word_len(s) as int] == rest[word_len(rest) as int]);
        }
    }
}

/// How many quote characters stand at the start of `w`.
pub open spec fn leading_quotes(w: Seq<char>) -> nat
    decreases w.len(),
{
    if w.len() == 0 || !is_quote(w[0]) {
        0
    } else {
        1 + leading_quotes(w.drop_first())
    }
}

/// How many quote characters stand at the end of `w`.
pub open spec fn trailing_quotes(w: Seq<char>) -> nat
    decreases w.len(),
{
    if w.len() == 0 || !is_quote(w.last()) {
        0
    } else {
        1 + trailing_quotes(w.drop_last())
    }
}

/// `w` without the quote characters at its start and at its end.
pub open spec fn trim_quotes(w: Seq<char>) -> Seq<char> {
    let rest = w.skip(leading_quotes(w) as int);
    rest.take(rest.len() - trailing_quotes(rest))
}

/// The tokens of a text that is already in lower case: its words, each
/// without the quotes at its ends. A word of quotes alone leaves an empty
/// token.
pub open spec fn tokens_of_lowered(text: Seq<char>) -> Seq<Seq<char>> {
    words(text).map_values(|w: Seq<char>| trim_quotes(w))
}

/// The tokens of a style string.
#[verifier::opaque]
pub open spec fn tokens_of(s: Seq<char>) -> Seq<Seq<char>> {
    tokens_of_lowered(lowercase(s))
}

/// The tokens joined by single spaces.
pub open spec fn join(tokens: Seq<Seq<char>>) -> Seq<char>
    decreases tokens.len(),
{
    if tokens.len() == 0 {
        Seq::empty()
    } else if tokens.len() == 1 {
        tokens[0]
    } else {
        join(tokens.drop_last()) + seq![' '] + tokens.last()
    }
}

/// The character sequences that a list of tokens holds.
pub open spec fn token_views(tokens: Seq<Vec<char>>) -> Seq<Seq<char>> {
    Seq::new(tokens.len(), |i: int| tokens[i]@)
}

/// The small letter of an ASCII capital letter; any other character as it
/// is.
pub fn to_ascii_lower(c: char) -> (r: char)
    ensures
        r == ascii_lower(c),
{
    if 'A' <= c && c <= 'Z' {
        ((c as u8) + 32) as char
    } else {
        c
    }
}

/// Whether a character is white space.
pub fn whitespace(c: char) -> (b: bool)
    ensures
        b == is_whitespace(c),
{
    if c <= '\u{7f}' {
        c == ' ' || ('\t' <= c && c <= '\r')
    } else {
        is_unicode_white_space(c)
    }
}

/// Whether a character is one of the two quotes.
pub fn quote(c: char) -> (b: bool)
    ensures
        b == is_quote(c),
{
    c == '"' || c == '\''
}

/// The characters of `s` in lower case.
pub fn lowercase_chars(s: &str) -> (r: Vec<char>)
    ensures
        r@ == lowercase(s@),
{
    if s.is_ascii() {
        let chars = chars_of(s);
        let mut lowered: Vec<char> = Vec::new();
        let mut i: usize = 0;
        while i < chars.len()
            invariant
                i <= chars.len(),
                lowered@ == chars@.take(i as int).map_values(|c: char| ascii_lower(c)),
            decreases chars.len() - i,
        {
            lowered.push(to_ascii_lower(chars[i]));
            assert(chars@.take(i + 1).map_values(|c: char| ascii_lower(c)) =~= chars@.take(
                i as int,
            ).map_values(|c: char| ascii_lower(c)).push(ascii_lower(chars@[i as int])));
            i += 1;
        }
        assert(chars@.take(chars.len() as int) =~= chars@);
        lowered
    } else {
        let lowered = unicode_lowercase_of(s);
        chars_of(lowered.as_str())
    }
}

/// Where the first `k` characters of a word are quotes, the word has `k`
/// leading quotes more than what follows them.
proof fn lemma_leading_quotes_skip(w: Seq<char>, k: int)
    requires
        0 <= k <= w.len(),
        forall|j: int| 0 <= j < k ==> is_quote(#[trigger] w[j]),
    ensures
        leading_quotes(w) == k + leading_quotes(w.skip(k)),
    decreases k,
{
    if k == 0 {
        assert(w.skip(0) =~= w);
    } else {
        lemma_leading_quotes_skip(w.drop_first(), k - 1);
        assert(w.drop_first().skip(k - 1) =~= w.skip(k));
        assert forall|j: int| 0 <= j < k - 1 implies is_quote(#[trigger] w.drop_first()[j]) by {
            assert(w.drop_first()[j] == w[j + 1]);
        }
    }
}

/// Where the characters of a word from the `k`-th on are quotes, the word
/// has that many trailing quotes more than what stands before them.
proof fn lemma_trailing_quotes_take(w: Seq<char>, k: int)
    requires
        0 <= k <= w.len(),
        forall|j: int| k <= j < w.len() ==> is_quote(#[trigger] w[j]),
    ensures
        trailing_quotes(w) == (w.len() - k) + trailing_quotes(w.take(k)),
    decreases w.len() - k,
{
    if k == w.len() {
        assert(w.take(k) =~= w);
    } else {
        lemma_trailing_quotes_take(w.drop_last(), k);
        assert(w.drop_last().take(k) =~= w.take(k));
    }
}

/// The token that the word `text[start..end]` leaves: a copy without the
/// quotes at its ends.
fn trimmed_word(text: &Vec<char>, start: usize, end: usize) -> (token: Vec<char>)
    requires
        start <= end <= text.len(),
    ensures
        token@ == trim_quotes(text@.subrange(start as int, end as int)),
{
    let ghost w = text@.subrange(start as int, end as int);
    let mut a: usize = start;
    while a < end && quote(text[a])
        invariant
            start <= a <= end <= text.len(),
            w == text@.subrange(start as int, end as int),
            forall|j: int| 0 <= j < a - start ==> is_quote(#[trigger] w[j]),
        decreases end - a,
    {
        a += 1;
    }
    proof {
        lemma_leading_quotes_skip(w, a - start);
        assert(leading_quotes(w) == a - start);
    }
    let ghost rest = w.skip(a - start);
    assert(rest =~= text@.subrange(a as int, end as int));
    let mut b: usize = end;
    while a < b && quote(text[b - 1])
        invariant
            a <= b <= end <= text.len(),
            rest == text@.subrange(a as int, end as int),
            forall|j: int| b - a <= j < rest.len() ==> is_quote(#[trigger] rest[j]),
        decreases b - a,
    {
        b -= 1;
    }
    proof {
        lemma_trailing_quotes_take(rest, b - a);
        if a < b {
            assert(rest.take(b - a).last() == text@[b - 1]);
        }
        assert(trailing_quotes(rest) == end - b);
    }
    let mut token: Vec<char> = Vec::new();
    let mut i: usize = a;
    while i < b
        invariant
            a <= i <= b <= end <= text.len(),
            token@ == text@.subrange(a as int, i as int),
        decreases b - i,
    {
        token.push(text[i]);
        assert(text@.subrange(a as int, i as int).push(text@[i as int]) =~= text@.subrange(
            a as int,
            i + 1,
        ));
        i += 1;
    }
    assert(text@.subrange(a as int, b as int) =~= rest.take(rest.len() - trailing_quotes(rest)));
    token
}

/// The words of a text never begin where it has white space: the words of
/// what follows position `i` are those of what follows the next position.
proof fn lemma_words_skip_whitespace(s: Seq<char>, i: int)
    requires
        0 <= i < s.len(),
        is_whitespace(s[i]),
    ensures
        words(s.skip(i)) == words(s.skip(i + 1)),
{
    assert(s.skip(i).drop_first() =~= s.skip(i + 1));
}

/// The word that starts at `i` ends at the first white space behind it.
proof fn lemma_word_len_run(s: Seq<char>, i: int, j: int)
    requires
        0 <= i <= j <= s.len(),
        forall|k: int| i <= k < j ==> !is_whitespace(#[trigger] s[k]),
    ensures
        word_len(s.skip(i)) == (j - i) + word_len(s.skip(j)),
    decreases j - i,
{
    if i < j {
        lemma_word_len_run(s, i + 1, j);
        assert(s.skip(i).drop_first() =~= s.skip(i + 1));
    }
}

/// Cuts a text that is already in lower case into its tokens.
pub fn split_tokens(text: &Vec<char>) -> (tokens: Vec<Vec<char>>)
    ensures
        token_views(tokens@) == tokens_of_lowered(text@),
{
    let mut tokens: Vec<Vec<char>> = Vec::new();
    let ghost mut found: Seq<Seq<char>> = Seq::empty();
    let mut i: usize = 0;
    assert(text@.skip(0) =~= text@);
    while i < text.len()
        invariant
            i <= text.len(),
            words(text@) == found + words(text@.skip(i as int)),
            token_views(tokens@) == found.map_values(|w: Seq<char>| trim_quotes(w)),
        decreases text.len() - i,
    {
        if whitespace(text[i]) {
            proof {
                lemma_words_skip_whitespace(text@, i as int);
            }
            i += 1;
        } else {
            let start = i;
            while i < text.len() && !whitespace(text[i])
                invariant
                    start <= i <= text.len(),
                    forall|k: int| start <= k < i ==> !is_whitespace(#[trigger] text@[k]),
                decreases text.len() - i,
            {
                i += 1;
            }
            let token = trimmed_word(text, start, i);
            proof {
                let rest = text@.skip(start as int);
                let word = text@.subrange(start as int, i as int);
                lemma_word_len_run(text@, start as int, i as int);
                assert(word_len(text@.skip(i as int)) == 0);
                assert(rest.take(word_len(rest) as int) =~= word);
                assert(rest.skip(word_len(rest) as int) =~= text@.skip(i as int));
                assert(words(rest) == seq![word] + words(text@.skip(i as int)));
                assert(found + (seq![word] + words(text@.skip(i as int))) =~= found.push(word)
                    + words(text@.skip(i as int)));
                let grown = token_views(tokens@.push(token));
                let wanted = found.push(word).map_values(|w: Seq<char>| trim_quotes(w));
                assert(token_views(tokens@).len() == tokens@.len());
                assert(found.map_values(|w: Seq<char>| trim_quotes(w)).len() == found.len());
                assert(grown.len() == wanted.len());
                assert forall|k: int| 0 <= k < grown.len() implies grown[k] == wanted[k] by {
                    if k < tokens@.len() {
                        assert(grown[k] == token_views(tokens@)[k]);
                    }
                }
                assert(grown =~= wanted);
                found = found.push(word);
            }
            tokens.push(token);
        }
    }
    proof {
        assert(words(text@.skip(text@.len() as int)) =~= Seq::<Seq<char>>::empty());
        assert(found + Seq::<Seq<char>>::empty() =~= found);
    }
    tokens
}

/// The tokens of a style string: the string in lower case, cut at white
/// space, each piece without the quotes at its ends.
pub fn tokenize(s: &str) -> (tokens: Vec<Vec<char>>)
    ensures
        token_views(tokens@) == tokens_of(s@),
{
    reveal(tokens_of);
    let lowered = lowercase_chars(s);
    split_tokens(&lowered)
}

/// The joined form of a list with one more token.
pub proof fn lemma_join_push(tokens: Seq<Seq<char>>, token: Seq<char>)
    ensures
        join(tokens.push(token)) == if tokens.len() == 0 {
            token
        } else {
            join(tokens) + seq![' '] + token
        },
{
    assert(tokens.push(token).drop_last() =~= tokens);
}

/// Appends a token to a string of joined tokens: behind a space, unless it
/// is the first.
pub fn append_token(s: &mut String, token: &Vec<char>, first: bool)
    ensures
        final(s)@ == if first {
            old(s)@ + token@
        } else {
            old(s)@ + seq![' '] + token@
        },
{
    if !first {
        push_char(s, ' ');
    }
    let ghost start = s@;
    assert(start == if first { old(s)@ } else { old(s)@.push(' ') });
    let mut j: usize = 0;
    while j < token.len()
        invariant
            j <= token.len(),
            s@ == start + token@.take(j as int),
        decreases token.len() - j,
    {
        push_char(s, token[j]);
        assert((start + token@.take(j as int)).push(token@[j as int]) =~= start + token@.take(
            j + 1,
        ));
        j += 1;
    }
    assert(token@.take(token.len() as int) =~= token@);
    assert(old(s)@.push(' ') + token@ =~= old(s)@ + seq![' '] + token@);
}

} // verus!
