//! Text helpers: comparison, lower-casing, whitespace splitting, and the
//! `--` marker of named parameters.
use vstd::prelude::*;

verus! {

/// Whether `c` has the Unicode property `White_Space`, as `char::is_whitespace` reports it.
pub uninterp spec fn white_space(c: char) -> bool;

/// The lower-case form of a text, as `str::to_lowercase` computes it.
pub uninterp spec fn lowercase_of(text: Seq<char>) -> Seq<char>;

/// Calls `char::is_whitespace`. The result is named `white_space(c)`;
/// nothing more is claimed of it.
#[verifier::external_body]
fn is_whitespace(c: char) -> (r: bool)
    ensures
        r == white_space(c),
{
    c.is_whitespace()
}

/// Calls `str::to_lowercase`. The result is named `lowercase_of`; nothing
/// more is claimed of it.
#[verifier::external_body]
pub(crate) fn lowercase(text: &str) -> (r: String)
    ensures
        r@ == lowercase_of(text@),
{
    text.to_lowercase()
}

/// Whether two strings hold the same characters.
pub fn same_text(a: &str, b: &str) -> (r: bool)
    ensures
        r == (a@ == b@),
{
    let x = a.to_owned();
    let y = b.to_owned();
    x == y
}

/// The characters of `text`, in order.
pub fn chars_of(text: &str) -> (chars: Vec<char>)
    ensures
        chars@ == text@,
{
    let n = text.unicode_len();
    let mut chars: Vec<char> = Vec::new();
    let mut i: usize = 0;
    while i < n
        invariant
            n == text@.len(),
            i <= n,
            chars@ == text@.subrange(0, i as int),
        decreases n - i,
    {
        chars.push(text.get_char(i));
        assert(chars@ =~= text@.subrange(0, i + 1));
        i += 1;
    }
    assert(text@.subrange(0, n as int) =~= text@);
    chars
}

/// The first position at or after `from` that holds no whitespace, or the
/// length of `text` if there is none.
pub open spec fn word_start(text: Seq<char>, from: int) -> int
    decreases text.len() - from,
{
    if from < 0 || from >= text.len() {
        text.len() as int
    } else if !white_space(text[from]) {
        from
    } else {
        word_start(text, from + 1)
    }
}

/// The first position at or after `from` that holds whitespace, or the
/// length of `text` if there is none.
pub open spec fn word_end(text: Seq<char>, from: int) -> int
    decreases text.len() - from,
{
    if from < 0 || from >= text.len() {
        text.len() as int
    } else if white_space(text[from]) {
        from
    } else {
        word_end(text, from + 1)
    }
}

/// The words of `text` that begin at or after `from`: the maximal runs of
/// characters that are not whitespace, left to right.
pub open spec fn words_from(text: Seq<char>, from: int) -> Seq<Seq<char>>
    decreases text.len() - from,
    when 0 <= from
    via words_from_decreases
{
    let start = word_start(text, from);
    if start >= text.len() {
        Seq::empty()
    } else {
        let end = word_end(text, start);
        seq![text.subrange(start, end)] + words_from(text, end)
    }
}

#[via_fn]
proof fn words_from_decreases(text: Seq<char>, from: int) {
    lemma_word_start(text, from);
    let start = word_start(text, from);
    if start < text.len() {
        lemma_word_end(text, start);
    }
}

/// The words of a line: what splitting it on whitespace gives.
pub open spec fn split_words(text: Seq<char>) -> Seq<Seq<char>> {
    words_from(text, 0)
}

/// `word_start` lies between `from` and the end, skips only whitespace,
/// and stops on a character that is none.
pub proof fn lemma_word_start(text: Seq<char>, from: int)
    requires
        0 <= from,
    ensures
        from <= word_start(text, from) || word_start(text, from) == text.len(),
        word_start(text, from) <= text.len(),
        word_start(text, from) < text.len() ==> !white_space(text[word_start(text, from)]),
        forall|j: int| from <= j < word_start(text, from) ==> white_space(#[trigger] text[j]),
    decreases text.len() - from,
{
    if from < text.len() && white_space(text[from]) {
        lemma_word_start(text, from + 1);
    }
}

/// `word_end` lies between `from` and the end, skips no whitespace, and
/// stops on whitespace; so it lies after `from` when `from` holds none.
pub proof fn lemma_word_end(text: Seq<char>, from: int)
    requires
        0 <= from,
    ensures
        from <= word_end(text, from) || word_end(text, from) == text.len(),
        word_end(text, from) <= text.len(),
        word_end(text, from) < text.len() ==> white_space(text[word_end(text, from)]),
        forall|j: int| from <= j < word_end(text, from) ==> !white_space(#[trigger] text[j]),
        from < text.len() && !white_space(text[from]) ==> from < word_end(text, from),
    decreases text.len() - from,
{
    if from < text.len() && !white_space(text[from]) {
        lemma_word_end(text, from + 1);
    }
}

/// Whether `word` is a word: not empty, and without whitespace.
pub open spec fn is_word(word: Seq<char>) -> bool {
    word.len() > 0 && forall|j: int| 0 <= j < word.len() ==> !white_space(#[trigger] word[j])
}

/// Every word that splitting gives is a word: not empty, and without whitespace.
pub proof fn lemma_words_from(text: Seq<char>, from: int)
    requires
        0 <= from,
    ensures
        forall|i: int| 0 <= i < words_from(text, from).len() ==> is_word(#[trigger] words_from(text, from)[i]),
    decreases text.len() - from,
{
    lemma_word_start(text, from);
    let start = word_start(text, from);
    if start < text.len() {
        lemma_word_end(text, start);
        let end = word_end(text, start);
        lemma_words_from(text, end);
        let first = text.subrange(start, end);
        assert(is_word(first)) by {
            assert forall|j: int| 0 <= j < first.len() implies !white_space(#[trigger] first[j]) by {
                assert(first[j] == text[start + j]);
            }
        }
        assert forall|i: int| 0 <= i < words_from(text, from).len() implies is_word(
            #[trigger] words_from(text, from)[i],
        ) by {
            if i > 0 {
                assert(words_from(text, from)[i] == words_from(text, end)[i - 1]);
            }
        }
    }
}

/// The views of a sequence of strings.
pub open spec fn texts(words: Seq<String>) -> Seq<Seq<char>> {
    words.map_values(|w: String| w@)
}

/// Splits a line on whitespace. No word is empty and none holds whitespace.
pub fn split_whitespace(line: &str) -> (words: Vec<String>)
    ensures
        texts(words@) == split_words(line@),
        forall|i: int| 0 <= i < words.len() ==> is_word(#[trigger] words[i]@),
{
    proof {
        lemma_words_from(line@, 0);
    }
    let chars = chars_of(line);
    let n = chars.len();
    let mut words: Vec<String> = Vec::new();
    let mut i: usize = 0;
    while i < n
        invariant
            chars@ == line@,
            n == chars@.len(),
            i <= n,
            split_words(line@) == texts(words@) + words_from(line@, i as int),
        decreases n - i,
    {
        let ghost from = i as int;
        let mut start: usize = i;
        while start < n && is_whitespace(chars[start])
            invariant
                chars@ == line@,
                n == chars@.len(),
                i <= start <= n,
                word_start(line@, from) == word_start(line@, start as int),
            decreases n - start,
        {
            start += 1;
        }
        if start >= n {
            i = n;
            assert(words_from(line@, from) =~= Seq::<Seq<char>>::empty());
            assert(words_from(line@, n as int) =~= Seq::<Seq<char>>::empty());
        } else {
            let mut end: usize = start + 1;
            proof {
                lemma_word_end(line@, start as int);
            }
            while end < n && !is_whitespace(chars[end])
                invariant
                    chars@ == line@,
                    n == chars@.len(),
                    start < end <= n,
                    !white_space(line@[start as int]),
                    word_end(line@, start as int) == word_end(line@, end as int),
                decreases n - end,
            {
                end += 1;
            }
            let word = line.substring_char(start, end).to_owned();
            proof {
                assert(word_start(line@, from) == start);
                assert(word_end(line@, start as int) == end);
                assert(words_from(line@, from) == seq![line@.subrange(start as int, end as int)]
                    + words_from(line@, end as int));
                assert(texts(words@.push(word)) =~= texts(words@) + seq![word@]);
                assert(texts(words@.push(word)) + words_from(line@, end as int) =~= texts(words@)
                    + words_from(line@, from));
            }
            words.push(word);
            i = end;
        }
    }
    proof {
        assert(words_from(line@, n as int) =~= Seq::<Seq<char>>::empty());
        assert(texts(words@) + Seq::<Seq<char>>::empty() =~= texts(words@));
        assert forall|i: int| 0 <= i < words.len() implies is_word(#[trigger] words[i]@) by {
            assert(texts(words@)[i] == words[i]@);
        }
    }
    words
}

/// Whether a word begins with the two-character marker `--`.
pub open spec fn is_marker(word: Seq<char>) -> bool {
    word.len() >= 2 && word[0] == '-' && word[1] == '-'
}

/// The word without its leading markers: `--` is taken off for as long as
/// the rest begins with it.
pub open spec fn strip_markers(word: Seq<char>) -> Seq<char>
    decreases word.len(),
{
    if is_marker(word) {
        strip_markers(word.skip(2))
    } else {
        word
    }
}

/// Whether `word` begins with `--` and so names a parameter.
pub fn starts_with_marker(word: &str) -> (r: bool)
    ensures
        r == is_marker(word@),
{
    let n = word.unicode_len();
    n >= 2 && word.get_char(0) == '-' && word.get_char(1) == '-'
}

/// The name that a marker word declares: the word without its leading `--`s.
pub fn trim_markers(word: &str) -> (name: String)
    ensures
        name@ == strip_markers(word@),
{
    let chars = chars_of(word);
    let n = chars.len();
    let mut at: usize = 0;
    assert(word@.skip(0) =~= word@);
    while n - at >= 2 && chars[at] == '-' && chars[at + 1] == '-'
        invariant
            chars@ == word@,
            n == chars@.len(),
            at <= n,
            strip_markers(word@) == strip_markers(word@.skip(at as int)),
        decreases n - at,
    {
        assert(word@.skip(at as int).skip(2) =~= word@.skip(at + 2));
        at += 2;
    }
    assert(word@.skip(at as int) =~= word@.subrange(at as int, n as int));
    word.substring_char(at, n).to_owned()
}

} // verus!
