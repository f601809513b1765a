//! Random word generation and filtered lookup over fixed, embedded word
//! lists for several natural languages. Words can be enumerated whole, or
//! filtered by exact length or by first character; one word can be drawn
//! at random from any of those result sets.

use vstd::prelude::*;

pub mod index;
mod rng;
pub mod words;

verus! {

/// ISO 639-1 language codes. Each variant selects one embedded word list.
#[derive(Debug, Clone, Copy, PartialEq, Eq, Hash)]
pub enum Lang {
    /// German.
    De,
    /// English.
    En,
    /// Spanish.
    Es,
    /// French.
    Fr,
    /// Chinese.
    Zh,
}

/// Returns all words of the given language, in the fixed corpus order.
///
/// The result is never empty, and every word in it is non-empty.
pub fn all(lang: Lang) -> (r: Vec<&'static str>)
    ensures
        words::views(r@) == words::corpus(lang),
        r@.len() > 0,
        forall|i: int| 0 <= i < r@.len() ==> (#[trigger] r@[i])@.len() >= 1,
{
    let v = words::all_words(lang);
    proof {
        words::lemma_corpus_wf(lang);
        assert(words::views(v@).len() == v@.len());
        assert forall|i: int| 0 <= i < v@.len() implies (#[trigger] v@[i])@.len() >= 1 by {
            assert(words::views(v@)[i] == v@[i]@);
        }
    }
    v
}

/// Generates a random word of the given language: always a member of the
/// corpus returned by `all`.
pub fn gen(lang: Lang) -> (r: &'static str)
    ensures
        words::corpus(lang).contains(r@),
{
    let candidates = all(lang);
    match rng::choose_from(&candidates) {
        Some(w) => {
            proof {
                let i = choose|i: int|
                    0 <= i < candidates@.len() && candidates@[i]@ == w@;
                assert(words::views(candidates@)[i] == w@);
                assert(words::corpus(lang)[i] == w@);
            }
            w
        },
        None => vstd::pervasive::unreached(),
    }
}

/// Returns all words of the given language with exactly `len` characters,
/// in the corpus order, or `None` when no word has that length.
pub fn all_len(len: usize, lang: Lang) -> (r: Option<Vec<&'static str>>)
    ensures
        match r {
            Some(v) => index::filter_len(words::corpus(lang), len as nat).len() > 0
                && words::views(v@) == index::filter_len(words::corpus(lang), len as nat),
            None => index::filter_len(words::corpus(lang), len as nat).len() == 0,
        },
{
    let candidates = all(lang);
    let bucket = index::words_of_length(&candidates, len);
    proof {
        assert(words::views(bucket@).len() == bucket@.len());
    }
    if bucket.len() == 0 {
        None
    } else {
        Some(bucket)
    }
}

/// Generates a random word of the given language with exactly `len`
/// characters, or `None` when no word has that length.
///
/// A returned word is always a member of the matching length bucket.
pub fn gen_len(len: usize, lang: Lang) -> (r: Option<&'static str>)
    ensures
        match r {
            Some(w) => index::filter_len(words::corpus(lang), len as nat).contains(w@)
                && w@.len() == len,
            None => index::filter_len(words::corpus(lang), len as nat).len() == 0,
        },
{
    match all_len(len, lang) {
        Some(bucket) => match rng::choose_from(&bucket) {
            Some(w) => {
                proof {
                    let i = choose|i: int|
                        0 <= i < bucket@.len() && bucket@[i]@ == w@;
                    assert(words::views(bucket@)[i] == w@);
                    assert(index::filter_len(words::corpus(lang), len as nat)[i] == w@);
                    index::lemma_filter_len_sound(words::corpus(lang), len as nat);
                }
                Some(w)
            },
            None => {
                proof {
                    assert(words::views(bucket@).len() == bucket@.len());
                }
                vstd::pervasive::unreached()
            },
        },
        None => None,
    }
}

/// Returns all words of the given language that start with the given
/// character, in the corpus order, or `None` when no word starts with it.
pub fn all_starts_with(char: char, lang: Lang) -> (r: Option<Vec<&'static str>>)
    ensures
        match r {
            Some(v) => index::filter_first(words::corpus(lang), char).len() > 0
                && words::views(v@) == index::filter_first(words::corpus(lang), char),
            None => index::filter_first(words::corpus(lang), char).len() == 0,
        },
{
    let candidates = all(lang);
    let bucket = index::words_starting_with(&candidates, char);
    proof {
        assert(words::views(bucket@).len() == bucket@.len());
    }
    if bucket.len() == 0 {
        None
    } else {
        Some(bucket)
    }
}

/// Generates a random word of the given language that starts with the
/// given character, or `None` when no word starts with it.
///
/// A returned word is always a member of the matching first-character
/// bucket.
pub fn gen_starts_with(char: char, lang: Lang) -> (r: Option<&'static str>)
    ensures
        match r {
            Some(w) => index::filter_first(words::corpus(lang), char).contains(w@)
                && index::starts_with_char(w@, char),
            None => index::filter_first(words::corpus(lang), char).len() == 0,
        },
{
    match all_starts_with(char, lang) {
        Some(bucket) => match rng::choose_from(&bucket) {
            Some(w) => {
                proof {
                    let i = choose|i: int|
                        0 <= i < bucket@.len() && bucket@[i]@ == w@;
                    assert(words::views(bucket@)[i] == w@);
                    assert(index::filter_first(words::corpus(lang), char)[i] == w@);
                    index::lemma_filter_first_sound(words::corpus(lang), char);
                }
                Some(w)
            },
            None => {
                proof {
                    assert(words::views(bucket@).len() == bucket@.len());
                }
                vstd::pervasive::unreached()
            },
        },
        None => None,
    }
}

/// Every word of a language's corpus appears in the length bucket keyed
/// by its own length: a lookup by `all_len` with a word's length always
/// finds that word.
pub proof fn lemma_word_in_its_length_bucket(lang: Lang, i: int)
    requires
        0 <= i < words::corpus(lang).len(),
    ensures
        index::filter_len(words::corpus(lang), words::corpus(lang)[i].len())
            .contains(words::corpus(lang)[i]),
{
    index::lemma_filter_len_complete(words::corpus(lang), i);
}

/// Every word of a language's corpus appears in the bucket keyed by its
/// own first character: a lookup by `all_starts_with` with a word's first
/// character always finds that word.
pub proof fn lemma_word_in_its_first_char_bucket(lang: Lang, i: int)
    requires
        0 <= i < words::corpus(lang).len(),
    ensures
        index::filter_first(words::corpus(lang), words::corpus(lang)[i][0])
            .contains(words::corpus(lang)[i]),
{
    words::lemma_corpus_wf(lang);
    index::lemma_filter_first_complete(words::corpus(lang), i);
}

/// No word of any supported language has zero characters, so the
/// zero-length bucket is always empty: `all_len(0, lang)` and
/// `gen_len(0, lang)` return `None` for every language.
pub proof fn lemma_len_zero_bucket_empty(lang: Lang)
    ensures
        index::filter_len(words::corpus(lang), 0).len() == 0,
{
    words::lemma_corpus_wf(lang);
    index::lemma_filter_len_empty(words::corpus(lang), 0);
}

/// Two results of `all` for the same language hold the same words in the
/// same order: the word store never changes within a process run.
pub proof fn lemma_all_idempotent(a: Seq<&str>, b: Seq<&str>, lang: Lang)
    requires
        words::views(a) == words::corpus(lang),
        words::views(b) == words::corpus(lang),
    ensures
        a.len() == b.len(),
        forall|i: int| 0 <= i < a.len() ==> (#[trigger] a[i])@ == b[i]@,
{
    assert(words::views(a).len() == a.len());
    assert(words::views(b).len() == b.len());
    assert forall|i: int| 0 <= i < a.len() implies (#[trigger] a[i])@ == b[i]@ by {
        assert(words::views(a)[i] == a[i]@);
        assert(words::views(b)[i] == b[i]@);
    }
}

} // verus!
