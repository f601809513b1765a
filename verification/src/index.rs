//! The index layer: derived views of a word list, keyed by exact word
//! length or by first character.
//!
//! `filter_len` and `filter_first` are the models of the two buckets: the
//! sub-sequence of words with a given key, in the order of the source
//! list. `words_of_length` and `words_starting_with` build those buckets
//! executably, in one pass, and are proved to match the models exactly.

use vstd::prelude::*;

use crate::words::views;
use vstd::string::StrSliceExecFns;

verus! {

/// Whether word `w` starts with character `c`.
pub open spec fn starts_with_char(w: Seq<char>, c: char) -> bool {
    w.len() > 0 && w[0] == c
}

/// The sub-sequence of `ws` whose words have exactly `len` characters,
/// in the order of `ws`.
pub open spec fn filter_len(ws: Seq<Seq<char>>, len: nat) -> Seq<Seq<char>>
    decreases ws.len(),
{
    if ws.len() == 0 {
        Seq::empty()
    } else if ws.last().len() == len {
        filter_len(ws.drop_last(), len).push(ws.last())
    } else {
        filter_len(ws.drop_last(), len)
    }
}

/// The sub-sequence of `ws` whose words start with `c`, in the order of
/// `ws`.
pub open spec fn filter_first(ws: Seq<Seq<char>>, c: char) -> Seq<Seq<char>>
    decreases ws.len(),
{
    if ws.len() == 0 {
        Seq::empty()
    } else if starts_with_char(ws.last(), c) {
        filter_first(ws.drop_last(), c).push(ws.last())
    } else {
        filter_first(ws.drop_last(), c)
    }
}

/// Every word in a length bucket has that length and comes from the
/// source list.
pub proof fn lemma_filter_len_sound(ws: Seq<Seq<char>>, len: nat)
    ensures
        forall|j: int| 0 <= j < filter_len(ws, len).len()
            ==> (#[trigger] filter_len(ws, len)[j]).len() == len && ws.contains(filter_len(ws, len)[j]),
    decreases ws.len(),
{
    if ws.len() > 0 {
        lemma_filter_len_sound(ws.drop_last(), len);
        let bucket = filter_len(ws, len);
        let rest = filter_len(ws.drop_last(), len);
        assert forall|j: int| 0 <= j < bucket.len()
            implies (#[trigger] bucket[j]).len() == len && ws.contains(bucket[j]) by {
            if ws.last().len() == len && j == bucket.len() - 1 {
                assert(bucket[j] == ws.last());
                assert(ws[ws.len() - 1] == ws.last());
            } else {
                assert(bucket[j] == rest[j]);
                let k = choose|k: int|
                    0 <= k < ws.drop_last().len() && ws.drop_last()[k] == rest[j];
                assert(ws[k] == rest[j]);
            }
        }
    }
}

/// Every word in a first-character bucket starts with that character and
/// comes from the source list.
pub proof fn lemma_filter_first_sound(ws: Seq<Seq<char>>, c: char)
    ensures
        forall|j: int| 0 <= j < filter_first(ws, c).len()
            ==> starts_with_char(#[trigger] filter_first(ws, c)[j], c)
                && ws.contains(filter_first(ws, c)[j]),
    decreases ws.len(),
{
    if ws.len() > 0 {
        lemma_filter_first_sound(ws.drop_last(), c);
        let bucket = filter_first(ws, c);
        let rest = filter_first(ws.drop_last(), c);
        assert forall|j: int| 0 <= j < bucket.len()
            implies starts_with_char(#[trigger] bucket[j], c) && ws.contains(bucket[j]) by {
            if starts_with_char(ws.last(), c) && j == bucket.len() - 1 {
                assert(bucket[j] == ws.last());
                assert(ws[ws.len() - 1] == ws.last());
            } else {
                assert(bucket[j] == rest[j]);
                let k = choose|k: int|
                    0 <= k < ws.drop_last().len() && ws.drop_last()[k] == rest[j];
                assert(ws[k] == rest[j]);
            }
        }
    }
}

/// Every word of a list appears in the length bucket keyed by its own
/// length: the length index is complete.
pub proof fn lemma_filter_len_complete(ws: Seq<Seq<char>>, i: int)
    requires
        0 <= i < ws.len(),
    ensures
        filter_len(ws, ws[i].len()).contains(ws[i]),
    decreases ws.len(),
{
    if i == ws.len() - 1 {
        let bucket = filter_len(ws, ws[i].len());
        assert(ws.last() == ws[i]);
        assert(bucket.last() == ws[i]);
        assert(bucket.contains(ws[i])) by {
            assert(bucket[bucket.len() - 1] == ws[i]);
        }
    } else {
        lemma_filter_len_complete(ws.drop_last(), i);
        assert(ws.drop_last()[i] == ws[i]);
        let rest = filter_len(ws.drop_last(), ws[i].len());
        let j = choose|j: int| 0 <= j < rest.len() && rest[j] == ws[i];
        if ws.last().len() == ws[i].len() {
            assert(filter_len(ws, ws[i].len())[j] == ws[i]);
        } else {
            assert(filter_len(ws, ws[i].len())[j] == ws[i]);
        }
    }
}

/// Every non-empty word of a list appears in the bucket keyed by its own
/// first character: the first-character index is complete.
pub proof fn lemma_filter_first_complete(ws: Seq<Seq<char>>, i: int)
    requires
        0 <= i < ws.len(),
        ws[i].len() > 0,
    ensures
        filter_first(ws, ws[i][0]).contains(ws[i]),
    decreases ws.len(),
{
    if i == ws.len() - 1 {
        let bucket = filter_first(ws, ws[i][0]);
        assert(ws.last() == ws[i]);
        assert(bucket.contains(ws[i])) by {
            assert(bucket[bucket.len() - 1] == ws[i]);
        }
    } else {
        lemma_filter_first_complete(ws.drop_last(), i);
        assert(ws.drop_last()[i] == ws[i]);
        let rest = filter_first(ws.drop_last(), ws[i][0]);
        let j = choose|j: int| 0 <= j < rest.len() && rest[j] == ws[i];
        assert(filter_first(ws, ws[i][0])[j] == ws[i]);
    }
}

/// A length bucket is empty exactly when no word of the list has that
/// length.
pub proof fn lemma_filter_len_empty(ws: Seq<Seq<char>>, len: nat)
    ensures
        filter_len(ws, len).len() == 0 <==> (forall|i: int|
            0 <= i < ws.len() ==> (#[trigger] ws[i]).len() != len),
{
    if filter_len(ws, len).len() > 0 {
        lemma_filter_len_sound(ws, len);
        let w = filter_len(ws, len)[0];
        let i = choose|i: int| 0 <= i < ws.len() && ws[i] == w;
        assert(ws[i].len() == len);
    }
    if exists|i: int| 0 <= i < ws.len() && (#[trigger] ws[i]).len() == len {
        let i = choose|i: int| 0 <= i < ws.len() && (#[trigger] ws[i]).len() == len;
        lemma_filter_len_complete(ws, i);
    }
}

/// A first-character bucket is empty exactly when no word of the list
/// starts with that character.
pub proof fn lemma_filter_first_empty(ws: Seq<Seq<char>>, c: char)
    ensures
        filter_first(ws, c).len() == 0 <==> (forall|i: int|
            0 <= i < ws.len() ==> !starts_with_char(#[trigger] ws[i], c)),
{
    if filter_first(ws, c).len() > 0 {
        lemma_filter_first_sound(ws, c);
        let w = filter_first(ws, c)[0];
        let i = choose|i: int| 0 <= i < ws.len() && ws[i] == w;
        assert(starts_with_char(ws[i], c));
    }
    if exists|i: int| 0 <= i < ws.len() && starts_with_char(#[trigger] ws[i], c) {
        let i = choose|i: int| 0 <= i < ws.len() && starts_with_char(#[trigger] ws[i], c);
        lemma_filter_first_complete(ws, i);
    }
}

/// The words of `words` with exactly `len` characters, in order: the
/// length bucket, built in one pass.
pub fn words_of_length(words: &Vec<&'static str>, len: usize) -> (r: Vec<&'static str>)
    ensures
        views(r@) == filter_len(views(words@), len as nat),
{
    let ghost s = views(words@);
    let mut out: Vec<&'static str> = Vec::new();
    let mut i: usize = 0;
    while i < words.len()
        invariant
            i <= words.len(),
            s == views(words@),
            views(out@) == filter_len(s.take(i as int), len as nat),
        decreases words.len() - i,
    {
        let w = words[i];
        let ghost prev = views(out@);
        if w.unicode_len() == len {
            out.push(w);
            proof {
                assert(views(out@) =~= prev.push(w@));
            }
        }
        proof {
            assert(s.take(i + 1).drop_last() =~= s.take(i as int));
            assert(s.take(i + 1).last() == s[i as int]);
            assert(s[i as int] == w@);
        }
        i += 1;
    }
    proof {
        assert(s.take(words@.len() as int) =~= s);
    }
    out
}

/// The words of `words` that start with character `c`, in order: the
/// first-character bucket, built in one pass.
pub fn words_starting_with(words: &Vec<&'static str>, c: char) -> (r: Vec<&'static str>)
    requires
        forall|j: int| 0 <= j < words@.len() ==> (#[trigger] words@[j])@.len() >= 1,
    ensures
        views(r@) == filter_first(views(words@), c),
{
    let ghost s = views(words@);
    let mut out: Vec<&'static str> = Vec::new();
    let mut i: usize = 0;
    while i < words.len()
        invariant
            i <= words.len(),
            s == views(words@),
            forall|j: int| 0 <= j < words@.len() ==> (#[trigger] words@[j])@.len() >= 1,
            views(out@) == filter_first(s.take(i as int), c),
        decreases words.len() - i,
    {
        let w = words[i];
        let ghost prev = views(out@);
        proof {
            assert(w@.len() >= 1);
        }
        if w.get_char(0) == c {
            out.push(w);
            proof {
                assert(views(out@) =~= prev.push(w@));
            }
        }
        proof {
            assert(s.take(i + 1).drop_last() =~= s.take(i as int));
            assert(s.take(i + 1).last() == s[i as int]);
            assert(s[i as int] == w@);
        }
        i += 1;
    }
    proof {
        assert(s.take(words@.len() as int) =~= s);
    }
    out
}

} // verus!
