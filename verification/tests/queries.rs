use random_word::{all, all_len, all_starts_with, gen, gen_len, gen_starts_with, Lang};

fn langs() -> Vec<Lang> {
    vec![Lang::De, Lang::En, Lang::Es, Lang::Fr, Lang::Zh]
}

#[test]
fn all_is_nonempty_and_words_are_nonempty() {
    for lang in langs() {
        let words = all(lang);
        assert!(!words.is_empty());
        for w in words {
            assert!(w.chars().count() >= 1);
        }
    }
}

#[test]
fn every_word_is_in_its_length_bucket() {
    for lang in langs() {
        for w in all(lang) {
            let len = w.chars().count();
            let bucket = all_len(len, lang).expect("bucket for an existing length");
            assert!(bucket.contains(&w));
        }
    }
}

#[test]
fn every_word_is_in_its_first_char_bucket() {
    for lang in langs() {
        for w in all(lang) {
            let first = w.chars().next().expect("words are non-empty");
            let bucket = all_starts_with(first, lang).expect("bucket for an existing first char");
            assert!(bucket.contains(&w));
        }
    }
}

#[test]
fn absent_length_yields_none() {
    for lang in langs() {
        assert!(all_len(100, lang).is_none());
        assert!(gen_len(100, lang).is_none());
    }
}

#[test]
fn gen_returns_a_member_of_all() {
    for lang in langs() {
        let words = all(lang);
        for _ in 0..20 {
            let w = gen(lang);
            assert!(words.contains(&w));
        }
    }
}

#[test]
fn gen_len_only_returns_words_of_that_length() {
    for _ in 0..20 {
        let w = gen_len(5, Lang::En).expect("five-character words exist");
        assert_eq!(w.chars().count(), 5);
        let bucket = all_len(5, Lang::En).expect("five-character words exist");
        assert!(bucket.contains(&w));
    }
}

#[test]
fn gen_starts_with_only_returns_matching_words() {
    for _ in 0..20 {
        let w = gen_starts_with('a', Lang::En).expect("words starting with 'a' exist");
        assert_eq!(w.chars().next(), Some('a'));
        let bucket = all_starts_with('a', Lang::En).expect("words starting with 'a' exist");
        assert!(bucket.contains(&w));
    }
}

#[test]
fn english_apple_scenario() {
    let by_len = all_len(5, Lang::En).expect("five-character English words exist");
    assert!(by_len.contains(&"apple"));
    let by_first = all_starts_with('a', Lang::En).expect("English words starting with 'a' exist");
    assert!(by_first.contains(&"apple"));
    let drawn = gen_len(5, Lang::En);
    assert!(drawn.is_some());
    assert_eq!(drawn.unwrap().chars().count(), 5);
}

#[test]
fn length_zero_yields_none_for_every_language() {
    for lang in langs() {
        assert!(all_len(0, lang).is_none());
        assert!(gen_len(0, lang).is_none());
    }
}

#[test]
fn all_is_idempotent() {
    for lang in langs() {
        let first = all(lang);
        let second = all(lang);
        assert_eq!(first, second);
    }
}

#[test]
fn length_bucket_keeps_corpus_order() {
    let bucket = all_len(5, Lang::En).expect("five-character English words exist");
    assert_eq!(bucket, vec!["apple", "eagle", "grape", "house", "lemon"]);
}

#[test]
fn first_char_bucket_keeps_corpus_order() {
    let bucket = all_starts_with('h', Lang::De).expect("German words starting with 'h' exist");
    assert_eq!(bucket, vec!["haus", "hund"]);
}

#[test]
fn absent_first_char_yields_none() {
    assert!(all_starts_with('!', Lang::En).is_none());
    assert!(gen_starts_with('!', Lang::En).is_none());
    assert!(all_starts_with('q', Lang::Fr).is_none());
    assert!(gen_starts_with('q', Lang::Fr).is_none());
}

#[test]
fn full_corpus_matches_all() {
    let words = all(Lang::En);
    assert_eq!(words.len(), 12);
    assert_eq!(words[0], "apple");
    assert_eq!(words[11], "lemon");
}

#[test]
fn chinese_lengths_count_characters_not_bytes() {
    let one = all_len(1, Lang::Zh).expect("single-character Chinese words exist");
    assert_eq!(one, vec!["山", "水", "天", "人", "木", "火"]);
    let two = all_len(2, Lang::Zh).expect("two-character Chinese words exist");
    assert!(two.contains(&"苹果"));
    assert!(all_len(3, Lang::Zh).is_none());
}

#[test]
fn chinese_first_char_bucket_keeps_corpus_order() {
    let bucket = all_starts_with('天', Lang::Zh).expect("words starting with the character exist");
    assert_eq!(bucket, vec!["天", "天空"]);
}
