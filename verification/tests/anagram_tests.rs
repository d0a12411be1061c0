use world_scrambler::anagram::is_anagram;
use world_scrambler::api::scramble_word;
use world_scrambler::letters::chars_of;
use world_scrambler::letters::remove_first;
use world_scrambler::letters::str_eq;

fn sorted_chars(s: &str) -> Vec<char> {
    let mut v: Vec<char> = s.chars().collect();
    v.sort();
    v
}

#[test]
fn anagram_basic_pairs() {
    assert!(is_anagram("listen", "silent"));
    assert!(is_anagram("tacos", "coast"));
    assert!(!is_anagram("tacos", "toast"));
    assert!(!is_anagram("abc", "abcd"));
}

#[test]
fn anagram_empty_strings() {
    assert!(is_anagram("", ""));
    assert!(!is_anagram("", "a"));
    assert!(!is_anagram("a", ""));
}

#[test]
fn anagram_counts_multiplicity() {
    // Same character sets, different multiplicities.
    assert!(!is_anagram("aab", "abb"));
    assert!(is_anagram("aabb", "baba"));
    assert!(!is_anagram("aa", "a"));
}

#[test]
fn anagram_is_case_sensitive() {
    assert!(!is_anagram("Listen", "silent"));
    assert!(is_anagram("Listen", "siLent"));
}

#[test]
fn anagram_symmetric_and_reflexive() {
    let pairs = [("listen", "silent"), ("tacos", "toast"), ("", "a"), ("word", "word")];
    for (a, b) in pairs {
        assert_eq!(is_anagram(a, b), is_anagram(b, a));
    }
    for w in ["", "a", "word", "aabb"] {
        assert!(is_anagram(w, w));
    }
}

#[test]
fn scramble_output_is_anagram_of_input() {
    for w in ["a", "ab", "tacos", "unscramble", "aabbcc"] {
        let scrambled = scramble_word(String::from(w));
        assert!(is_anagram(w, scrambled.as_str()));
    }
}

#[test]
fn scramble_keeps_length_and_multiset() {
    for w in ["", "x", "game", "longerword", "zzzyyy"] {
        let scrambled = scramble_word(String::from(w));
        assert_eq!(scrambled.chars().count(), w.chars().count());
        assert_eq!(sorted_chars(&scrambled), sorted_chars(w));
    }
}

#[test]
fn scramble_short_words_unchanged() {
    assert_eq!(scramble_word(String::new()), "");
    assert_eq!(scramble_word(String::from("q")), "q");
}

#[test]
fn chars_of_roundtrip() {
    let v = chars_of("hello");
    assert_eq!(v, vec!['h', 'e', 'l', 'l', 'o']);
    assert!(chars_of("").is_empty());
}

#[test]
fn str_eq_matches_equality() {
    assert!(str_eq("same", "same"));
    assert!(!str_eq("same", "sane"));
    assert!(!str_eq("same", "sames"));
    assert!(str_eq("", ""));
}

#[test]
fn remove_first_takes_one_occurrence() {
    assert_eq!(remove_first("hello", 'l'), Some(String::from("helo")));
    assert_eq!(remove_first("hello", 'h'), Some(String::from("ello")));
    assert_eq!(remove_first("hello", 'o'), Some(String::from("hell")));
    assert_eq!(remove_first("hello", 'z'), None);
    assert_eq!(remove_first("", 'a'), None);
}
