//! The word bank: its fixed contents and the shape of its random draws.

use penguin_typing::rng::{random_in_range, random_index};
use penguin_typing::words::WordsResource;

#[test]
fn fixed_supplies() {
    let words = WordsResource::from_file();
    let shorts: Vec<String> = words.short_words.iter().map(|w| w.iter().collect()).collect();
    assert_eq!(shorts, vec!["short", "should", "be", "not", "long"]);
    let longs: Vec<String> = words.long_words.iter().map(|w| w.iter().collect()).collect();
    assert_eq!(longs, vec!["longword"]);
    assert_eq!(words.special_chars.len(), 30);
    assert!(words.special_chars.contains(&'!'));
    assert!(words.special_chars.contains(&'|'));
}

#[test]
fn short_and_long_draws_come_from_the_lists() {
    let words = WordsResource::from_file();
    for _ in 0..50 {
        let w = words.short_word();
        assert!(words.short_words.contains(&w));
        let l = words.long_word();
        assert!(words.long_words.contains(&l));
    }
}

#[test]
fn special_words_are_three_to_six_special_characters() {
    let words = WordsResource::from_file();
    for _ in 0..50 {
        let w = words.special_word();
        assert!(w.len() >= 3 && w.len() <= 6);
        for c in &w {
            assert!(words.special_chars.contains(c));
        }
    }
}

#[test]
fn random_draws_stay_in_range() {
    for _ in 0..100 {
        assert!(random_index(5) < 5);
        assert_eq!(random_index(1), 0);
        let r = random_in_range(-3, 3);
        assert!((-3..=3).contains(&r));
        assert_eq!(random_in_range(7, 7), 7);
    }
}
