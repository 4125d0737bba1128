use rustle::color::Color;
use rustle::color::Color::{Gray, Green, Yellow};
use rustle::scoring::score;

fn w(s: &str) -> Vec<char> {
    s.chars().collect()
}

#[test]
fn same_word_scores_all_green() {
    for word in ["crane", "speed", "aaaaa", "zebra"] {
        let s = score(&w(word), &w(word)).unwrap();
        assert_eq!(s.colors, vec![Green; 5]);
        assert!(s.win);
    }
}

#[test]
fn disjoint_words_score_all_gray() {
    let s = score(&w("build"), &w("crane")).unwrap();
    assert_eq!(s.colors, vec![Gray; 5]);
    assert!(!s.win);
}

#[test]
fn duplicate_letters_speed_erase() {
    let s = score(&w("erase"), &w("speed")).unwrap();
    assert_eq!(s.colors, vec![Yellow, Gray, Gray, Yellow, Yellow]);
    assert!(!s.win);
}

#[test]
fn excess_repeat_is_gray() {
    let s = score(&w("speed"), &w("abide")).unwrap();
    assert_eq!(s.colors, vec![Gray, Gray, Yellow, Gray, Yellow]);
    assert!(!s.win);
}

#[test]
fn exact_match_takes_the_only_copy() {
    let s = score(&w("eerie"), &w("crane")).unwrap();
    assert_eq!(s.colors, vec![Gray, Gray, Yellow, Gray, Green]);
    assert!(!s.win);
}

#[test]
fn mixed_feedback() {
    let s = score(&w("react"), &w("crane")).unwrap();
    assert_eq!(s.colors, vec![Yellow, Yellow, Green, Yellow, Gray]);
}

#[test]
fn wrong_length_is_rejected() {
    assert!(score(&w("abcd"), &w("crane")).is_none());
    assert!(score(&w("crane"), &w("cranes")).is_none());
    assert!(score(&w(""), &w("")).is_none());
}

#[test]
fn color_order() {
    assert_eq!(Color::Unset.level(), 0);
    assert_eq!(Gray.level(), 1);
    assert_eq!(Yellow.level(), 2);
    assert_eq!(Green.level(), 3);
    assert!(Green.outranks(&Yellow));
    assert!(!Gray.outranks(&Yellow));
    assert!(!Gray.outranks(&Gray));
    assert_eq!(Gray.stronger(Yellow), Yellow);
    assert_eq!(Green.stronger(Gray), Green);
    assert_eq!(Color::Unset.stronger(Color::Unset), Color::Unset);
}
