use rustle::words::WordSource;

fn lines(ws: &[&str]) -> Vec<String> {
    ws.iter().map(|s| s.to_string()).collect()
}

fn w(s: &str) -> Vec<char> {
    s.chars().collect()
}

#[test]
fn empty_pool_is_refused() {
    assert!(WordSource::new(lines(&["crane"]), lines(&[]), true).is_none());
}

#[test]
fn malformed_answer_is_refused() {
    assert!(WordSource::new(lines(&["crane"]), lines(&["crane", "abc"]), true).is_none());
    assert!(WordSource::new(lines(&["crane"]), lines(&["Crane"]), true).is_none());
    assert!(WordSource::new(lines(&["crane"]), lines(&["cranes"]), true).is_none());
    assert!(WordSource::new(lines(&[]), lines(&["crane", "speed"]), true).is_some());
}

#[test]
fn dictionary_is_checked_when_asked() {
    let s = WordSource::new(lines(&["crane", "speed"]), lines(&["speed"]), true).unwrap();
    assert!(s.accepts(&w("crane")));
    assert!(s.accepts(&w("speed")));
    assert!(!s.accepts(&w("zzzzz")));
    assert!(!s.accepts(&w("cran")));
}

#[test]
fn dictionary_is_skipped_when_not_asked() {
    let s = WordSource::new(lines(&["crane"]), lines(&["speed"]), false).unwrap();
    assert!(s.accepts(&w("zzzzz")));
}

#[test]
fn answers_by_index_and_at_random() {
    let s = WordSource::new(lines(&[]), lines(&["crane", "speed"]), true).unwrap();
    assert_eq!(s.answer_at(0), w("crane"));
    assert_eq!(s.answer_at(1), w("speed"));
    for _ in 0..20 {
        let t = s.random_answer();
        assert!(t == w("crane") || t == w("speed"));
    }
    let one = WordSource::new(lines(&[]), lines(&["quiet"]), true).unwrap();
    assert_eq!(one.random_answer(), w("quiet"));
}
