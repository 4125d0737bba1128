use rustle::color::Color::{Gray, Green, Unset, Yellow};
use rustle::game::{Cell, Event, Game, Status, MAX_GUESSES};
use rustle::scoring::WORD_LENGTH;
use rustle::words::WordSource;

fn w(s: &str) -> Vec<char> {
    s.chars().collect()
}

fn lines(ws: &[&str]) -> Vec<String> {
    ws.iter().map(|s| s.to_string()).collect()
}

fn source() -> WordSource {
    WordSource::new(
        lines(&["crane", "speed", "erase", "build", "quiet", "abide", "zebra"]),
        lines(&["speed"]),
        true,
    )
    .unwrap()
}

fn type_word(g: &mut Game, word: &str) {
    for ch in word.chars() {
        g.insert_letter(ch);
    }
}

fn blank() -> Cell {
    Cell { letter: None, color: Unset }
}

fn assert_initial(g: &Game) {
    assert_eq!(g.status(), Status::Playing);
    assert_eq!(g.cursor(), (0, 0));
    for r in 0..MAX_GUESSES {
        for c in 0..WORD_LENGTH {
            assert_eq!(g.cell(r, c), blank());
        }
    }
    for ch in 'a'..='z' {
        assert_eq!(g.letter_state(ch), Unset);
    }
    assert_eq!(g.revealed_target(), None);
    assert_eq!(g.attempts_used(), None);
}

#[test]
fn new_game_is_blank() {
    let g = Game::new(w("speed"));
    assert_initial(&g);
}

#[test]
fn insert_and_delete_move_the_cursor() {
    let mut g = Game::new(w("speed"));
    g.insert_letter('c');
    g.insert_letter('r');
    assert_eq!(g.cursor(), (0, 2));
    assert_eq!(g.cell(0, 0), Cell { letter: Some('c'), color: Unset });
    assert_eq!(g.cell(0, 1), Cell { letter: Some('r'), color: Unset });
    g.delete_letter();
    assert_eq!(g.cursor(), (0, 1));
    assert_eq!(g.cell(0, 1), blank());
    g.delete_letter();
    g.delete_letter();
    assert_eq!(g.cursor(), (0, 0));
    assert_initial(&g);
}

#[test]
fn invalid_characters_are_ignored() {
    let mut g = Game::new(w("speed"));
    g.insert_letter('A');
    g.insert_letter('1');
    g.insert_letter(' ');
    g.insert_letter('é');
    assert_eq!(g.cursor(), (0, 0));
    assert_eq!(g.cell(0, 0), blank());
}

#[test]
fn full_row_takes_no_more_letters() {
    let mut g = Game::new(w("speed"));
    type_word(&mut g, "cranes");
    assert_eq!(g.cursor(), (0, 5));
    assert_eq!(g.cell(0, 4), Cell { letter: Some('e'), color: Unset });
    assert_eq!(g.cell(1, 0), blank());
}

#[test]
fn short_row_is_not_submitted() {
    let s = source();
    let mut g = Game::new(w("speed"));
    type_word(&mut g, "cran");
    g.submit(&s);
    assert_eq!(g.cursor(), (0, 4));
    assert_eq!(g.status(), Status::Playing);
    assert_eq!(g.cell(0, 0).color, Unset);
}

#[test]
fn unknown_word_is_not_submitted() {
    let s = source();
    let mut g = Game::new(w("speed"));
    type_word(&mut g, "zzzzz");
    g.submit(&s);
    assert_eq!(g.cursor(), (0, 5));
    assert_eq!(g.status(), Status::Playing);
    assert_eq!(g.cell(0, 0).color, Unset);
    g.delete_letter();
    assert_eq!(g.cursor(), (0, 4));
}

#[test]
fn unchecked_dictionary_takes_any_word() {
    let s = WordSource::new(lines(&[]), lines(&["speed"]), false).unwrap();
    let mut g = Game::new(w("speed"));
    type_word(&mut g, "zzzzz");
    g.submit(&s);
    assert_eq!(g.cursor(), (1, 0));
    assert_eq!(g.cell(0, 0).color, Gray);
}

#[test]
fn missed_guess_moves_to_next_row() {
    let s = source();
    let mut g = Game::new(w("speed"));
    type_word(&mut g, "erase");
    g.submit(&s);
    assert_eq!(g.status(), Status::Playing);
    assert_eq!(g.cursor(), (1, 0));
    let colors: Vec<_> = (0..5).map(|c| g.cell(0, c).color).collect();
    assert_eq!(colors, vec![Yellow, Gray, Gray, Yellow, Yellow]);
    assert_eq!(g.cell(0, 0).letter, Some('e'));
    assert_eq!(g.letter_state('e'), Yellow);
    assert_eq!(g.letter_state('r'), Gray);
    assert_eq!(g.letter_state('s'), Yellow);
    assert_eq!(g.letter_state('p'), Unset);
    assert_eq!(g.revealed_target(), None);
}

#[test]
fn win_locks_the_board() {
    let s = source();
    let mut g = Game::new(w("speed"));
    type_word(&mut g, "erase");
    g.submit(&s);
    type_word(&mut g, "speed");
    g.submit(&s);
    assert_eq!(g.status(), Status::Won);
    assert_eq!(g.attempts_used(), Some(2));
    assert_eq!(g.letter_state('s'), Green);
    assert_eq!(g.letter_state('e'), Green);
    assert_eq!(g.cursor(), (1, 5));
    assert_eq!(g.revealed_target(), None);

    g.insert_letter('a');
    g.delete_letter();
    g.submit(&s);
    assert_eq!(g.status(), Status::Won);
    assert_eq!(g.cursor(), (1, 5));
    assert_eq!(g.cell(1, 4), Cell { letter: Some('d'), color: Green });
    assert_eq!(g.cell(2, 0), blank());
}

#[test]
fn last_missed_guess_loses() {
    let s = source();
    let mut g = Game::new(w("speed"));
    for r in 0..MAX_GUESSES {
        type_word(&mut g, "crane");
        g.submit(&s);
        if r + 1 < MAX_GUESSES {
            assert_eq!(g.status(), Status::Playing);
            assert_eq!(g.cursor(), (r + 1, 0));
        }
    }
    assert_eq!(g.status(), Status::Lost);
    assert_eq!(g.revealed_target(), Some(w("speed")));
    assert_eq!(g.attempts_used(), None);
    assert_eq!(g.cursor(), (MAX_GUESSES - 1, 5));

    g.delete_letter();
    g.insert_letter('a');
    g.submit(&s);
    assert_eq!(g.status(), Status::Lost);
    assert_eq!(g.cursor(), (MAX_GUESSES - 1, 5));
    assert_eq!(g.cell(MAX_GUESSES - 1, 4).letter, Some('e'));
}

#[test]
fn keyboard_never_downgrades_in_play() {
    let s = source();
    let mut h = Game::new(w("speed"));
    type_word(&mut h, "abide");
    h.submit(&s);
    assert_eq!(h.letter_state('e'), Yellow);
    assert_eq!(h.letter_state('d'), Yellow);
    type_word(&mut h, "erase");
    h.submit(&s);
    assert_eq!(h.letter_state('e'), Yellow);
    type_word(&mut h, "quiet");
    h.submit(&s);
    assert_eq!(h.letter_state('e'), Green);
    type_word(&mut h, "erase");
    h.submit(&s);
    assert_eq!(h.letter_state('e'), Green);
}

#[test]
fn reset_restores_the_initial_state() {
    let s = source();
    let mut g = Game::new(w("crane"));
    type_word(&mut g, "erase");
    g.submit(&s);
    type_word(&mut g, "cr");
    g.reset(w("speed"));
    assert_initial(&g);
    type_word(&mut g, "speed");
    g.submit(&s);
    assert_eq!(g.status(), Status::Won);
    assert_eq!(g.attempts_used(), Some(1));
    g.restart(&s);
    assert_initial(&g);
}

#[test]
fn events_drive_the_game() {
    let s = source();
    let mut g = Game::start(&s);
    assert_initial(&g);
    for ch in "speex".chars() {
        g.apply(Event::InsertLetter(ch), &s);
    }
    g.apply(Event::DeleteLetter, &s);
    g.apply(Event::InsertLetter('d'), &s);
    g.apply(Event::Submit, &s);
    assert_eq!(g.status(), Status::Won);
    assert_eq!(g.attempts_used(), Some(1));
    g.apply(Event::Reset, &s);
    assert_initial(&g);
}

#[test]
fn cursor_is_shown_on_the_open_cell() {
    let s = source();
    let mut g = Game::new(w("speed"));
    assert!(g.shows_cursor(0, 0));
    assert!(!g.shows_cursor(0, 1));
    type_word(&mut g, "cr");
    assert!(g.shows_cursor(0, 2));
    assert!(!g.shows_cursor(0, 0));
    type_word(&mut g, "ane");
    g.submit(&s);
    assert!(g.shows_cursor(1, 0));
    type_word(&mut g, "speed");
    g.submit(&s);
    for r in 0..MAX_GUESSES {
        for c in 0..WORD_LENGTH {
            assert!(!g.shows_cursor(r, c));
        }
    }
}
