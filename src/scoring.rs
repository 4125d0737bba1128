use vstd::prelude::*;

use crate::color::Color;

verus! {

/// The length of a word, and the width of the board.
pub const WORD_LENGTH: usize = 5;

/// How many positions below `n` hold `c` in `s`.
pub open spec fn occurrences(s: Seq<char>, c: char, n: int) -> nat
    decreases n,
{
    if n <= 0 {
        0
    } else {
        occurrences(s, c, n - 1) + if s[n - 1] == c {
            1nat
        } else {
            0nat
        }
    }
}

/// How many positions below `n` hold `c` in both the guess and the target.
pub open spec fn exact_hits(guess: Seq<char>, target: Seq<char>, c: char, n: int) -> nat
    decreases n,
{
    if n <= 0 {
        0
    } else {
        exact_hits(guess, target, c, n - 1) + if guess[n - 1] == c && target[n - 1] == c {
            1nat
        } else {
            0nat
        }
    }
}

/// How many positions below `n` hold `c` in the guess but another letter in the target.
pub open spec fn misplaced(guess: Seq<char>, target: Seq<char>, c: char, n: int) -> nat
    decreases n,
{
    if n <= 0 {
        0
    } else {
        misplaced(guess, target, c, n - 1) + if guess[n - 1] == c && target[n - 1] != c {
            1nat
        } else {
            0nat
        }
    }
}

/// The color of position `i` of `guess` against `target`: green on an exact
/// match; otherwise yellow while the target still has occurrences of that
/// letter not taken by exact matches or by earlier misplaced copies of it,
/// and gray after that.
pub open spec fn color_at(guess: Seq<char>, target: Seq<char>, i: int) -> Color {
    let c = guess[i];
    if c == target[i] {
        Color::Green
    } else if exact_hits(guess, target, c, guess.len() as int) + misplaced(guess, target, c, i)
        < occurrences(target, c, target.len() as int) {
        Color::Yellow
    } else {
        Color::Gray
    }
}

/// The colors of every position of `guess` against `target`.
pub open spec fn score_colors(guess: Seq<char>, target: Seq<char>) -> Seq<Color> {
    Seq::new(guess.len(), |i: int| color_at(guess, target, i))
}

/// Whether every color in `colors` is green.
pub open spec fn all_green(colors: Seq<Color>) -> bool {
    forall|i: int| 0 <= i < colors.len() ==> colors[i] == Color::Green
}

/// The feedback for one guess.
pub struct Score {
    /// One color per position of the guess.
    pub colors: Vec<Color>,
    /// Whether the guess is the target.
    pub win: bool,
}

/// Counts the positions below `n` where `s` holds `c`.
fn count_occurrences(s: &[char], c: char, n: usize) -> (r: usize)
    requires
        n <= s@.len(),
    ensures
        r as nat == occurrences(s@, c, n as int),
        r <= n,
{
    let mut r: usize = 0;
    let mut j: usize = 0;
    while j < n
        invariant
            j <= n <= s@.len(),
            r as nat == occurrences(s@, c, j as int),
            r <= j,
        decreases n - j,
    {
        if s[j] == c {
            r = r + 1;
        }
        j = j + 1;
    }
    r
}

/// Counts the positions below `n` where both words hold `c`.
fn count_exact_hits(guess: &[char], target: &[char], c: char, n: usize) -> (r: usize)
    requires
        n <= guess@.len(),
        n <= target@.len(),
    ensures
        r as nat == exact_hits(guess@, target@, c, n as int),
        r <= n,
{
    let mut r: usize = 0;
    let mut j: usize = 0;
    while j < n
        invariant
            j <= n <= guess@.len(),
            n <= target@.len(),
            r as nat == exact_hits(guess@, target@, c, j as int),
            r <= j,
        decreases n - j,
    {
        if guess[j] == c && target[j] == c {
            r = r + 1;
        }
        j = j + 1;
    }
    r
}

/// Counts the positions below `n` where the guess holds `c` and the target does not.
fn count_misplaced(guess: &[char], target: &[char], c: char, n: usize) -> (r: usize)
    requires
        n <= guess@.len(),
        n <= target@.len(),
    ensures
        r as nat == misplaced(guess@, target@, c, n as int),
        r <= n,
{
    let mut r: usize = 0;
    let mut j: usize = 0;
    while j < n
        invariant
            j <= n <= guess@.len(),
            n <= target@.len(),
            r as nat == misplaced(guess@, target@, c, j as int),
            r <= j,
        decreases n - j,
    {
        if guess[j] == c && target[j] != c {
            r = r + 1;
        }
        j = j + 1;
    }
    r
}

/// Scores `guess` against `target`, both of `WORD_LENGTH` letters.
///
/// Exact matches are green. Each other position is yellow while the target
/// still holds an occurrence of its letter that neither an exact match nor an
/// earlier position of the guess has taken, and gray otherwise. Words of any
/// other length are rejected with `None`.
pub fn score(guess: &[char], target: &[char]) -> (r: Option<Score>)
    ensures
        r is None <==> (guess@.len() != WORD_LENGTH || target@.len() != WORD_LENGTH),
        r matches Some(s) ==> s.colors@ == score_colors(guess@, target@),
        r matches Some(s) ==> s.win == all_green(s.colors@),
        r matches Some(s) ==> s.win == (guess@ == target@),
{
    if guess.len() != WORD_LENGTH || target.len() != WORD_LENGTH {
        return None;
    }
    let n = guess.len();
    let mut colors: Vec<Color> = Vec::new();
    let mut greens: usize = 0;
    let mut i: usize = 0;
    while i < n
        invariant
            n == guess@.len() == target@.len() == WORD_LENGTH,
            i <= n,
            colors@ == score_colors(guess@, target@).take(i as int),
            greens <= i,
            greens == i <==> all_green(colors@),
        decreases n - i,
    {
        let c = guess[i];
        let color = if c == target[i] {
            Color::Green
        } else {
            let hits = count_exact_hits(guess, target, c, n);
            let earlier = count_misplaced(guess, target, c, i);
            let total = count_occurrences(target, c, n);
            if hits + earlier < total {
                Color::Yellow
            } else {
                Color::Gray
            }
        };
        proof {
            assert(score_colors(guess@, target@).take(i as int + 1) =~= colors@.push(color));
        }
        let ghost before = colors@;
        if color == Color::Green {
            greens = greens + 1;
        }
        colors.push(color);
        proof {
            assert(colors@.drop_last() =~= before);
            if color != Color::Green {
                assert(colors@[i as int] != Color::Green);
            } else if all_green(before) {
                assert forall|k: int| 0 <= k < colors@.len() implies colors@[k] == Color::Green by {
                    if k < i {
                        assert(colors@[k] == before[k]);
                    }
                }
            } else {
                let k = choose|k: int| 0 <= k < i && before[k] != Color::Green;
                assert(colors@[k] != Color::Green);
            }
        }
        i = i + 1;
    }
    proof {
        assert(colors@ =~= score_colors(guess@, target@));
        lemma_win_is_all_green(guess@, target@);
    }
    Some(Score { colors, win: greens == n })
}

/// A guess scores all green against a target of its length exactly when it is that target.
pub proof fn lemma_win_is_all_green(guess: Seq<char>, target: Seq<char>)
    requires
        guess.len() == target.len(),
    ensures
        all_green(score_colors(guess, target)) <==> guess == target,
{
    if all_green(score_colors(guess, target)) {
        assert forall|i: int| 0 <= i < guess.len() implies guess[i] == target[i] by {
            assert(score_colors(guess, target)[i] == Color::Green);
        }
        assert(guess =~= target);
    }
}

/// A word scored against itself is green at every position.
pub proof fn lemma_self_score_all_green(w: Seq<char>)
    ensures
        score_colors(w, w) == Seq::new(w.len(), |i: int| Color::Green),
        all_green(score_colors(w, w)),
{
    assert(score_colors(w, w) =~= Seq::new(w.len(), |i: int| Color::Green));
}

/// A letter absent from the first `n` positions of `s` occurs there zero times.
proof fn lemma_absent_letter_no_occurrences(s: Seq<char>, c: char, n: int)
    requires
        n <= s.len(),
        forall|j: int| 0 <= j < n ==> s[j] != c,
    ensures
        occurrences(s, c, n) == 0,
    decreases n,
{
    if n > 0 {
        lemma_absent_letter_no_occurrences(s, c, n - 1);
    }
}

/// A guess that shares no letter with the target is gray at every position.
pub proof fn lemma_disjoint_all_gray(guess: Seq<char>, target: Seq<char>)
    requires
        guess.len() == target.len(),
        forall|i: int, j: int|
            0 <= i < guess.len() && 0 <= j < target.len() ==> guess[i] != target[j],
    ensures
        score_colors(guess, target) == Seq::new(guess.len(), |i: int| Color::Gray),
{
    assert forall|i: int| 0 <= i < guess.len() implies color_at(guess, target, i)
        == Color::Gray by {
        assert(guess[i] != target[i]);
        lemma_absent_letter_no_occurrences(target, guess[i], target.len() as int);
    }
    assert(score_colors(guess, target) =~= Seq::new(guess.len(), |i: int| Color::Gray));
}

} // verus!
