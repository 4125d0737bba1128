use vstd::prelude::*;

use crate::color::Color;
use crate::letters::{
    aggregate, all_unset, is_letter, lemma_merge_never_lowers, merged, LetterStates, ALPHABET,
};
use crate::scoring::{score, score_colors, WORD_LENGTH};
use crate::words::WordSource;

verus! {

/// The number of guesses allowed, and the height of the board.
pub const MAX_GUESSES: usize = 6;

/// One square of the board.
#[derive(Clone, Copy, Debug, PartialEq, Eq)]
pub struct Cell {
    /// The letter typed there, if any.
    pub letter: Option<char>,
    /// Its feedback once the row is scored.
    pub color: Color,
}

/// Where a game stands.
#[derive(Clone, Copy, Debug, PartialEq, Eq, Structural)]
pub enum Status {
    /// Guesses are still being made.
    Playing,
    /// The target was guessed; the board is locked.
    Won,
    /// Every guess was used up; the board is locked.
    Lost,
}

/// What a player can do.
#[derive(Clone, Copy, Debug, PartialEq, Eq)]
pub enum Event {
    /// Type a letter at the cursor.
    InsertLetter(char),
    /// Erase the letter before the cursor.
    DeleteLetter,
    /// Hand in the current row as a guess.
    Submit,
    /// Start over with a new target.
    Reset,
}

/// The state of a game, as plain values.
pub struct GameView {
    /// `MAX_GUESSES` rows of `WORD_LENGTH` cells.
    pub board: Seq<Seq<Cell>>,
    /// The row being filled in.
    pub row: nat,
    /// The cursor's place in that row.
    pub col: nat,
    pub status: Status,
    /// The hidden word.
    pub target: Seq<char>,
    /// The best-known color of each letter, `a` first.
    pub letters: Seq<Color>,
}

/// An empty cell.
pub open spec fn blank() -> Cell {
    Cell { letter: None, color: Color::Unset }
}

/// A board of empty cells.
pub open spec fn blank_board() -> Seq<Seq<Cell>> {
    Seq::new(MAX_GUESSES as nat, |r: int| Seq::new(WORD_LENGTH as nat, |c: int| blank()))
}

/// A new game with target `target`.
pub open spec fn initial(target: Seq<char>) -> GameView {
    GameView {
        board: blank_board(),
        row: 0,
        col: 0,
        status: Status::Playing,
        target,
        letters: all_unset(),
    }
}

/// The letter of a cell, or a space where there is none.
pub open spec fn letter_of(cell: Cell) -> char {
    match cell.letter {
        Some(ch) => ch,
        None => ' ',
    }
}

/// The word typed in a row.
pub open spec fn row_word(cells: Seq<Cell>) -> Seq<char> {
    Seq::new(cells.len(), |c: int| letter_of(cells[c]))
}

/// A row with its letters kept and `colors` written in.
pub open spec fn with_colors(cells: Seq<Cell>, colors: Seq<Color>) -> Seq<Cell> {
    Seq::new(cells.len(), |c: int| Cell { letter: cells[c].letter, color: colors[c] })
}

/// The shape of a game: the board's size, the cursor within it, a target of
/// the board's width and a color for each letter.
pub open spec fn shaped(v: GameView) -> bool {
    &&& v.board.len() == MAX_GUESSES
    &&& forall|r: int| 0 <= r < MAX_GUESSES ==> (#[trigger] v.board[r]).len() == WORD_LENGTH
    &&& v.row < MAX_GUESSES
    &&& v.col <= WORD_LENGTH
    &&& v.target.len() == WORD_LENGTH
    &&& v.letters.len() == ALPHABET
}

/// The state after typing `ch`: while playing, with room in the row and a
/// lowercase letter, it goes at the cursor and the cursor moves on; otherwise
/// nothing changes.
pub open spec fn after_insert(v: GameView, ch: char) -> GameView {
    if v.status == Status::Playing && v.col < WORD_LENGTH && is_letter(ch) {
        GameView {
            board: v.board.update(
                v.row as int,
                v.board[v.row as int].update(
                    v.col as int,
                    Cell { letter: Some(ch), color: Color::Unset },
                ),
            ),
            col: v.col + 1,
            ..v
        }
    } else {
        v
    }
}

/// The state after erasing: while playing with a letter before the cursor,
/// that cell is cleared and the cursor moves back; otherwise nothing changes.
pub open spec fn after_delete(v: GameView) -> GameView {
    if v.status == Status::Playing && v.col > 0 {
        GameView {
            board: v.board.update(
                v.row as int,
                v.board[v.row as int].update(v.col - 1, blank()),
            ),
            col: (v.col - 1) as nat,
            ..v
        }
    } else {
        v
    }
}

/// The state after handing in the current row, where `accepted` tells whether
/// the dictionary takes its word. While playing with a full row and an
/// accepted word, the row gets its colors, the keyboard takes them in, and the
/// game is won on the target, lost on the last row, and moves to the next row
/// otherwise. In every other case nothing changes.
pub open spec fn after_submit(v: GameView, accepted: bool) -> GameView {
    if v.status == Status::Playing && v.col == WORD_LENGTH && accepted {
        let word = row_word(v.board[v.row as int]);
        let colors = score_colors(word, v.target);
        let board = v.board.update(v.row as int, with_colors(v.board[v.row as int], colors));
        let letters = merged(v.letters, word, colors, word.len() as int);
        if word == v.target {
            GameView { board, letters, status: Status::Won, ..v }
        } else if v.row + 1 == MAX_GUESSES {
            GameView { board, letters, status: Status::Lost, ..v }
        } else {
            GameView { board, letters, row: v.row + 1, col: 0, ..v }
        }
    } else {
        v
    }
}

/// The target, shown once the game is lost.
pub open spec fn revealed(v: GameView) -> Option<Seq<char>> {
    if v.status == Status::Lost {
        Some(v.target)
    } else {
        None
    }
}

/// A game: the board, the cursor, the target and the keyboard.
pub struct Game {
    cells: Vec<Cell>,
    row: usize,
    col: usize,
    status: Status,
    target: Vec<char>,
    letters: LetterStates,
}

impl View for Game {
    type V = GameView;

    closed spec fn view(&self) -> GameView {
        GameView {
            board: Seq::new(
                MAX_GUESSES as nat,
                |r: int| Seq::new(WORD_LENGTH as nat, |c: int| self.cells@[r * WORD_LENGTH + c]),
            ),
            row: self.row as nat,
            col: self.col as nat,
            status: self.status,
            target: self.target@,
            letters: self.letters@,
        }
    }
}

impl Game {
    /// The fields agree in size with the board they describe.
    pub closed spec fn sized(&self) -> bool {
        &&& self.cells@.len() == MAX_GUESSES * WORD_LENGTH
        &&& self.row < MAX_GUESSES
        &&& self.col <= WORD_LENGTH
        &&& self.target@.len() == WORD_LENGTH
        &&& self.letters.wf()
        &&& self.letters@.len() == ALPHABET
    }

    /// A well-formed game is sized and keeps the invariants of a game.
    pub open spec fn wf(&self) -> bool {
        self.sized() && consistent(self@)
    }

    /// A new game with target `target`: an empty board, the cursor at the
    /// start of the first row, and every letter unchecked.
    pub fn new(target: Vec<char>) -> (r: Game)
        requires
            target@.len() == WORD_LENGTH,
        ensures
            r.wf(),
            r@ == initial(target@),
    {
        let mut cells: Vec<Cell> = Vec::new();
        let mut i: usize = 0;
        while i < MAX_GUESSES * WORD_LENGTH
            invariant
                i <= MAX_GUESSES * WORD_LENGTH,
                cells@ == Seq::new(i as nat, |j: int| blank()),
            decreases MAX_GUESSES * WORD_LENGTH - i,
        {
            cells.push(Cell { letter: None, color: Color::Unset });
            i = i + 1;
            proof {
                assert(cells@ =~= Seq::new(i as nat, |j: int| blank()));
            }
        }
        let letters = LetterStates::new();
        let r = Game { cells, row: 0, col: 0, status: Status::Playing, target, letters };
        proof {
            lemma_initial_consistent(target@);
            assert(r@.board =~~= blank_board());
        }
        r
    }

    /// A new game with a target drawn at random from `source`'s pool.
    pub fn start(source: &WordSource) -> (r: Game)
        requires
            source.wf(),
        ensures
            r.wf(),
            exists|i: int|
                0 <= i < source.answers().len() && r@ == initial(#[trigger] source.answers()[i]),
    {
        Game::new(source.random_answer())
    }
}

impl Game {
    /// The cell at row `r`, column `c`.
    pub fn cell(&self, r: usize, c: usize) -> (cell: Cell)
        requires
            self.sized(),
            r < MAX_GUESSES,
            c < WORD_LENGTH,
        ensures
            cell == self@.board[r as int][c as int],
    {
        self.cells[r * WORD_LENGTH + c]
    }

    /// Writes `cell` at row `r`, column `c`.
    fn set_cell(&mut self, r: usize, c: usize, cell: Cell)
        requires
            old(self).sized(),
            r < MAX_GUESSES,
            c < WORD_LENGTH,
        ensures
            final(self).sized(),
            final(self)@ == (GameView {
                board: old(self)@.board.update(
                    r as int,
                    old(self)@.board[r as int].update(c as int, cell),
                ),
                ..old(self)@
            }),
    {
        let ghost before = self@;
        self.cells.set(r * WORD_LENGTH + c, cell);
        proof {
            assert(self@.board =~~= before.board.update(
                r as int,
                before.board[r as int].update(c as int, cell),
            ));
        }
    }

    /// Types `ch` at the cursor and moves the cursor on. Nothing changes
    /// unless the game is being played, the row has room and `ch` is a
    /// lowercase letter.
    pub fn insert_letter(&mut self, ch: char)
        requires
            old(self).wf(),
        ensures
            final(self).wf(),
            final(self)@ == after_insert(old(self)@, ch),
    {
        proof {
            lemma_steps_keep_consistent(self@, ch, false);
        }
        if self.status == Status::Playing && self.col < WORD_LENGTH && 'a' <= ch && ch <= 'z' {
            self.set_cell(self.row, self.col, Cell { letter: Some(ch), color: Color::Unset });
            self.col = self.col + 1;
        }
    }

    /// Erases the letter before the cursor and moves the cursor back. Nothing
    /// changes unless the game is being played and the cursor is past the
    /// start of the row.
    pub fn delete_letter(&mut self)
        requires
            old(self).wf(),
        ensures
            final(self).wf(),
            final(self)@ == after_delete(old(self)@),
    {
        proof {
            lemma_steps_keep_consistent(self@, 'a', false);
        }
        if self.status == Status::Playing && self.col > 0 {
            self.set_cell(self.row, self.col - 1, Cell { letter: None, color: Color::Unset });
            self.col = self.col - 1;
        }
    }

    /// The word typed in row `r`.
    fn row_letters(&self, r: usize) -> (word: Vec<char>)
        requires
            self.sized(),
            r < MAX_GUESSES,
        ensures
            word@ == row_word(self@.board[r as int]),
    {
        let mut word: Vec<char> = Vec::new();
        let mut c: usize = 0;
        while c < WORD_LENGTH
            invariant
                self.sized(),
                r < MAX_GUESSES,
                c <= WORD_LENGTH,
                word@ == row_word(self@.board[r as int]).take(c as int),
            decreases WORD_LENGTH - c,
        {
            let letter = match self.cell(r, c).letter {
                Some(ch) => ch,
                None => ' ',
            };
            word.push(letter);
            c = c + 1;
            proof {
                assert(word@ =~= row_word(self@.board[r as int]).take(c as int));
            }
        }
        proof {
            assert(word@ =~= row_word(self@.board[r as int]));
        }
        word
    }

    /// Writes `colors` into row `r`, keeping its letters.
    fn paint_row(&mut self, r: usize, colors: &[Color])
        requires
            old(self).sized(),
            r < MAX_GUESSES,
            colors@.len() == WORD_LENGTH,
        ensures
            final(self).sized(),
            final(self)@ == (GameView {
                board: old(self)@.board.update(
                    r as int,
                    with_colors(old(self)@.board[r as int], colors@),
                ),
                ..old(self)@
            }),
    {
        let ghost before = self@;
        let mut c: usize = 0;
        proof {
            assert(before.board[r as int] =~= Seq::new(
                WORD_LENGTH as nat,
                |k: int|
                    if k < 0 {
                        Cell { letter: before.board[r as int][k].letter, color: colors@[k] }
                    } else {
                        before.board[r as int][k]
                    },
            ));
            assert(before.board =~= before.board.update(r as int, before.board[r as int]));
        }
        while c < WORD_LENGTH
            invariant
                self.sized(),
                r < MAX_GUESSES,
                c <= WORD_LENGTH,
                colors@.len() == WORD_LENGTH,
                before.board.len() == MAX_GUESSES,
                self@ == (GameView {
                    board: before.board.update(
                        r as int,
                        Seq::new(
                            WORD_LENGTH as nat,
                            |k: int|
                                if k < c {
                                    Cell {
                                        letter: before.board[r as int][k].letter,
                                        color: colors@[k],
                                    }
                                } else {
                                    before.board[r as int][k]
                                },
                        ),
                    ),
                    ..before
                }),
            decreases WORD_LENGTH - c,
        {
            let old_cell = self.cell(r, c);
            self.set_cell(r, c, Cell { letter: old_cell.letter, color: colors[c] });
            c = c + 1;
            proof {
                assert(self@.board =~~= before.board.update(
                    r as int,
                    Seq::new(
                        WORD_LENGTH as nat,
                        |k: int|
                            if k < c {
                                Cell { letter: before.board[r as int][k].letter, color: colors@[k] }
                            } else {
                                before.board[r as int][k]
                            },
                    ),
                ));
            }
        }
        proof {
            assert(self@.board =~~= before.board.update(
                r as int,
                with_colors(before.board[r as int], colors@),
            ));
        }
    }
}

impl Game {
    /// Hands in the current row as a guess. Nothing changes unless the game is
    /// being played, the row is full and `source` accepts its word. Otherwise
    /// the row is scored against the target, the keyboard takes in the
    /// colors, and the game is won on the target, lost on the last row, or
    /// moves to the start of the next row.
    pub fn submit(&mut self, source: &WordSource)
        requires
            old(self).wf(),
        ensures
            final(self).wf(),
            final(self)@ == after_submit(
                old(self)@,
                source.accepts_spec(row_word(old(self)@.board[old(self)@.row as int])),
            ),
    {
        if self.status != Status::Playing || self.col != WORD_LENGTH {
            return;
        }
        let word = self.row_letters(self.row);
        if !source.accepts(word.as_slice()) {
            return;
        }
        let ghost before = self@;
        proof {
            assert(word@.len() == WORD_LENGTH);
            lemma_steps_keep_consistent(before, 'a', true);
        }
        match score(word.as_slice(), self.target.as_slice()) {
            Some(result) => {
                let row = self.row;
                self.paint_row(row, result.colors.as_slice());
                self.letters.merge(word.as_slice(), result.colors.as_slice());
                if result.win {
                    self.status = Status::Won;
                } else if self.row + 1 == MAX_GUESSES {
                    self.status = Status::Lost;
                } else {
                    self.row = self.row + 1;
                    self.col = 0;
                }
                proof {
                    assert(self@.board == after_submit(before, true).board);
                }
            },
            // the row and the target both hold WORD_LENGTH letters
            None => {},
        }
    }

    /// Starts over with target `target`: an empty board, the cursor at the
    /// start of the first row, every letter unchecked, and the game playing.
    pub fn reset(&mut self, target: Vec<char>)
        requires
            old(self).wf(),
            target@.len() == WORD_LENGTH,
        ensures
            final(self).wf(),
            final(self)@ == initial(target@),
    {
        *self = Game::new(target);
    }

    /// Starts over with a target drawn at random from `source`'s pool.
    pub fn restart(&mut self, source: &WordSource)
        requires
            old(self).wf(),
            source.wf(),
        ensures
            final(self).wf(),
            exists|i: int|
                0 <= i < source.answers().len() && final(self)@ == initial(
                    #[trigger] source.answers()[i],
                ),
    {
        let target = source.random_answer();
        self.reset(target);
    }

    /// Carries out one event; `source` checks guesses and supplies targets.
    pub fn apply(&mut self, event: Event, source: &WordSource)
        requires
            old(self).wf(),
            source.wf(),
        ensures
            final(self).wf(),
            event matches Event::InsertLetter(ch) ==> final(self)@ == after_insert(old(self)@, ch),
            event is DeleteLetter ==> final(self)@ == after_delete(old(self)@),
            event is Submit ==> final(self)@ == after_submit(
                old(self)@,
                source.accepts_spec(row_word(old(self)@.board[old(self)@.row as int])),
            ),
            event is Reset ==> exists|i: int|
                0 <= i < source.answers().len() && final(self)@ == initial(
                    #[trigger] source.answers()[i],
                ),
    {
        match event {
            Event::InsertLetter(ch) => self.insert_letter(ch),
            Event::DeleteLetter => self.delete_letter(),
            Event::Submit => self.submit(source),
            Event::Reset => self.restart(source),
        }
    }

    /// Where the game stands.
    pub fn status(&self) -> (r: Status)
        ensures
            r == self@.status,
    {
        self.status
    }

    /// The cursor, as row and column.
    pub fn cursor(&self) -> (r: (usize, usize))
        ensures
            r.0 as nat == self@.row,
            r.1 as nat == self@.col,
    {
        (self.row, self.col)
    }

    /// The best-known color of letter `c`.
    pub fn letter_state(&self, c: char) -> (r: Color)
        requires
            self.wf(),
        ensures
            r == (if is_letter(c) {
                self@.letters[c as int - 'a' as int]
            } else {
                Color::Unset
            }),
    {
        self.letters.get(c)
    }

    /// Whether the cursor is drawn on the cell at row `r`, column `c`: it
    /// stands at the cursor and is not yet scored.
    pub fn shows_cursor(&self, r: usize, c: usize) -> (b: bool)
        requires
            self.wf(),
            r < MAX_GUESSES,
            c < WORD_LENGTH,
        ensures
            b == (r == self@.row && c == self@.col && self@.board[r as int][c as int].color
                == Color::Unset),
    {
        r == self.row && c == self.col && self.cell(r, c).color == Color::Unset
    }

    /// The target, once the game is lost.
    pub fn revealed_target(&self) -> (r: Option<Vec<char>>)
        ensures
            r matches Some(t) ==> revealed(self@) == Some(t@),
            r is None ==> revealed(self@) is None,
    {
        if self.status == Status::Lost {
            let mut t: Vec<char> = Vec::new();
            let mut i: usize = 0;
            while i < self.target.len()
                invariant
                    i <= self.target@.len(),
                    t@ == self.target@.take(i as int),
                decreases self.target@.len() - i,
            {
                t.push(self.target[i]);
                i = i + 1;
                proof {
                    assert(t@ =~= self.target@.take(i as int));
                }
            }
            proof {
                assert(t@ =~= self.target@);
            }
            Some(t)
        } else {
            None
        }
    }

    /// How many guesses the win took, once the game is won.
    pub fn attempts_used(&self) -> (r: Option<usize>)
        requires
            self.wf(),
        ensures
            r matches Some(n) ==> self@.status == Status::Won && n == self@.row + 1,
            r is None <==> self@.status != Status::Won,
    {
        if self.status == Status::Won {
            Some(self.row + 1)
        } else {
            None
        }
    }
}

/// How many rows have been scored: those above the cursor's row, and the
/// cursor's row too once the game is over.
pub open spec fn scored_rows(v: GameView) -> nat {
    if v.status == Status::Playing {
        v.row
    } else {
        v.row + 1
    }
}

/// The scored rows, each as its word and the colors it got.
pub open spec fn history(v: GameView) -> Seq<(Seq<char>, Seq<Color>)> {
    Seq::new(
        scored_rows(v),
        |r: int| (row_word(v.board[r]), score_colors(row_word(v.board[r]), v.target)),
    )
}

/// Whether a cell holds a lowercase letter.
pub open spec fn has_letter(cell: Cell) -> bool {
    match cell.letter {
        Some(ch) => is_letter(ch),
        None => false,
    }
}

/// A row typed up to column `n`: lowercase letters with no color before it, empty cells after it.
pub open spec fn typed_row(cells: Seq<Cell>, n: nat) -> bool {
    forall|c: int|
        0 <= c < WORD_LENGTH ==> if c < n {
            (#[trigger] cells[c]).color == Color::Unset && has_letter(cells[c])
        } else {
            cells[c] == blank()
        }
}

/// The invariants of a game: each scored row is full and carries the colors
/// of its word against the target; none before the last scored one is the
/// target; while playing, the current row is typed up to the cursor; the rows
/// below are empty; a won game ends on the target and a lost one on the last
/// row, each with a full row; and the keyboard is what the scored rows give.
pub open spec fn consistent(v: GameView) -> bool {
    &&& shaped(v)
    &&& forall|r: int|
        0 <= r < scored_rows(v) ==> {
            &&& forall|c: int| 0 <= c < WORD_LENGTH ==> has_letter(#[trigger] v.board[r][c])
            &&& #[trigger] v.board[r] == with_colors(v.board[r], score_colors(row_word(v.board[r]), v.target))
        }
    &&& forall|r: int| 0 <= r < v.row ==> row_word(#[trigger] v.board[r]) != v.target
    &&& forall|r: int| v.row < r < MAX_GUESSES ==> #[trigger] v.board[r] == Seq::new(WORD_LENGTH as nat, |c: int| blank())
    &&& v.status == Status::Playing ==> typed_row(v.board[v.row as int], v.col)
    &&& v.status == Status::Won ==> v.col == WORD_LENGTH && row_word(v.board[v.row as int]) == v.target
    &&& v.status == Status::Lost ==> v.col == WORD_LENGTH && v.row + 1 == MAX_GUESSES
        && row_word(v.board[v.row as int]) != v.target
    &&& v.letters == aggregate(history(v))
}

/// A new game is consistent.
pub proof fn lemma_initial_consistent(target: Seq<char>)
    requires
        target.len() == WORD_LENGTH,
    ensures
        consistent(initial(target)),
{
    let v = initial(target);
    assert(history(v) =~= Seq::empty());
}

/// Typing, erasing and handing in a row keep a game consistent.
pub proof fn lemma_steps_keep_consistent(v: GameView, ch: char, accepted: bool)
    requires
        consistent(v),
    ensures
        consistent(after_insert(v, ch)),
        consistent(after_delete(v)),
        consistent(after_submit(v, accepted)),
{
    let w = after_insert(v, ch);
    if w != v {
        assert(history(w) =~= history(v));
    }
    let d = after_delete(v);
    if d != v {
        assert(history(d) =~= history(v));
    }
    let s = after_submit(v, accepted);
    if s != v {
        let word = row_word(v.board[v.row as int]);
        let colors = score_colors(word, v.target);
        let scored = with_colors(v.board[v.row as int], colors);
        assert(row_word(scored) =~= word);
        assert(scored =~= with_colors(scored, colors));
        assert(history(s).drop_last() =~= history(v));
        assert(history(s).last() == (word, colors));
    }
}

/// No step of a game lowers the color of any letter on the keyboard.
pub proof fn lemma_steps_never_lower_keyboard(v: GameView, ch: char, accepted: bool, k: int)
    requires
        shaped(v),
        0 <= k < ALPHABET,
    ensures
        after_insert(v, ch).letters[k].rank() >= v.letters[k].rank(),
        after_delete(v).letters[k].rank() >= v.letters[k].rank(),
        after_submit(v, accepted).letters[k].rank() >= v.letters[k].rank(),
{
    let word = row_word(v.board[v.row as int]);
    lemma_merge_never_lowers(v.letters, word, score_colors(word, v.target), word.len() as int, k);
}

/// While the game is won or lost, typing, erasing and handing in a row leave
/// it, and its board, unchanged.
pub proof fn lemma_locked_game_unchanged(v: GameView, ch: char, accepted: bool)
    requires
        v.status != Status::Playing,
    ensures
        after_insert(v, ch) == v,
        after_delete(v) == v,
        after_submit(v, accepted) == v,
{
}

/// An accepted full row that misses the target loses the game on the last
/// row, with the target shown, and on any earlier row moves the cursor to the
/// start of the next row, still playing.
pub proof fn lemma_missed_guess(v: GameView)
    requires
        shaped(v),
        v.status == Status::Playing,
        v.col == WORD_LENGTH,
        row_word(v.board[v.row as int]) != v.target,
    ensures
        v.row + 1 == MAX_GUESSES ==> after_submit(v, true).status == Status::Lost && revealed(
            after_submit(v, true),
        ) == Some(v.target),
        v.row + 1 < MAX_GUESSES ==> after_submit(v, true).status == Status::Playing
            && after_submit(v, true).row == v.row + 1 && after_submit(v, true).col == 0,
{
}

/// A reset gives the state of a new game whatever came before: an empty
/// board, the cursor at the first cell, every letter unchecked, the game
/// playing; two such states differ in their target alone.
pub proof fn lemma_reset_state(t1: Seq<char>, t2: Seq<char>)
    ensures
        initial(t1).board == blank_board(),
        initial(t1).row == 0 && initial(t1).col == 0,
        initial(t1).status == Status::Playing,
        initial(t1).letters == all_unset(),
        initial(t1).target == t1,
        initial(t1) == (GameView { target: t1, ..initial(t2) }),
{
}

} // verus!
