use rand::Rng;
use vstd::prelude::*;
use vstd::string::*;

use crate::letters::is_letter;
use crate::scoring::WORD_LENGTH;

verus! {

/// Whether `w` is a playable word: `WORD_LENGTH` lowercase letters.
pub open spec fn is_word(w: Seq<char>) -> bool {
    w.len() == WORD_LENGTH && forall|i: int| 0 <= i < w.len() ==> is_letter(#[trigger] w[i])
}

/// Relies on rand's `rng().random_range(0..n)`: a value drawn from `0..n`,
/// which must not be empty.
#[verifier::external_body]
fn random_below(n: usize) -> (r: usize)
    requires
        n > 0,
    ensures
        r < n,
{
    rand::rng().random_range(0..n)
}

/// The characters of `s`, in order.
fn chars_of(s: &str) -> (r: Vec<char>)
    ensures
        r@ == s@,
{
    let n = s.unicode_len();
    let mut r: Vec<char> = Vec::new();
    let mut i: usize = 0;
    while i < n
        invariant
            n == s@.len(),
            i <= n,
            r@ == s@.take(i as int),
        decreases n - i,
    {
        r.push(s.get_char(i));
        i = i + 1;
        proof {
            assert(r@ =~= s@.take(i as int));
        }
    }
    proof {
        assert(r@ =~= s@);
    }
    r
}

/// The characters of each line.
fn words_of(lines: &Vec<String>) -> (r: Vec<Vec<char>>)
    ensures
        r@.len() == lines@.len(),
        forall|i: int| 0 <= i < r@.len() ==> (#[trigger] r@[i])@ == lines@[i]@,
{
    let mut r: Vec<Vec<char>> = Vec::new();
    let mut i: usize = 0;
    while i < lines.len()
        invariant
            i <= lines@.len(),
            r@.len() == i,
            forall|j: int| 0 <= j < i ==> (#[trigger] r@[j])@ == lines@[j]@,
        decreases lines@.len() - i,
    {
        r.push(chars_of(lines[i].as_str()));
        i = i + 1;
    }
    r
}

/// Whether two words are the same.
fn same_word(a: &[char], b: &[char]) -> (r: bool)
    ensures
        r == (a@ == b@),
{
    if a.len() != b.len() {
        return false;
    }
    let mut i: usize = 0;
    while i < a.len()
        invariant
            a@.len() == b@.len(),
            i <= a@.len(),
            a@.take(i as int) == b@.take(i as int),
        decreases a@.len() - i,
    {
        if a[i] != b[i] {
            assert(a@[i as int] != b@[i as int]);
            return false;
        }
        proof {
            assert(a@.take(i + 1) =~= a@.take(i as int).push(a@[i as int]));
            assert(b@.take(i + 1) =~= b@.take(i as int).push(b@[i as int]));
        }
        i = i + 1;
    }
    proof {
        assert(a@ =~= a@.take(i as int));
        assert(b@ =~= b@.take(i as int));
    }
    true
}

/// Whether `w` is a playable word.
fn check_word(w: &[char]) -> (r: bool)
    ensures
        r == is_word(w@),
{
    if w.len() != WORD_LENGTH {
        return false;
    }
    let mut i: usize = 0;
    while i < w.len()
        invariant
            i <= w@.len(),
            forall|j: int| 0 <= j < i ==> is_letter(#[trigger] w@[j]),
        decreases w@.len() - i,
    {
        if !('a' <= w[i] && w[i] <= 'z') {
            return false;
        }
        i = i + 1;
    }
    true
}

/// The words of a game: the dictionary that guesses are checked against and
/// the pool that targets are drawn from.
pub struct WordSource {
    accepted: Vec<Vec<char>>,
    answers: Vec<Vec<char>>,
    check_dictionary: bool,
}

impl WordSource {
    /// The dictionary of accepted guesses.
    pub closed spec fn accepted(&self) -> Seq<Seq<char>> {
        Seq::new(self.accepted@.len(), |i: int| self.accepted@[i]@)
    }

    /// The pool of targets.
    pub closed spec fn answers(&self) -> Seq<Seq<char>> {
        Seq::new(self.answers@.len(), |i: int| self.answers@[i]@)
    }

    /// Whether guesses must be in the dictionary.
    pub closed spec fn checks_dictionary(&self) -> bool {
        self.check_dictionary
    }

    /// The pool holds at least one target, and each is a playable word.
    pub open spec fn wf(&self) -> bool {
        self.answers().len() > 0 && forall|i: int|
            0 <= i < self.answers().len() ==> is_word(#[trigger] self.answers()[i])
    }

    /// Whether a submitted word `w` is taken as a guess: always where the
    /// dictionary is not checked, else where it is a word of the dictionary.
    pub open spec fn accepts_spec(&self, w: Seq<char>) -> bool {
        !self.checks_dictionary() || exists|i: int|
            0 <= i < self.accepted().len() && #[trigger] self.accepted()[i] == w
    }

    /// A word source from the lines of a dictionary and of an answer pool.
    /// Where `check_dictionary` is false, any word of the right length is
    /// taken as a guess. Refused with `None` where the pool is empty or holds
    /// a line that is not `WORD_LENGTH` lowercase letters.
    pub fn new(accepted: Vec<String>, answers: Vec<String>, check_dictionary: bool) -> (r: Option<
        WordSource,
    >)
        ensures
            r is None <==> (answers@.len() == 0 || exists|i: int|
                0 <= i < answers@.len() && !is_word(#[trigger] answers@[i]@)),
            r matches Some(s) ==> {
                &&& s.wf()
                &&& s.accepted() == Seq::new(accepted@.len(), |i: int| accepted@[i]@)
                &&& s.answers() == Seq::new(answers@.len(), |i: int| answers@[i]@)
                &&& s.checks_dictionary() == check_dictionary
            },
    {
        let dictionary = words_of(&accepted);
        let pool = words_of(&answers);
        if pool.len() == 0 {
            return None;
        }
        let mut i: usize = 0;
        while i < pool.len()
            invariant
                i <= pool@.len() == answers@.len(),
                forall|j: int| 0 <= j < pool@.len() ==> (#[trigger] pool@[j])@ == answers@[j]@,
                forall|j: int| 0 <= j < i ==> is_word((#[trigger] answers@[j])@),
            decreases pool@.len() - i,
        {
            if !check_word(pool[i].as_slice()) {
                return None;
            }
            i = i + 1;
        }
        let r = WordSource { accepted: dictionary, answers: pool, check_dictionary };
        proof {
            assert(r.accepted() =~= Seq::new(accepted@.len(), |i: int| accepted@[i]@));
            assert(r.answers() =~= Seq::new(answers@.len(), |i: int| answers@[i]@));
        }
        Some(r)
    }

    /// Whether `w` is taken as a guess.
    pub fn accepts(&self, w: &[char]) -> (r: bool)
        ensures
            r == self.accepts_spec(w@),
    {
        if !self.check_dictionary {
            return true;
        }
        let mut i: usize = 0;
        while i < self.accepted.len()
            invariant
                i <= self.accepted@.len(),
                forall|j: int| 0 <= j < i ==> self.accepted@[j]@ != w@,
            decreases self.accepted@.len() - i,
        {
            if same_word(self.accepted[i].as_slice(), w) {
                assert(self.accepted()[i as int] == w@);
                return true;
            }
            i = i + 1;
        }
        proof {
            assert forall|j: int| 0 <= j < self.accepted().len() implies self.accepted()[j]
                != w@ by {
                assert(self.accepted()[j] == self.accepted@[j]@);
            }
        }
        false
    }

    /// The target at place `index` of the pool.
    pub fn answer_at(&self, index: usize) -> (r: Vec<char>)
        requires
            index < self.answers().len(),
        ensures
            r@ == self.answers()[index as int],
    {
        let w = self.answers[index].as_slice();
        let mut r: Vec<char> = Vec::new();
        let mut i: usize = 0;
        while i < w.len()
            invariant
                i <= w@.len(),
                r@ == w@.take(i as int),
            decreases w@.len() - i,
        {
            r.push(w[i]);
            i = i + 1;
            proof {
                assert(r@ =~= w@.take(i as int));
            }
        }
        proof {
            assert(r@ =~= w@);
        }
        r
    }

    /// A target drawn at random from the pool.
    pub fn random_answer(&self) -> (r: Vec<char>)
        requires
            self.wf(),
        ensures
            exists|i: int| 0 <= i < self.answers().len() && r@ == #[trigger] self.answers()[i],
            is_word(r@),
    {
        let index = random_below(self.answers.len());
        let r = self.answer_at(index);
        assert(r@ == self.answers()[index as int]);
        r
    }
}

} // verus!
