use vstd::prelude::*;

use crate::color::Color;

verus! {

/// The number of letters of the alphabet.
pub const ALPHABET: usize = 26;

/// Whether `c` is a lowercase letter of the alphabet.
pub open spec fn is_letter(c: char) -> bool {
    'a' <= c && c <= 'z'
}

/// The place of a letter in the alphabet, from 0 for `a`.
pub open spec fn letter_index(c: char) -> int {
    c as int - 'a' as int
}

/// Every letter unchecked.
pub open spec fn all_unset() -> Seq<Color> {
    Seq::new(ALPHABET as nat, |k: int| Color::Unset)
}

/// The best color that the first `n` pairs of a row give the letter at place `k`.
pub open spec fn best_in_row(letters: Seq<char>, colors: Seq<Color>, k: int, n: int) -> Color
    decreases n,
{
    if n <= 0 {
        Color::Unset
    } else {
        let prev = best_in_row(letters, colors, k, n - 1);
        if is_letter(letters[n - 1]) && letter_index(letters[n - 1]) == k {
            prev.join(colors[n - 1])
        } else {
            prev
        }
    }
}

/// The keyboard `states` after the first `n` pairs of a scored row are merged in.
pub open spec fn merged(states: Seq<Color>, letters: Seq<char>, colors: Seq<Color>, n: int) -> Seq<
    Color,
> {
    Seq::new(states.len(), |k: int| states[k].join(best_in_row(letters, colors, k, n)))
}

/// The keyboard after every row of `rows`, each a word and its colors, is
/// merged in order into an all-unchecked keyboard.
pub open spec fn aggregate(rows: Seq<(Seq<char>, Seq<Color>)>) -> Seq<Color>
    decreases rows.len(),
{
    if rows.len() == 0 {
        all_unset()
    } else {
        let last = rows.last();
        merged(aggregate(rows.drop_last()), last.0, last.1, last.0.len() as int)
    }
}

/// The best-known color of each letter of the alphabet.
pub struct LetterStates {
    colors: Vec<Color>,
}

impl View for LetterStates {
    type V = Seq<Color>;

    /// One color per letter, `a` first.
    closed spec fn view(&self) -> Seq<Color> {
        self.colors@
    }
}

impl LetterStates {
    /// Every letter holds a color.
    pub closed spec fn wf(&self) -> bool {
        self.colors@.len() == ALPHABET
    }

    /// The color known of letter `c`; unset for anything but a lowercase letter.
    pub open spec fn state_of(&self, c: char) -> Color {
        if is_letter(c) {
            self@[letter_index(c)]
        } else {
            Color::Unset
        }
    }

    /// A keyboard on which no letter has been checked.
    pub fn new() -> (r: LetterStates)
        ensures
            r.wf(),
            r@ == all_unset(),
    {
        let mut colors: Vec<Color> = Vec::new();
        let mut k: usize = 0;
        while k < ALPHABET
            invariant
                k <= ALPHABET,
                colors@ == Seq::new(k as nat, |j: int| Color::Unset),
            decreases ALPHABET - k,
        {
            colors.push(Color::Unset);
            k = k + 1;
            proof {
                assert(colors@ =~= Seq::new(k as nat, |j: int| Color::Unset));
            }
        }
        LetterStates { colors }
    }

    /// The color known of letter `c`.
    pub fn get(&self, c: char) -> (r: Color)
        requires
            self.wf(),
        ensures
            r == self.state_of(c),
    {
        if 'a' <= c && c <= 'z' {
            self.colors[(c as u32 - 'a' as u32) as usize]
        } else {
            Color::Unset
        }
    }

    /// Merges a scored row into the keyboard: each letter of `letters` takes
    /// the color at the same position of `colors` where that ranks higher
    /// than what it holds. Characters that are not lowercase letters are left out.
    pub fn merge(&mut self, letters: &[char], colors: &[Color])
        requires
            old(self).wf(),
            letters@.len() == colors@.len(),
        ensures
            final(self).wf(),
            final(self)@ == merged(old(self)@, letters@, colors@, letters@.len() as int),
    {
        let ghost start = self@;
        let mut j: usize = 0;
        proof {
            assert(self@ =~= merged(start, letters@, colors@, 0));
        }
        while j < letters.len()
            invariant
                self.wf(),
                start.len() == ALPHABET,
                j <= letters@.len() == colors@.len(),
                self@ == merged(start, letters@, colors@, j as int),
            decreases letters@.len() - j,
        {
            let c = letters[j];
            if 'a' <= c && c <= 'z' {
                let k = (c as u32 - 'a' as u32) as usize;
                let joined = self.colors[k].stronger(colors[j]);
                self.colors.set(k, joined);
            }
            proof {
                assert(self@ =~= merged(start, letters@, colors@, j + 1));
            }
            j = j + 1;
        }
    }
}

/// Merging a row never lowers the color of a letter.
pub proof fn lemma_merge_never_lowers(
    states: Seq<Color>,
    letters: Seq<char>,
    colors: Seq<Color>,
    n: int,
    k: int,
)
    requires
        0 <= k < states.len(),
    ensures
        merged(states, letters, colors, n)[k].rank() >= states[k].rank(),
{
}

/// The keyboard after any number of scored rows has one color per letter.
pub proof fn lemma_aggregate_len(rows: Seq<(Seq<char>, Seq<Color>)>)
    ensures
        aggregate(rows).len() == ALPHABET,
    decreases rows.len(),
{
    if rows.len() > 0 {
        lemma_aggregate_len(rows.drop_last());
    }
}

/// Over a sequence of scored rows, the color of each letter never decreases:
/// the keyboard after the first `i` rows ranks no letter above the keyboard
/// after the first `j` rows, for `i <= j`.
pub proof fn lemma_keyboard_monotone(rows: Seq<(Seq<char>, Seq<Color>)>, i: int, j: int, k: int)
    requires
        0 <= i <= j <= rows.len(),
        0 <= k < ALPHABET,
    ensures
        aggregate(rows.take(i))[k].rank() <= aggregate(rows.take(j))[k].rank(),
    decreases j - i,
{
    if i < j {
        lemma_keyboard_monotone(rows, i, j - 1, k);
        assert(rows.take(j).drop_last() =~= rows.take(j - 1));
        lemma_aggregate_len(rows.take(j - 1));
        let last = rows.take(j).last();
        lemma_merge_never_lowers(aggregate(rows.take(j - 1)), last.0, last.1, last.0.len() as int, k);
    }
}

} // verus!
