use vstd::prelude::*;

use crate::text::chars_of;

verus! {

/// How one character of a guess relates to the solution.
#[derive(Clone, Copy, Debug, PartialEq, Eq, Structural)]
pub enum Mark {
    /// The solution holds the same character at the same position.
    Exact,
    /// The solution holds the character, but not at this position.
    Present,
    /// The solution does not hold the character at all.
    Absent,
}

/// The mark of position `i` of `guess`. Presence is tested against the whole solution, so a
/// letter repeated in the guess is marked present as often as it is repeated, however often
/// the solution holds it.
pub open spec fn mark_at(solution: Seq<char>, guess: Seq<char>, i: int) -> Mark {
    if !solution.contains(guess[i]) {
        Mark::Absent
    } else if solution[i] == guess[i] {
        Mark::Exact
    } else {
        Mark::Present
    }
}

/// The marks of all positions of `guess`, in order.
pub open spec fn marks_of(solution: Seq<char>, guess: Seq<char>) -> Seq<Mark> {
    Seq::new(guess.len(), |i: int| mark_at(solution, guess, i))
}

/// The result of comparing a guess with the solution.
pub struct Feedback {
    /// One mark per character of the guess.
    pub marks: Vec<Mark>,
    /// The guess is the solution.
    pub is_win: bool,
}

/// Whether `c` occurs in `s`.
fn occurs(s: &Vec<char>, c: char) -> (r: bool)
    ensures
        r == s@.contains(c),
{
    let mut i: usize = 0;
    while i < s.len()
        invariant
            i <= s.len(),
            forall|j: int| 0 <= j < i ==> s@[j] != c,
        decreases s.len() - i,
    {
        if s[i] == c {
            return true;
        }
        i = i + 1;
    }
    false
}

/// Marks each character of `guessed_word` against `solution_word` and tells whether the
/// guess is the solution.
pub fn check_word(solution_word: &str, guessed_word: &str) -> (r: Feedback)
    requires
        solution_word@.len() == guessed_word@.len(),
    ensures
        r.marks@ == marks_of(solution_word@, guessed_word@),
        r.is_win == (solution_word@ == guessed_word@),
{
    let solution = chars_of(solution_word);
    let guess = chars_of(guessed_word);
    let mut marks: Vec<Mark> = Vec::new();
    let mut i: usize = 0;
    while i < guess.len()
        invariant
            solution@ == solution_word@,
            guess@ == guessed_word@,
            solution@.len() == guess@.len(),
            i <= guess.len(),
            marks@ == marks_of(solution@, guess@).take(i as int),
        decreases guess.len() - i,
    {
        let c = guess[i];
        let m = if !occurs(&solution, c) {
            Mark::Absent
        } else if solution[i] == c {
            Mark::Exact
        } else {
            Mark::Present
        };
        marks.push(m);
        assert(marks@ =~= marks_of(solution@, guess@).take(i + 1));
        i = i + 1;
    }
    assert(marks@ =~= marks_of(solution@, guess@));
    let mut is_win = true;
    let mut k: usize = 0;
    while k < guess.len()
        invariant
            solution@ == solution_word@,
            guess@ == guessed_word@,
            solution@.len() == guess@.len(),
            k <= guess.len(),
            is_win == (forall|j: int| 0 <= j < k ==> solution@[j] == guess@[j]),
        decreases guess.len() - k,
    {
        if solution[k] != guess[k] {
            is_win = false;
        }
        k = k + 1;
    }
    assert(is_win ==> solution@ =~= guess@);
    Feedback { marks, is_win }
}

} // verus!
