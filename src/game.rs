use vstd::prelude::*;

verus! {

/// Where a game stands.
#[derive(Clone, Copy, Debug, PartialEq, Eq, Structural)]
pub enum Phase {
    /// Waiting for the next guess.
    AwaitingGuess,
    /// The solution was guessed.
    Won,
    /// Every attempt was spent without guessing the solution.
    Exhausted,
}

/// What one submitted guess led to.
#[derive(Clone, Copy, Debug, PartialEq, Eq, Structural)]
pub enum Outcome {
    /// The guess is not in the word list; no attempt was spent.
    NotInWordList,
    /// The guess is the solution.
    Won,
    /// The guess was wrong and `remaining` attempts are left.
    Continuing { remaining: u32 },
    /// The guess was wrong and it was the last attempt.
    Exhausted,
    /// The game had already ended; nothing changed.
    Over,
}

/// The attempts of one game: how many are allowed, how many were spent, and where it stands.
#[derive(Clone, Copy, Debug, PartialEq, Eq, Structural)]
pub struct Game {
    pub max_attempts: u32,
    pub attempts: u32,
    pub phase: Phase,
}

/// A game that allows `max_attempts` attempts, none spent yet.
pub open spec fn start(max_attempts: u32) -> Game {
    Game {
        max_attempts,
        attempts: 0,
        phase: if max_attempts == 0 {
            Phase::Exhausted
        } else {
            Phase::AwaitingGuess
        },
    }
}

/// The game after a guess and what the guess led to. `found` tells whether the guess is in
/// the word list, `is_win` whether it is the solution.
pub open spec fn step(g: Game, found: bool, is_win: bool) -> (Game, Outcome) {
    if g.phase != Phase::AwaitingGuess {
        (g, Outcome::Over)
    } else if !found {
        (g, Outcome::NotInWordList)
    } else if is_win {
        (Game { phase: Phase::Won, ..g }, Outcome::Won)
    } else if g.attempts + 1 >= g.max_attempts {
        (Game { attempts: (g.attempts + 1) as u32, phase: Phase::Exhausted, ..g }, Outcome::Exhausted)
    } else {
        (
            Game { attempts: (g.attempts + 1) as u32, ..g },
            Outcome::Continuing { remaining: (g.max_attempts - g.attempts - 1) as u32 },
        )
    }
}

/// The game after `k` wrong guesses from the word list.
pub open spec fn after_misses(g: Game, k: nat) -> Game
    decreases k,
{
    if k == 0 {
        g
    } else {
        step(after_misses(g, (k - 1) as nat), true, false).0
    }
}

impl Game {
    /// Attempts spent never exceed those allowed; a game waiting for a guess has one left,
    /// and an exhausted game has spent them all.
    pub open spec fn wf(&self) -> bool {
        &&& self.attempts <= self.max_attempts
        &&& self.phase == Phase::AwaitingGuess ==> self.attempts < self.max_attempts
        &&& self.phase == Phase::Exhausted ==> self.attempts == self.max_attempts
    }

    /// A game that allows `max_attempts` attempts.
    pub fn new(max_attempts: u32) -> (r: Game)
        ensures
            r == start(max_attempts),
            r.wf(),
    {
        Game {
            max_attempts,
            attempts: 0,
            phase: if max_attempts == 0 {
                Phase::Exhausted
            } else {
                Phase::AwaitingGuess
            },
        }
    }

    /// Takes a guess: one not in the word list spends no attempt; a winning one ends the
    /// game; a wrong one spends an attempt and ends the game when it was the last.
    pub fn submit(&mut self, found: bool, is_win: bool) -> (r: Outcome)
        requires
            old(self).wf(),
        ensures
            (*final(self), r) == step(*old(self), found, is_win),
            final(self).wf(),
    {
        match self.phase {
            Phase::AwaitingGuess => {},
            _ => {
                return Outcome::Over;
            },
        }
        if !found {
            return Outcome::NotInWordList;
        }
        if is_win {
            self.phase = Phase::Won;
            return Outcome::Won;
        }
        let remaining = self.max_attempts - self.attempts - 1;
        self.attempts = self.attempts + 1;
        if remaining == 0 {
            self.phase = Phase::Exhausted;
            Outcome::Exhausted
        } else {
            Outcome::Continuing { remaining }
        }
    }
}

/// The attempt budget: from a fresh game that allows `m` attempts, wrong guesses from the
/// word list end the game after exactly `m` of them, never fewer; each spends one attempt
/// until then, and later ones change nothing.
pub proof fn lemma_attempt_budget(m: u32, k: nat)
    ensures
        after_misses(start(m), k).phase == if k >= m {
            Phase::Exhausted
        } else {
            Phase::AwaitingGuess
        },
        after_misses(start(m), k).attempts == if k >= m {
            m as nat
        } else {
            k
        },
        after_misses(start(m), k).max_attempts == m,
    decreases k,
{
    if k > 0 {
        lemma_attempt_budget(m, (k - 1) as nat);
    }
}

} // verus!
