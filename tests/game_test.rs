use fancy_hangman::game::{Game, Outcome, Phase};

#[test]
fn budget_of_six_ends_after_six_misses() {
    let mut g = Game::new(6);
    for k in 0..5u32 {
        assert_eq!(g.submit(true, false), Outcome::Continuing { remaining: 5 - k });
        assert_eq!(g.phase, Phase::AwaitingGuess);
    }
    assert_eq!(g.submit(true, false), Outcome::Exhausted);
    assert_eq!(g.phase, Phase::Exhausted);
    assert_eq!(g.attempts, 6);
    assert_eq!(g.submit(true, false), Outcome::Over);
    assert_eq!(g.attempts, 6);
}

#[test]
fn unknown_guess_spends_no_attempt() {
    let mut g = Game::new(6);
    assert_eq!(g.submit(false, false), Outcome::NotInWordList);
    assert_eq!(g.attempts, 0);
    assert_eq!(g.phase, Phase::AwaitingGuess);
}

#[test]
fn winning_guess_ends_game() {
    let mut g = Game::new(6);
    assert_eq!(g.submit(true, false), Outcome::Continuing { remaining: 5 });
    assert_eq!(g.submit(true, true), Outcome::Won);
    assert_eq!(g.phase, Phase::Won);
    assert_eq!(g.submit(true, false), Outcome::Over);
}

#[test]
fn no_attempts_allowed() {
    let g = Game::new(0);
    assert_eq!(g.phase, Phase::Exhausted);
}

#[test]
fn single_attempt_budget() {
    let mut g = Game::new(1);
    assert_eq!(g.submit(true, false), Outcome::Exhausted);
}
