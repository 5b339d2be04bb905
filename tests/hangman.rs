use deet::hangman::{Game, GuessCheck, NUM_INCORRECT_GUESSES};

fn chars(s: &str) -> Vec<char> {
    s.chars().collect()
}

#[test]
fn template_fills_guessed_letters() {
    let mut g = Game::new(chars("hello"));
    assert_eq!(g.template(), chars("_____"));
    assert!(g.apply_guess('l'));
    assert_eq!(g.template(), chars("__ll_"));
    assert!(!g.is_won());
    for c in ['h', 'e', 'o'] {
        assert!(g.apply_guess(c));
    }
    assert!(g.is_won());
    assert_eq!(g.guesses_left, NUM_INCORRECT_GUESSES);
}

#[test]
fn wrong_guesses_run_out() {
    let mut g = Game::new(chars("ab"));
    for c in ['x', 'y', 'z', 'w', 'v'] {
        assert!(!g.apply_guess(c));
    }
    assert_eq!(g.guesses_left, 0);
    assert!(g.is_lost());
    assert!(!g.is_won());
}

#[test]
fn guesses_are_judged() {
    let mut g = Game::new(chars("cat"));
    assert_eq!(g.check_guess("A"), GuessCheck::Accepted('a'));
    assert_eq!(g.check_guess("ab"), GuessCheck::NotOneChar);
    assert_eq!(g.check_guess(""), GuessCheck::NotOneChar);
    assert_eq!(g.check_guess("7"), GuessCheck::NotLetter);
    g.apply_guess('a');
    assert_eq!(g.check_guess("A"), GuessCheck::AlreadyGuessed);
    assert_eq!(g.check_guess("a"), GuessCheck::AlreadyGuessed);
}

#[test]
fn empty_secret_is_won_at_once() {
    let g = Game::new(vec![]);
    assert!(g.is_won());
}
