use guessing_game::game::{compare_guess, parse_guess, pick_target, Game, Verdict};

#[test]
fn verdict_covers_all_three_outcomes() {
    for g in 1..=100u32 {
        for t in 1..=100u32 {
            let v = compare_guess(g, t);
            match v {
                Verdict::TooSmall => assert!(g < t),
                Verdict::TooBig => assert!(g > t),
                Verdict::Correct => assert_eq!(g, t),
            }
            assert_eq!(v == Verdict::Correct, g == t);
        }
    }
}

#[test]
fn parse_accepts_plain_numbers() {
    assert_eq!(parse_guess("42"), Some(42));
    assert_eq!(parse_guess(" 42\n"), Some(42));
    assert_eq!(parse_guess("  99  "), Some(99));
    assert_eq!(parse_guess("+7"), Some(7));
    assert_eq!(parse_guess("0"), Some(0));
    assert_eq!(parse_guess("007"), Some(7));
    assert_eq!(parse_guess("4294967295"), Some(u32::MAX));
    // Any Unicode whitespace is trimmed, as the standard trim does.
    assert_eq!(parse_guess("\u{a0}42"), Some(42));
    assert_eq!(parse_guess("\u{3000}7\u{2028}"), Some(7));
}

#[test]
fn parse_rejects_non_numbers() {
    assert_eq!(parse_guess("abc"), None);
    assert_eq!(parse_guess(""), None);
    assert_eq!(parse_guess("3.5"), None);
    assert_eq!(parse_guess("-1"), None);
    assert_eq!(parse_guess("+"), None);
    assert_eq!(parse_guess("4 2"), None);
    assert_eq!(parse_guess("42x"), None);
    assert_eq!(parse_guess("4294967296"), None);
    assert_eq!(parse_guess("99999999999999999999"), None);
    assert_eq!(parse_guess(" \t \n"), None);
}

#[test]
fn fixed_target_scenario() {
    let mut game = Game::new(42);
    assert!(!game.is_won());

    assert_eq!(game.guess_line("7"), Some((7, Verdict::TooSmall)));
    assert!(!game.is_won());

    assert_eq!(game.guess_line("abc"), None);
    assert!(!game.is_won());

    assert_eq!(game.guess_line("99"), Some((99, Verdict::TooBig)));
    assert!(!game.is_won());

    assert_eq!(game.guess_line("42"), Some((42, Verdict::Correct)));
    assert!(game.is_won());
}

#[test]
fn unparsable_input_is_idempotent() {
    let mut game = Game::new(60);
    for _ in 0..50 {
        assert_eq!(game.guess_line("not a number"), None);
        assert!(!game.is_won());
    }
    // The target is untouched: the right guess still wins at once.
    assert_eq!(game.guess_line("60"), Some((60, Verdict::Correct)));
    assert!(game.is_won());
}

#[test]
fn boundary_guesses() {
    assert_eq!(compare_guess(1, 100), Verdict::TooSmall);
    assert_eq!(compare_guess(100, 1), Verdict::TooBig);
    assert_eq!(compare_guess(1, 1), Verdict::Correct);
    assert_eq!(compare_guess(100, 100), Verdict::Correct);

    let mut low = Game::new(1);
    assert_eq!(low.guess_line("1"), Some((1, Verdict::Correct)));
    assert!(low.is_won());

    let mut high = Game::new(100);
    assert_eq!(high.guess_line("100"), Some((100, Verdict::Correct)));
    assert!(high.is_won());
}

#[test]
fn out_of_range_guesses_still_get_verdicts() {
    // Any u32 parses as a guess; only equality wins.
    let mut game = Game::new(100);
    assert_eq!(game.guess_line("101"), Some((101, Verdict::TooBig)));
    assert_eq!(game.guess_line("4294967295"), Some((u32::MAX, Verdict::TooBig)));
    assert_eq!(game.guess_line("0"), Some((0, Verdict::TooSmall)));
    assert!(!game.is_won());
}

#[test]
fn picked_targets_stay_in_range() {
    for _ in 0..1000 {
        let t = pick_target();
        assert!((1..=100).contains(&t));
    }
}

#[test]
fn random_game_starts_running() {
    let game = Game::new_random();
    assert!(!game.is_won());
}
