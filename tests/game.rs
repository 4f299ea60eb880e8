use yahtzee::{Category, Game, GameError, Phase};

const ALL: [Category; 13] = [
    Category::Ones,
    Category::Twos,
    Category::Threes,
    Category::Fours,
    Category::Fives,
    Category::Sixes,
    Category::ThreeOfAKind,
    Category::FourOfAKind,
    Category::FullHouse,
    Category::SmallStraight,
    Category::LargeStraight,
    Category::Yahtzee,
    Category::Chance,
];

#[test]
fn new_game_awaits_first_roll() {
    let g = Game::new();
    assert_eq!(g.phase(), Phase::AwaitingRoll);
    assert_eq!(g.turn_number(), 1);
    assert_eq!(g.rolls_taken(), 0);
    assert_eq!(g.rolls_remaining(), 0);
    assert!(!g.is_over());
}

#[test]
fn commands_out_of_phase_are_refused() {
    let mut g = Game::new();
    assert_eq!(g.reroll(), Err(GameError::InvalidTransition));
    assert_eq!(g.lock_die(0), Err(GameError::InvalidTransition));
    assert_eq!(g.unlock_die(0), Err(GameError::InvalidTransition));
    assert_eq!(g.commit(Category::Chance), Err(GameError::InvalidTransition));
    assert_eq!(g.scratch_category(Category::Chance), Err(GameError::InvalidTransition));
    assert_eq!(g.final_score(), Err(GameError::IncompleteScorecard));
    assert_eq!(g.start_turn(), Ok(()));
    assert_eq!(g.start_turn(), Err(GameError::InvalidTransition));
}

#[test]
fn reroll_budget() {
    let mut g = Game::new();
    g.start_turn().unwrap();
    assert_eq!(g.rolls_taken(), 1);
    assert_eq!(g.rolls_remaining(), 2);
    assert_eq!(g.reroll(), Ok(()));
    assert_eq!(g.reroll(), Ok(()));
    assert_eq!(g.rolls_remaining(), 0);
    assert_eq!(g.reroll(), Err(GameError::NoRollsRemaining));
    assert_eq!(g.rolls_taken(), 3);
    g.scratch_category(Category::Yahtzee).unwrap();
    g.start_turn().unwrap();
    assert_eq!(g.rolls_taken(), 1);
    assert_eq!(g.reroll(), Ok(()));
}

#[test]
fn lock_die_survives_reroll() {
    let mut g = Game::new();
    g.start_turn().unwrap();
    let face = g.dice().faces()[1];
    assert_eq!(g.lock_die(1), Ok(()));
    assert_eq!(g.lock_die(5), Err(GameError::OutOfRange));
    g.reroll().unwrap();
    g.reroll().unwrap();
    assert_eq!(g.dice().faces()[1], face);
    assert_eq!(g.unlock_die(1), Ok(()));
    assert_eq!(g.unlock_die(9), Err(GameError::OutOfRange));
}

#[test]
fn commit_scores_and_clears_locks() {
    let mut g = Game::new();
    g.start_turn().unwrap();
    g.lock_die(0).unwrap();
    let faces = g.dice().faces();
    let expected = Category::Chance.score(&faces);
    assert_eq!(g.commit(Category::Chance), Ok(expected));
    assert_eq!(g.scorecard().get(Category::Chance), Some(expected));
    assert_eq!(g.phase(), Phase::AwaitingRoll);
    assert_eq!(g.turn_number(), 2);
    assert!(!g.dice().get(0).unwrap().is_locked());
    g.start_turn().unwrap();
    assert_eq!(g.commit(Category::Chance), Err(GameError::CategoryAlreadyFilled));
    assert_eq!(g.phase(), Phase::AwaitingDecision);
    assert_eq!(g.turn_number(), 2);
}

#[test]
fn thirteen_turns_end_the_game() {
    let mut g = Game::new();
    let mut sum: u16 = 0;
    for (i, c) in ALL.iter().enumerate() {
        assert_eq!(g.turn_number() as usize, i + 1);
        assert_eq!(g.final_score(), Err(GameError::IncompleteScorecard));
        g.start_turn().unwrap();
        sum += g.commit(*c).unwrap();
    }
    assert!(g.is_over());
    assert_eq!(g.phase(), Phase::GameOver);
    assert_eq!(g.turn_number(), 14);
    assert_eq!(g.start_turn(), Err(GameError::InvalidTransition));
    let bonus = g.scorecard().upper_bonus();
    assert_eq!(g.final_score(), Ok(sum + bonus));
}

#[test]
fn scratching_every_category_scores_zero() {
    let mut g = Game::new();
    for c in ALL {
        g.start_turn().unwrap();
        g.scratch_category(c).unwrap();
    }
    assert!(g.is_over());
    assert_eq!(g.final_score(), Ok(0));
}

#[test]
fn new_game_dice_show_one_unlocked() {
    let g = Game::new();
    assert_eq!(g.dice().faces(), [1, 1, 1, 1, 1]);
    for d in g.dice().iter() {
        assert!(!d.is_locked());
    }
}

#[test]
fn turn_with_given_draws() {
    let mut g = Game::new();
    assert_eq!(g.reroll_with([1, 1, 1, 1, 1]), Err(GameError::InvalidTransition));
    assert_eq!(g.start_turn_with([3, 3, 1, 5, 6]), Ok(()));
    assert_eq!(g.dice().faces(), [3, 3, 1, 5, 6]);
    g.lock_die(0).unwrap();
    g.lock_die(1).unwrap();
    assert_eq!(g.reroll_with([6, 6, 3, 2, 4]), Ok(()));
    assert_eq!(g.dice().faces(), [3, 3, 3, 2, 4]);
    g.unlock_die(1).unwrap();
    assert_eq!(g.reroll_with([5, 2, 6, 6, 5]), Ok(()));
    assert_eq!(g.dice().faces(), [3, 2, 6, 6, 5]);
    assert_eq!(g.reroll_with([1, 1, 1, 1, 1]), Err(GameError::NoRollsRemaining));
    assert_eq!(g.dice().faces(), [3, 2, 6, 6, 5]);
    assert_eq!(g.commit(Category::Chance), Ok(22));
    assert_eq!(g.start_turn_with([2, 2, 3, 3, 3]), Ok(()));
    assert_eq!(g.commit(Category::FullHouse), Ok(25));
    assert_eq!(g.start_turn_with([2, 2, 2, 5, 6]), Ok(()));
    assert_eq!(g.commit(Category::Twos), Ok(6));
    assert_eq!(g.scorecard().upper_total(), 6);
    assert_eq!(g.start_turn_with([1, 1, 1, 1, 1]), Ok(()));
    assert_eq!(g.start_turn_with([1, 1, 1, 1, 1]), Err(GameError::InvalidTransition));
}
