//! Rules engine for a five-dice game of thirteen scoring categories.
pub mod consts;
mod dice;
mod die;

mod error;
mod scoring;
mod scorecard;
mod game;




pub use die::{Die, DieView};
pub use error::GameError;


pub use dice::{faces_of, lemma_rolled_to, rolled, rolled_to, unlocked, valid_draws, with_lock, Dice};
pub use scoring::{
    count_of, has_exactly, has_n_of_a_kind, is_full_house, is_large_straight, is_small_straight,
    is_yahtzee, lemma_count_le_len, lemma_sum_le, shows_run, sum_of, Category,
};
pub use scorecard::{
    filled_count, filled_with, grand_total_of, is_complete_card, lemma_filled_count_complete,
    lemma_filled_count_update, lemma_fill_once, lemma_upper_bonus, points, total_of,
    upper_bonus_of, upper_total_of, Scorecard,
};
pub use game::{
    after_scoring, game_wf, rerolled_with, started_with, lemma_game_over, lemma_locked_die_kept, lemma_reroll_budget,
    lock_error, reroll_error, rerolled, scoring_error, started, Game, GameView, Phase,
};
