use vstd::prelude::*;

use crate::consts::{CATEGORY_COUNT, DICE_COUNT, MAX_NUMBER, MAX_ROLLS, MIN_NUMBER};
use crate::dice::{faces_of, lemma_rolled_to, rolled, rolled_to, unlocked, valid_draws, with_lock, Dice};
use crate::die::DieView;
use crate::error::GameError;
use crate::scorecard::{
    filled_count, filled_with, grand_total_of, is_complete_card, lemma_filled_count_complete,
    lemma_filled_count_update, points, Scorecard,
};
use crate::scoring::{Category, MAX_CATEGORY_SCORE};

verus! {

/// Where a game stands between commands.
#[derive(Debug, Clone, Copy, PartialEq, Eq, Structural)]
pub enum Phase {
    /// A turn is about to start; the dice have not been rolled in it.
    AwaitingRoll,
    /// The dice have been rolled; the player rerolls, locks, or scores.
    AwaitingDecision,
    /// Every category is filled.
    GameOver,
}

/// The state of a game: the dice, the rolls taken in this turn, the turn
/// number counted from 1, the card, and the phase.
pub struct GameView {
    pub dice: Seq<DieView>,
    pub rolls: nat,
    pub turn: nat,
    pub card: Seq<Option<u16>>,
    pub phase: Phase,
}

/// A well-formed game state. Each turn fills one category, so the turn
/// number is one more than the filled categories, and the game is over
/// exactly when the card is complete. Between turns no die is locked.
pub open spec fn game_wf(g: GameView) -> bool {
    &&& g.dice.len() == DICE_COUNT
    &&& forall|i: int| 0 <= i < g.dice.len() ==> MIN_NUMBER <= #[trigger] g.dice[i].face <= MAX_NUMBER
    &&& g.card.len() == CATEGORY_COUNT
    &&& forall|i: int| 0 <= i < CATEGORY_COUNT ==> points(#[trigger] g.card[i]) <= MAX_CATEGORY_SCORE
    &&& g.rolls <= MAX_ROLLS
    &&& g.turn == filled_count(g.card) + 1
    &&& (g.phase == Phase::GameOver <==> is_complete_card(g.card))
    &&& g.phase == Phase::AwaitingDecision ==> g.rolls >= 1
    &&& g.phase != Phase::AwaitingDecision ==> g.rolls == 0
    &&& g.phase != Phase::AwaitingDecision ==> forall|i: int| 0 <= i < g.dice.len() ==> !(#[trigger] g.dice[i]).locked
}

/// Why `reroll` would be refused in `g`, if it would.
pub open spec fn reroll_error(g: GameView) -> Option<GameError> {
    if g.phase != Phase::AwaitingDecision {
        Some(GameError::InvalidTransition)
    } else if g.rolls >= MAX_ROLLS {
        Some(GameError::NoRollsRemaining)
    } else {
        None
    }
}

/// `after` is what a successful reroll may make of `before`.
pub open spec fn rerolled(before: GameView, after: GameView) -> bool {
    &&& rolled(before.dice, after.dice)
    &&& after.rolls == before.rolls + 1
    &&& after.turn == before.turn
    &&& after.card == before.card
    &&& after.phase == before.phase
}

/// `after` is a state that `start_turn` may leave: every die unlocked and
/// rolled, one roll taken, the player to decide.
pub open spec fn started(before: GameView, after: GameView) -> bool {
    &&& rolled(unlocked(before.dice), after.dice)
    &&& after.rolls == 1
    &&& after.turn == before.turn
    &&& after.card == before.card
    &&& after.phase == Phase::AwaitingDecision
}

/// The state that `start_turn` leaves when it drew `draws`.
pub open spec fn started_with(g: GameView, draws: Seq<u8>) -> GameView {
    GameView {
        dice: rolled_to(unlocked(g.dice), draws),
        rolls: 1,
        phase: Phase::AwaitingDecision,
        ..g
    }
}

/// The state that `reroll` leaves when it drew `draws`.
pub open spec fn rerolled_with(g: GameView, draws: Seq<u8>) -> GameView {
    GameView { dice: rolled_to(g.dice, draws), rolls: g.rolls + 1, ..g }
}

/// The state after the card of `g` became `card` in this turn: locks
/// released, the turn counter advanced, and the game over once the card is
/// complete.
pub open spec fn after_scoring(g: GameView, card: Seq<Option<u16>>) -> GameView {
    GameView {
        dice: unlocked(g.dice),
        rolls: 0,
        turn: g.turn + 1,
        card,
        phase: if is_complete_card(card) { Phase::GameOver } else { Phase::AwaitingRoll },
    }
}

/// Why scoring `category` would be refused in `g`, if it would.
pub open spec fn scoring_error(g: GameView, category: Category) -> Option<GameError> {
    if g.phase != Phase::AwaitingDecision {
        Some(GameError::InvalidTransition)
    } else if g.card[category.slot()] is Some {
        Some(GameError::CategoryAlreadyFilled)
    } else {
        None
    }
}

/// Why locking or unlocking die `index` would be refused in `g`, if it would.
pub open spec fn lock_error(g: GameView, index: int) -> Option<GameError> {
    if g.phase != Phase::AwaitingDecision {
        Some(GameError::InvalidTransition)
    } else if !(0 <= index < DICE_COUNT) {
        Some(GameError::OutOfRange)
    } else {
        None
    }
}

/// One game: five dice, a card, and the turn in progress.
pub struct Game {
    dice: Dice,
    rolls: u8,
    turn: u8,
    score: Scorecard,
    phase: Phase,
}

impl View for Game {
    type V = GameView;

    closed spec fn view(&self) -> GameView {
        GameView {
            dice: self.dice@,
            rolls: self.rolls as nat,
            turn: self.turn as nat,
            card: self.score@,
            phase: self.phase,
        }
    }
}

impl Game {
    /// The state of the game is well formed; see `game_wf`.
    pub open spec fn wf(&self) -> bool {
        game_wf(self@)
    }

    /// A new game, in its first turn, before any roll.
    pub fn new() -> (g: Game)
        ensures
            g.wf(),
            g@.phase == Phase::AwaitingRoll,
            g@.turn == 1,
            g@.rolls == 0,
            forall|i: int| 0 <= i < CATEGORY_COUNT ==> (#[trigger] g@.card[i]) is None,
            forall|i: int| 0 <= i < DICE_COUNT ==> #[trigger] g@.dice[i] == (DieView { face: MIN_NUMBER, locked: false }),
    {
        let g = Game { dice: Dice::new(), rolls: 0, score: Scorecard::new(), turn: 1, phase: Phase::AwaitingRoll };
        proof {
            lemma_filled_count_complete(g@.card);
        }
        g
    }

    /// Starts a turn with the faces `draws`: releases every lock and sets
    /// die `i` to `draws[i]`, which counts as the first roll. Only allowed
    /// before a turn has started.
    pub fn start_turn_with(&mut self, draws: [u8; 5]) -> (r: Result<(), GameError>)
        requires
            old(self).wf(),
            valid_draws(draws@),
        ensures
            final(self).wf(),
            old(self)@.phase != Phase::AwaitingRoll ==> r == Err::<(), GameError>(GameError::InvalidTransition)
                && final(self)@ == old(self)@,
            old(self)@.phase == Phase::AwaitingRoll ==> r is Ok && final(self)@ == started_with(old(self)@, draws@),
    {
        if self.phase != Phase::AwaitingRoll {
            return Err(GameError::InvalidTransition);
        }
        self.dice.unlock_all();
        self.dice.roll_to(draws);
        self.rolls = 1;
        self.phase = Phase::AwaitingDecision;
        Ok(())
    }

    /// Starts a turn: releases every lock and rolls all dice, which counts as
    /// the first roll. Only allowed before a turn has started.
    pub fn start_turn(&mut self) -> (r: Result<(), GameError>)
        requires
            old(self).wf(),
        ensures
            final(self).wf(),
            old(self)@.phase != Phase::AwaitingRoll ==> r == Err::<(), GameError>(GameError::InvalidTransition)
                && final(self)@ == old(self)@,
            old(self)@.phase == Phase::AwaitingRoll ==> r is Ok && started(old(self)@, final(self)@),
    {
        if self.phase != Phase::AwaitingRoll {
            return Err(GameError::InvalidTransition);
        }
        let draws = self.dice.draw();
        proof {
            lemma_rolled_to(unlocked(self@.dice), draws@);
        }
        self.start_turn_with(draws)
    }

    /// Rerolls with the faces `draws`: each unlocked die `i` shows
    /// `draws[i]`. Refused outside a turn, and after three rolls in this turn.
    pub fn reroll_with(&mut self, draws: [u8; 5]) -> (r: Result<(), GameError>)
        requires
            old(self).wf(),
            valid_draws(draws@),
        ensures
            final(self).wf(),
            reroll_error(old(self)@) matches Some(e) ==> r == Err::<(), GameError>(e) && final(self)@ == old(self)@,
            reroll_error(old(self)@) is None ==> r is Ok && final(self)@ == rerolled_with(old(self)@, draws@),
    {
        if self.phase != Phase::AwaitingDecision {
            return Err(GameError::InvalidTransition);
        }
        if self.rolls >= MAX_ROLLS {
            return Err(GameError::NoRollsRemaining);
        }
        proof {
            lemma_rolled_to(self@.dice, draws@);
        }
        self.dice.roll_to(draws);
        self.rolls = self.rolls + 1;
        Ok(())
    }

    /// Rolls the unlocked dice again. Refused outside a turn, and after three
    /// rolls in this turn.
    pub fn reroll(&mut self) -> (r: Result<(), GameError>)
        requires
            old(self).wf(),
        ensures
            final(self).wf(),
            reroll_error(old(self)@) matches Some(e) ==> r == Err::<(), GameError>(e) && final(self)@ == old(self)@,
            reroll_error(old(self)@) is None ==> r is Ok && rerolled(old(self)@, final(self)@),
    {
        let draws = self.dice.draw();
        proof {
            lemma_rolled_to(self@.dice, draws@);
        }
        self.reroll_with(draws)
    }

    /// Locks die `index` so that rerolls keep its face.
    pub fn lock_die(&mut self, index: usize) -> (r: Result<(), GameError>)
        requires
            old(self).wf(),
        ensures
            final(self).wf(),
            lock_error(old(self)@, index as int) matches Some(e) ==> r == Err::<(), GameError>(e)
                && final(self)@ == old(self)@,
            lock_error(old(self)@, index as int) is None ==> r is Ok
                && final(self)@ == (GameView { dice: with_lock(old(self)@.dice, index as int, true), ..old(self)@ }),
    {
        if self.phase != Phase::AwaitingDecision {
            return Err(GameError::InvalidTransition);
        }
        self.dice.lock(index)
    }

    /// Unlocks die `index` so that rerolls roll it again.
    pub fn unlock_die(&mut self, index: usize) -> (r: Result<(), GameError>)
        requires
            old(self).wf(),
        ensures
            final(self).wf(),
            lock_error(old(self)@, index as int) matches Some(e) ==> r == Err::<(), GameError>(e)
                && final(self)@ == old(self)@,
            lock_error(old(self)@, index as int) is None ==> r is Ok
                && final(self)@ == (GameView { dice: with_lock(old(self)@.dice, index as int, false), ..old(self)@ }),
    {
        if self.phase != Phase::AwaitingDecision {
            return Err(GameError::InvalidTransition);
        }
        self.dice.unlock(index)
    }

    proof fn lemma_turn_bound(&self, category: Category)
        requires
            self.wf(),
            self@.card[category.slot()] is None,
        ensures
            self@.turn <= CATEGORY_COUNT,
    {
        lemma_filled_count_complete(self@.card);
    }

    /// Moves on after this turn's category was filled in `self.score`.
    fn end_turn(&mut self)
        requires
            old(self).dice.wf(),
            old(self).score.wf(),
            old(self).turn < 255,
        ensures
            final(self)@ == after_scoring(old(self)@, old(self).score@),
    {
        self.dice.unlock_all();
        self.rolls = 0;
        self.turn = self.turn + 1;
        if self.score.is_complete() {
            self.phase = Phase::GameOver;
        } else {
            self.phase = Phase::AwaitingRoll;
        }
    }

    /// Scores the dice in `category` and ends the turn. Refused outside a
    /// turn, and for a category filled before.
    pub fn commit(&mut self, category: Category) -> (r: Result<u16, GameError>)
        requires
            old(self).wf(),
        ensures
            final(self).wf(),
            scoring_error(old(self)@, category) matches Some(e) ==> r == Err::<u16, GameError>(e)
                && final(self)@ == old(self)@,
            scoring_error(old(self)@, category) is None ==> ({
                let score = category.score_of(faces_of(old(self)@.dice)) as u16;
                &&& r == Ok::<u16, GameError>(score)
                &&& final(self)@ == after_scoring(old(self)@, filled_with(old(self)@.card, category, score))
            }),
    {
        if self.phase != Phase::AwaitingDecision {
            return Err(GameError::InvalidTransition);
        }
        let ghost before = self@;
        proof {
            if before.card[category.slot()] is None {
                self.lemma_turn_bound(category);
            }
        }
        let r = self.score.score_upper(category, &self.dice);
        if r.is_ok() {
            self.end_turn();
            proof {
                lemma_filled_count_update(before.card, category.slot(), r->Ok_0);
            }
        }
        r
    }

    /// Records 0 in `category` without scoring the dice, and ends the turn.
    /// Refused outside a turn, and for a category filled before.
    pub fn scratch_category(&mut self, category: Category) -> (r: Result<(), GameError>)
        requires
            old(self).wf(),
        ensures
            final(self).wf(),
            scoring_error(old(self)@, category) matches Some(e) ==> r == Err::<(), GameError>(e)
                && final(self)@ == old(self)@,
            scoring_error(old(self)@, category) is None ==> r is Ok
                && final(self)@ == after_scoring(old(self)@, filled_with(old(self)@.card, category, 0)),
    {
        if self.phase != Phase::AwaitingDecision {
            return Err(GameError::InvalidTransition);
        }
        let ghost before = self@;
        proof {
            if before.card[category.slot()] is None {
                self.lemma_turn_bound(category);
            }
        }
        let r = self.score.scratch(category);
        if r.is_ok() {
            self.end_turn();
            proof {
                lemma_filled_count_update(before.card, category.slot(), 0);
            }
        }
        r
    }

    /// The grand total once the game is over; `IncompleteScorecard` before.
    pub fn final_score(&self) -> (r: Result<u16, GameError>)
        requires
            self.wf(),
        ensures
            self@.phase != Phase::GameOver ==> r == Err::<u16, GameError>(GameError::IncompleteScorecard),
            self@.phase == Phase::GameOver ==> r == Ok::<u16, GameError>(grand_total_of(self@.card) as u16),
    {
        self.score.get_total()
    }

    /// The current phase.
    pub fn phase(&self) -> (r: Phase)
        ensures
            r == self@.phase,
    {
        self.phase
    }

    /// Whether every category is filled.
    pub fn is_over(&self) -> (r: bool)
        ensures
            r == (self@.phase == Phase::GameOver),
    {
        self.phase == Phase::GameOver
    }

    /// The turn number, from 1; 14 once the game is over.
    pub fn turn_number(&self) -> (r: u8)
        ensures
            r == self@.turn,
    {
        self.turn
    }

    /// Rolls taken in this turn.
    pub fn rolls_taken(&self) -> (r: u8)
        ensures
            r == self@.rolls,
    {
        self.rolls
    }

    /// Rolls still allowed in this turn; none outside a turn.
    pub fn rolls_remaining(&self) -> (r: u8)
        requires
            self.wf(),
        ensures
            self@.phase == Phase::AwaitingDecision ==> r == MAX_ROLLS - self@.rolls,
            self@.phase != Phase::AwaitingDecision ==> r == 0,
    {
        if self.phase == Phase::AwaitingDecision {
            MAX_ROLLS - self.rolls
        } else {
            0
        }
    }

    /// The dice.
    pub fn dice(&self) -> (r: &Dice)
        ensures
            r@ == self@.dice,
    {
        &self.dice
    }

    /// The card.
    pub fn scorecard(&self) -> (r: &Scorecard)
        ensures
            r@ == self@.card,
    {
        &self.score
    }
}

/// The roll budget: right after `start_turn` two rerolls are allowed, and
/// the next one is refused with `NoRollsRemaining`, so a turn has three
/// rolls. `start_turn` sets the count back to one roll.
pub proof fn lemma_reroll_budget(before: GameView, g0: GameView, g1: GameView, g2: GameView)
    requires
        started(before, g0),
        rerolled(g0, g1),
        rerolled(g1, g2),
    ensures
        reroll_error(g0) is None,
        reroll_error(g1) is None,
        reroll_error(g2) == Some(GameError::NoRollsRemaining),
        g0.rolls == 1,
{
}

/// A die that is locked keeps its face through rerolls of the game.
pub proof fn lemma_locked_die_kept(g0: GameView, g1: GameView, i: int)
    requires
        rerolled(g0, g1),
        0 <= i < g0.dice.len(),
        g0.dice[i].locked,
    ensures
        g1.dice[i] == g0.dice[i],
{
}

/// The game is over exactly when all thirteen categories are filled, which
/// is exactly when the turn number has passed 13.
pub proof fn lemma_game_over(g: GameView)
    requires
        game_wf(g),
    ensures
        g.phase == Phase::GameOver <==> is_complete_card(g.card),
        g.phase == Phase::GameOver <==> g.turn == CATEGORY_COUNT + 1,
        g.turn <= CATEGORY_COUNT + 1,
{
    lemma_filled_count_complete(g.card);
}

} // verus!
