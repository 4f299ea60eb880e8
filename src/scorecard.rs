use vstd::prelude::*;

use crate::consts::{CATEGORY_COUNT, UPPER_BONUS, UPPER_BONUS_THRESHOLD, UPPER_COUNT};
use crate::dice::{faces_of, Dice};
use crate::error::GameError;
use crate::scoring::{Category, MAX_CATEGORY_SCORE};

verus! {

/// Thirteen categories, each open (`None`) or filled with a score.
pub struct Scorecard {
    scores: Vec<Option<u16>>,
}

impl View for Scorecard {
    type V = Seq<Option<u16>>;

    closed spec fn view(&self) -> Seq<Option<u16>> {
        self.scores@
    }
}

/// The points a slot adds to a total: its score, or 0 while open.
pub open spec fn points(slot: Option<u16>) -> nat {
    match slot {
        Some(v) => v as nat,
        None => 0,
    }
}

/// The sum of the points of `card`.
pub open spec fn total_of(card: Seq<Option<u16>>) -> nat
    decreases card.len(),
{
    if card.len() == 0 {
        0
    } else {
        total_of(card.drop_last()) + points(card.last())
    }
}

/// How many slots of `card` are filled.
pub open spec fn filled_count(card: Seq<Option<u16>>) -> nat
    decreases card.len(),
{
    if card.len() == 0 {
        0
    } else {
        filled_count(card.drop_last()) + if card.last() is Some { 1nat } else { 0nat }
    }
}

/// Every slot of `card` is filled.
pub open spec fn is_complete_card(card: Seq<Option<u16>>) -> bool {
    forall|i: int| 0 <= i < card.len() ==> (#[trigger] card[i]) is Some
}

/// The sum of the upper section, Ones to Sixes.
pub open spec fn upper_total_of(card: Seq<Option<u16>>) -> nat {
    total_of(card.take(UPPER_COUNT as int))
}

/// 35 when the upper section reaches 63, else 0.
pub open spec fn upper_bonus_of(card: Seq<Option<u16>>) -> nat {
    if upper_total_of(card) >= UPPER_BONUS_THRESHOLD { UPPER_BONUS as nat } else { 0 }
}

/// The sum of all thirteen slots, and the upper bonus once.
pub open spec fn grand_total_of(card: Seq<Option<u16>>) -> nat {
    total_of(card) + upper_bonus_of(card)
}

/// `card` with `category` filled with `score`.
pub open spec fn filled_with(card: Seq<Option<u16>>, category: Category, score: u16) -> Seq<Option<u16>> {
    card.update(category.slot(), Some(score))
}

/// Filling an open slot adds one to the number of filled slots.
pub proof fn lemma_filled_count_update(card: Seq<Option<u16>>, i: int, score: u16)
    requires
        0 <= i < card.len(),
        card[i] is None,
    ensures
        filled_count(card.update(i, Some(score))) == filled_count(card) + 1,
    decreases card.len(),
{
    let after = card.update(i, Some(score));
    if i == card.len() - 1 {
        assert(after.drop_last() =~= card.drop_last());
    } else {
        assert(after.drop_last() =~= card.drop_last().update(i, Some(score)));
        lemma_filled_count_update(card.drop_last(), i, score);
    }
}

/// A card is complete exactly when all its slots are counted as filled.
pub proof fn lemma_filled_count_complete(card: Seq<Option<u16>>)
    ensures
        filled_count(card) <= card.len(),
        filled_count(card) == card.len() <==> is_complete_card(card),
    decreases card.len(),
{
    if card.len() > 0 {
        let rest = card.drop_last();
        lemma_filled_count_complete(rest);
        if is_complete_card(card) {
            assert forall|i: int| 0 <= i < rest.len() implies (#[trigger] rest[i]) is Some by {
                assert(rest[i] == card[i]);
            }
        }
        if filled_count(card) == card.len() {
            assert forall|i: int| 0 <= i < card.len() implies (#[trigger] card[i]) is Some by {
                if i < rest.len() {
                    assert(rest[i] == card[i]);
                }
            }
        }
    }
}

impl Scorecard {
    /// Thirteen slots, each holding at most the largest score of a category.
    pub open spec fn wf(&self) -> bool {
        &&& self@.len() == CATEGORY_COUNT
        &&& forall|i: int| 0 <= i < CATEGORY_COUNT ==> points(#[trigger] self@[i]) <= MAX_CATEGORY_SCORE
    }

    /// A card with every category open.
    pub fn new() -> (s: Scorecard)
        ensures
            s.wf(),
            forall|i: int| 0 <= i < CATEGORY_COUNT ==> (#[trigger] s@[i]) is None,
            filled_count(s@) == 0,
    {
        let mut scores: Vec<Option<u16>> = Vec::new();
        let mut n: usize = 0;
        while n < CATEGORY_COUNT
            invariant
                n <= CATEGORY_COUNT,
                scores@.len() == n,
                forall|i: int| 0 <= i < n ==> (#[trigger] scores@[i]) is None,
                filled_count(scores@) == 0,
            decreases CATEGORY_COUNT - n,
        {
            let ghost prev = scores@;
            scores.push(None);
            assert(scores@.drop_last() =~= prev);
            n = n + 1;
        }
        Scorecard { scores }
    }

    /// The score stored for `category`, `None` while it is open.
    pub fn get(&self, category: Category) -> (r: Option<u16>)
        requires
            self.wf(),
        ensures
            r == self@[category.slot()],
    {
        self.scores[category.index()]
    }

    /// Whether `category` has been filled.
    pub fn is_filled(&self, category: Category) -> (r: bool)
        requires
            self.wf(),
        ensures
            r == self@[category.slot()] is Some,
    {
        self.scores[category.index()].is_some()
    }

    /// Whether all thirteen categories have been filled.
    pub fn is_complete(&self) -> (r: bool)
        requires
            self.wf(),
        ensures
            r == is_complete_card(self@),
    {
        let mut i: usize = 0;
        while i < CATEGORY_COUNT
            invariant
                i <= CATEGORY_COUNT,
                self.wf(),
                forall|j: int| 0 <= j < i ==> (#[trigger] self@[j]) is Some,
            decreases CATEGORY_COUNT - i,
        {
            if self.scores[i].is_none() {
                return false;
            }
            i = i + 1;
        }
        true
    }

    fn store(&mut self, category: Category, score: u16) -> (r: Result<u16, GameError>)
        requires
            old(self).wf(),
            score <= MAX_CATEGORY_SCORE,
        ensures
            final(self).wf(),
            old(self)@[category.slot()] is Some ==> r == Err::<u16, GameError>(GameError::CategoryAlreadyFilled)
                && final(self)@ == old(self)@,
            old(self)@[category.slot()] is None ==> r == Ok::<u16, GameError>(score)
                && final(self)@ == filled_with(old(self)@, category, score),
    {
        let i = category.index();
        if self.scores[i].is_some() {
            return Err(GameError::CategoryAlreadyFilled);
        }
        self.scores.set(i, Some(score));
        Ok(score)
    }

    /// Scores `faces` in `category` and stores the score; fails with
    /// `CategoryAlreadyFilled`, and changes nothing, if it was filled before.
    pub fn fill(&mut self, category: Category, faces: &[u8; 5]) -> (r: Result<u16, GameError>)
        requires
            old(self).wf(),
        ensures
            final(self).wf(),
            old(self)@[category.slot()] is Some ==> r == Err::<u16, GameError>(GameError::CategoryAlreadyFilled)
                && final(self)@ == old(self)@,
            old(self)@[category.slot()] is None ==> r == Ok::<u16, GameError>(category.score_of(faces@) as u16)
                && final(self)@ == filled_with(old(self)@, category, category.score_of(faces@) as u16),
    {
        let score = category.score(faces);
        self.store(category, score)
    }

    /// Fills `category` from the faces `dice` show; see `fill`.
    pub fn score_upper(&mut self, category: Category, dice: &Dice) -> (r: Result<u16, GameError>)
        requires
            old(self).wf(),
            dice.wf(),
        ensures
            final(self).wf(),
            old(self)@[category.slot()] is Some ==> r == Err::<u16, GameError>(GameError::CategoryAlreadyFilled)
                && final(self)@ == old(self)@,
            old(self)@[category.slot()] is None ==> r == Ok::<u16, GameError>(category.score_of(faces_of(dice@)) as u16)
                && final(self)@ == filled_with(old(self)@, category, category.score_of(faces_of(dice@)) as u16),
    {
        let faces = dice.faces();
        self.fill(category, &faces)
    }

    /// Stores 0 for `category` without looking at dice; fails with
    /// `CategoryAlreadyFilled`, and changes nothing, if it was filled before.
    pub fn scratch(&mut self, category: Category) -> (r: Result<(), GameError>)
        requires
            old(self).wf(),
        ensures
            final(self).wf(),
            old(self)@[category.slot()] is Some ==> r == Err::<(), GameError>(GameError::CategoryAlreadyFilled)
                && final(self)@ == old(self)@,
            old(self)@[category.slot()] is None ==> r is Ok && final(self)@ == filled_with(old(self)@, category, 0),
    {
        match self.store(category, 0) {
            Ok(_) => Ok(()),
            Err(e) => Err(e),
        }
    }

    fn sum_first(&self, n: usize) -> (r: u16)
        requires
            self.wf(),
            n <= CATEGORY_COUNT,
        ensures
            r == total_of(self@.take(n as int)),
            r <= MAX_CATEGORY_SCORE * n,
    {
        let mut r: u16 = 0;
        let mut i: usize = 0;
        while i < n
            invariant
                i <= n <= CATEGORY_COUNT,
                self.wf(),
                r == total_of(self@.take(i as int)),
                r <= MAX_CATEGORY_SCORE * i,
            decreases n - i,
        {
            assert(self@.take(i + 1).drop_last() =~= self@.take(i as int));
            let v: u16 = match self.scores[i] {
                Some(v) => v,
                None => 0,
            };
            assert(points(self@[i as int]) <= MAX_CATEGORY_SCORE);
            r = r + v;
            i = i + 1;
        }
        r
    }

    /// The sum of the filled upper categories, Ones to Sixes.
    pub fn upper_total(&self) -> (r: u16)
        requires
            self.wf(),
        ensures
            r == upper_total_of(self@),
    {
        self.sum_first(UPPER_COUNT)
    }

    /// 35 when the upper total reaches 63, else 0.
    pub fn upper_bonus(&self) -> (r: u16)
        requires
            self.wf(),
        ensures
            r == upper_bonus_of(self@),
    {
        if self.upper_total() >= UPPER_BONUS_THRESHOLD {
            UPPER_BONUS
        } else {
            0
        }
    }

    /// The grand total: every stored score, and the upper bonus once. Fails
    /// with `IncompleteScorecard` while a category is open.
    pub fn get_total(&self) -> (r: Result<u16, GameError>)
        requires
            self.wf(),
        ensures
            !is_complete_card(self@) ==> r == Err::<u16, GameError>(GameError::IncompleteScorecard),
            is_complete_card(self@) ==> r == Ok::<u16, GameError>(grand_total_of(self@) as u16),
            r is Ok ==> grand_total_of(self@) == r->Ok_0,
    {
        if !self.is_complete() {
            return Err(GameError::IncompleteScorecard);
        }
        let sum = self.sum_first(CATEGORY_COUNT);
        assert(self@.take(CATEGORY_COUNT as int) =~= self@);
        let bonus = self.upper_bonus();
        Ok(sum + bonus)
    }
}

/// Once a category holds a score, it is filled and keeps that score: a later
/// `fill` or `scratch` of it is refused and leaves the card as it is.
pub proof fn lemma_fill_once(card: Seq<Option<u16>>, category: Category, score: u16)
    requires
        card.len() == CATEGORY_COUNT,
    ensures
        filled_with(card, category, score)[category.slot()] == Some(score),
        forall|c: Category| c != category ==> #[trigger] filled_with(card, category, score)[c.slot()] == card[c.slot()],
{
    assert forall|c: Category| c != category implies #[trigger] filled_with(card, category, score)[c.slot()] == card[c.slot()] by {
        assert(c.slot() != category.slot());
    }
}

/// The upper bonus counts once: a complete card whose upper section reaches
/// 63 totals its thirteen scores plus 35; one that stays below totals its
/// scores alone.
pub proof fn lemma_upper_bonus(card: Seq<Option<u16>>)
    ensures
        upper_total_of(card) >= 63 ==> grand_total_of(card) == total_of(card) + 35,
        upper_total_of(card) < 63 ==> grand_total_of(card) == total_of(card),
{
}

} // verus!
