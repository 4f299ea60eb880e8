use vstd::prelude::*;

use crate::consts::{DICE_COUNT, MAX_NUMBER, MIN_NUMBER};
use crate::die::{Die, DieView};
use crate::error::GameError;

verus! {

/// Five dice, rolled together and locked one by one.
pub struct Dice {
    dice: Vec<Die>,
}

impl View for Dice {
    type V = Seq<DieView>;

    closed spec fn view(&self) -> Seq<DieView> {
        self.dice@.map_values(|d: Die| d@)
    }
}

/// The faces of a sequence of dice, in order.
pub open spec fn faces_of(dice: Seq<DieView>) -> Seq<u8> {
    dice.map_values(|d: DieView| d.face)
}

/// A roll of `before` may have given `after`: locked dice are untouched,
/// the others show some face in `1..=6`, and no lock changes.
pub open spec fn rolled(before: Seq<DieView>, after: Seq<DieView>) -> bool {
    &&& after.len() == before.len()
    &&& forall|i: int| 0 <= i < before.len() ==> #[trigger] after[i].locked == before[i].locked
    &&& forall|i: int| 0 <= i < before.len() && before[i].locked ==> #[trigger] after[i] == before[i]
    &&& forall|i: int| 0 <= i < before.len() ==> MIN_NUMBER <= #[trigger] after[i].face <= MAX_NUMBER
}

/// Five faces, each in `1..=6`.
pub open spec fn valid_draws(draws: Seq<u8>) -> bool {
    &&& draws.len() == DICE_COUNT
    &&& forall|i: int| 0 <= i < DICE_COUNT ==> MIN_NUMBER <= #[trigger] draws[i] <= MAX_NUMBER
}

/// `dice` after a roll that drew `draws[i]` for die `i`: a locked die is
/// unchanged, an unlocked one shows its draw.
pub open spec fn rolled_to(dice: Seq<DieView>, draws: Seq<u8>) -> Seq<DieView> {
    dice.map(|i: int, d: DieView| if d.locked { d } else { DieView { face: draws[i], locked: false } })
}

/// Whatever five faces were drawn, the outcome is a roll of well-formed dice.
pub proof fn lemma_rolled_to(dice: Seq<DieView>, draws: Seq<u8>)
    requires
        dice.len() == DICE_COUNT,
        forall|i: int| 0 <= i < DICE_COUNT ==> MIN_NUMBER <= #[trigger] dice[i].face <= MAX_NUMBER,
        valid_draws(draws),
    ensures
        rolled(dice, rolled_to(dice, draws)),
{
    let after = rolled_to(dice, draws);
    assert forall|i: int| 0 <= i < dice.len() implies MIN_NUMBER <= #[trigger] after[i].face <= MAX_NUMBER by {
        assert(MIN_NUMBER <= dice[i].face <= MAX_NUMBER);
        assert(MIN_NUMBER <= draws[i] <= MAX_NUMBER);
    }
}

/// `after` is `before` with the lock of die `i` set to `locked`.
pub open spec fn with_lock(before: Seq<DieView>, i: int, locked: bool) -> Seq<DieView> {
    before.update(i, DieView { face: before[i].face, locked })
}

/// `dice` with every lock released and every face kept.
pub open spec fn unlocked(dice: Seq<DieView>) -> Seq<DieView> {
    dice.map_values(|d: DieView| DieView { face: d.face, locked: false })
}

impl Dice {
    /// Five dice, each showing a face in `1..=6`.
    pub open spec fn wf(&self) -> bool {
        &&& self@.len() == DICE_COUNT
        &&& forall|i: int| 0 <= i < self@.len() ==> MIN_NUMBER <= #[trigger] self@[i].face <= MAX_NUMBER
    }

    proof fn lemma_view_index(&self, i: int)
        requires
            0 <= i < self.dice@.len(),
        ensures
            self@[i] == self.dice@[i]@,
            self@.len() == self.dice@.len(),
    {
    }

    /// Five unlocked dice showing the lowest face.
    pub fn new() -> (d: Dice)
        ensures
            d.wf(),
            forall|i: int| 0 <= i < DICE_COUNT ==> #[trigger] d@[i] == (DieView { face: MIN_NUMBER, locked: false }),
    {
        let mut dice: Vec<Die> = Vec::new();
        let mut n: usize = 0;
        while n < DICE_COUNT
            invariant
                n <= DICE_COUNT,
                dice@.len() == n,
                forall|i: int| 0 <= i < n ==> #[trigger] dice@[i]@ == (DieView { face: MIN_NUMBER, locked: false }),
            decreases DICE_COUNT - n,
        {
            dice.push(Die::new());
            n = n + 1;
        }
        let d = Dice { dice };
        assert forall|i: int| 0 <= i < DICE_COUNT implies #[trigger] d@[i] == (DieView { face: MIN_NUMBER, locked: false }) by {
            d.lemma_view_index(i);
        }
        d
    }

    /// Sets every unlocked die to its draw, die `i` to `draws[i]`; locked
    /// dice keep their face.
    pub fn roll_to(&mut self, draws: [u8; 5])
        requires
            old(self).wf(),
            valid_draws(draws@),
        ensures
            final(self).wf(),
            final(self)@ == rolled_to(old(self)@, draws@),
    {
        let ghost start = self@;
        let mut n: usize = 0;
        while n < DICE_COUNT
            invariant
                n <= DICE_COUNT,
                self.dice@.len() == DICE_COUNT,
                start.len() == DICE_COUNT,
                valid_draws(draws@),
                forall|i: int| 0 <= i < n ==> #[trigger] self@[i] == rolled_to(start, draws@)[i],
                forall|i: int| n <= i < DICE_COUNT ==> #[trigger] self@[i] == start[i],
                forall|i: int| 0 <= i < DICE_COUNT ==> MIN_NUMBER <= #[trigger] start[i].face <= MAX_NUMBER,
            decreases DICE_COUNT - n,
        {
            let ghost prev = self@;
            let mut d = self.dice[n];
            proof { self.lemma_view_index(n as int); }
            d.roll_to(draws[n]);
            self.dice.set(n, d);
            assert(self@ =~= prev.update(n as int, d@));
            n = n + 1;
        }
        assert(self@ =~= rolled_to(start, draws@));
    }

    /// Draws five faces, one for each die, at random.
    pub(crate) fn draw(&self) -> (r: [u8; 5])
        requires
            self.wf(),
        ensures
            valid_draws(r@),
    {
        let mut r: [u8; 5] = [MIN_NUMBER; 5];
        let mut n: usize = 0;
        while n < DICE_COUNT
            invariant
                n <= DICE_COUNT,
                self.wf(),
                r@.len() == DICE_COUNT,
                forall|i: int| 0 <= i < DICE_COUNT ==> MIN_NUMBER <= #[trigger] r@[i] <= MAX_NUMBER,
            decreases DICE_COUNT - n,
        {
            proof { self.lemma_view_index(n as int); }
            r[n] = self.dice[n].rand_num();
            n = n + 1;
        }
        r
    }

    /// Rolls every unlocked die; locked dice keep their face.
    pub fn roll(&mut self)
        requires
            old(self).wf(),
        ensures
            final(self).wf(),
            rolled(old(self)@, final(self)@),
    {
        let draws = self.draw();
        proof { lemma_rolled_to(self@, draws@); }
        self.roll_to(draws);
    }

    /// The die at `index`; the dice are numbered from 0.
    pub fn get(&self, index: usize) -> (r: Result<Die, GameError>)
        requires
            self.wf(),
        ensures
            index < DICE_COUNT ==> (r matches Ok(d) && d@ == self@[index as int]),
            index >= DICE_COUNT ==> r == Err::<Die, GameError>(GameError::OutOfRange),
    {
        if index >= DICE_COUNT {
            return Err(GameError::OutOfRange);
        }
        proof { self.lemma_view_index(index as int); }
        Ok(self.dice[index])
    }

    /// Sets the lock of die `index`; fails with `OutOfRange` unless `index < 5`.
    fn set_lock(&mut self, index: usize, locked: bool) -> (r: Result<(), GameError>)
        requires
            old(self).wf(),
        ensures
            final(self).wf(),
            index < DICE_COUNT ==> r is Ok && final(self)@ == with_lock(old(self)@, index as int, locked),
            index >= DICE_COUNT ==> r == Err::<(), GameError>(GameError::OutOfRange) && final(self)@ == old(self)@,
    {
        if index >= DICE_COUNT {
            return Err(GameError::OutOfRange);
        }
        proof { self.lemma_view_index(index as int); }
        let mut d = self.dice[index];
        if locked {
            d.lock();
        } else {
            d.unlock();
        }
        self.dice.set(index, d);
        assert(self@ =~= with_lock(old(self)@, index as int, locked));
        Ok(())
    }

    /// Locks die `index`; fails with `OutOfRange` unless `index < 5`.
    pub fn lock(&mut self, index: usize) -> (r: Result<(), GameError>)
        requires
            old(self).wf(),
        ensures
            final(self).wf(),
            index < DICE_COUNT ==> r is Ok && final(self)@ == with_lock(old(self)@, index as int, true),
            index >= DICE_COUNT ==> r == Err::<(), GameError>(GameError::OutOfRange) && final(self)@ == old(self)@,
    {
        self.set_lock(index, true)
    }

    /// Unlocks die `index`; fails with `OutOfRange` unless `index < 5`.
    pub fn unlock(&mut self, index: usize) -> (r: Result<(), GameError>)
        requires
            old(self).wf(),
        ensures
            final(self).wf(),
            index < DICE_COUNT ==> r is Ok && final(self)@ == with_lock(old(self)@, index as int, false),
            index >= DICE_COUNT ==> r == Err::<(), GameError>(GameError::OutOfRange) && final(self)@ == old(self)@,
    {
        self.set_lock(index, false)
    }

    /// Unlocks every die; the faces are kept.
    pub fn unlock_all(&mut self)
        requires
            old(self).wf(),
        ensures
            final(self).wf(),
            final(self)@ == unlocked(old(self)@),
    {
        let ghost start = self@;
        let mut n: usize = 0;
        while n < DICE_COUNT
            invariant
                n <= DICE_COUNT,
                self.wf(),
                start.len() == DICE_COUNT,
                forall|i: int| 0 <= i < n ==> #[trigger] self@[i] == (DieView { face: start[i].face, locked: false }),
                forall|i: int| n <= i < DICE_COUNT ==> #[trigger] self@[i] == start[i],
            decreases DICE_COUNT - n,
        {
            let _ = self.set_lock(n, false);
            n = n + 1;
        }
        assert(self@ =~= unlocked(start));
    }

    /// The faces the five dice show, in order.
    pub fn faces(&self) -> (r: [u8; 5])
        requires
            self.wf(),
        ensures
            r@ == faces_of(self@),
    {
        let mut r: [u8; 5] = [MIN_NUMBER; 5];
        let mut n: usize = 0;
        while n < DICE_COUNT
            invariant
                n <= DICE_COUNT,
                self.wf(),
                r@.len() == DICE_COUNT,
                forall|i: int| 0 <= i < n ==> r@[i] == #[trigger] self@[i].face,
            decreases DICE_COUNT - n,
        {
            proof { self.lemma_view_index(n as int); }
            r[n] = self.dice[n].val();
            n = n + 1;
        }
        assert(r@ =~= faces_of(self@));
        r
    }

    /// The five dice, in order.
    pub fn iter(&self) -> (r: Vec<&Die>)
        requires
            self.wf(),
        ensures
            r@.len() == DICE_COUNT,
            forall|i: int| 0 <= i < DICE_COUNT ==> (#[trigger] r@[i])@ == self@[i],
    {
        let mut r: Vec<&Die> = Vec::new();
        let mut n: usize = 0;
        while n < DICE_COUNT
            invariant
                n <= DICE_COUNT,
                self.wf(),
                r@.len() == n,
                forall|i: int| 0 <= i < n ==> (#[trigger] r@[i])@ == self@[i],
            decreases DICE_COUNT - n,
        {
            proof { self.lemma_view_index(n as int); }
            r.push(&self.dice[n]);
            n = n + 1;
        }
        r
    }
}

} // verus!
