use vstd::prelude::*;
use rand::Rng;

use crate::consts::{MAX_NUMBER, MIN_NUMBER};

verus! {

/// Relies on rand's `rng` and `Rng::random_range`: the thread-local generator
/// draws a value of the inclusive range `lo..=hi`, which is not empty.
#[verifier::external_body]
fn random_in_range(lo: u8, hi: u8) -> (r: u8)
    requires
        lo <= hi,
    ensures
        lo <= r <= hi,
{
    rand::rng().random_range(lo..=hi)
}

/// What a die shows and whether it is held back from rolls.
pub struct DieView {
    pub face: u8,
    pub locked: bool,
}

/// A six-sided die with a lock flag.
#[derive(Debug, Clone, Copy)]
pub struct Die {
    face: u8,
    locked: bool,
}

impl View for Die {
    type V = DieView;

    closed spec fn view(&self) -> DieView {
        DieView { face: self.face, locked: self.locked }
    }
}

impl Die {
    /// The face lies in `1..=6`.
    pub open spec fn wf(&self) -> bool {
        MIN_NUMBER <= self@.face <= MAX_NUMBER
    }

    /// An unlocked die showing the lowest face.
    pub fn new() -> (d: Die)
        ensures
            d.wf(),
            d@ == (DieView { face: MIN_NUMBER, locked: false }),
    {
        Die { face: MIN_NUMBER, locked: false }
    }

    /// The face the die shows.
    pub fn val(&self) -> (r: u8)
        ensures
            r == self@.face,
    {
        self.face
    }

    /// Whether the die is held back from rolls.
    pub fn is_locked(&self) -> (r: bool)
        ensures
            r == self@.locked,
    {
        self.locked
    }

    pub(crate) fn rand_num(&self) -> (r: u8)
        ensures
            MIN_NUMBER <= r <= MAX_NUMBER,
    {
        let val = random_in_range(MIN_NUMBER, MAX_NUMBER);
        val
    }

    /// Shows the drawn face `v`, unless the die is locked.
    pub fn roll_to(&mut self, v: u8)
        requires
            old(self).wf(),
            MIN_NUMBER <= v <= MAX_NUMBER,
        ensures
            final(self).wf(),
            final(self)@ == (if old(self)@.locked { old(self)@ } else { DieView { face: v, locked: false } }),
    {
        if self.locked {
            return;
        }
        self.face = v;
    }

    /// Draws a new face, unless the die is locked.
    pub fn roll(&mut self)
        requires
            old(self).wf(),
        ensures
            final(self).wf(),
            final(self)@.locked == old(self)@.locked,
            old(self)@.locked ==> final(self)@ == old(self)@,
    {
        let val = self.rand_num();
        self.roll_to(val);
    }

    /// Holds the die back from rolls; the face is kept.
    pub fn lock(&mut self) -> (r: &mut Die)
        ensures
            r@ == (DieView { face: old(self)@.face, locked: true }),
            *final(self) == *final(r),
    {
        self.locked = true;
        self
    }

    /// Lets the die take part in rolls again; the face is kept.
    pub fn unlock(&mut self) -> (r: &mut Die)
        ensures
            r@ == (DieView { face: old(self)@.face, locked: false }),
            *final(self) == *final(r),
    {
        self.locked = false;
        self
    }
}

} // verus!
