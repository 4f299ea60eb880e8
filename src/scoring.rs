use vstd::prelude::*;

use crate::consts::{CATEGORY_COUNT, DICE_COUNT};

verus! {

/// The largest score one category can hold: five dice of the largest byte.
pub const MAX_CATEGORY_SCORE: u16 = 1275;

/// Points of a full house.
pub const FULL_HOUSE_SCORE: u16 = 25;

/// Points of a small straight.
pub const SMALL_STRAIGHT_SCORE: u16 = 30;

/// Points of a large straight.
pub const LARGE_STRAIGHT_SCORE: u16 = 40;

/// Points of five of a kind.
pub const YAHTZEE_SCORE: u16 = 50;

/// The thirteen scoring categories, the upper section first.
#[derive(Debug, Clone, Copy, PartialEq, Eq, Structural)]
pub enum Category {
    Ones,
    Twos,
    Threes,
    Fours,
    Fives,
    Sixes,
    ThreeOfAKind,
    FourOfAKind,
    FullHouse,
    SmallStraight,
    LargeStraight,
    Yahtzee,
    Chance,
}

/// How many of `faces` equal `v`.
pub open spec fn count_of(faces: Seq<u8>, v: u8) -> nat
    decreases faces.len(),
{
    if faces.len() == 0 {
        0
    } else {
        count_of(faces.drop_last(), v) + if faces.last() == v { 1nat } else { 0nat }
    }
}

/// The sum of `faces`.
pub open spec fn sum_of(faces: Seq<u8>) -> nat
    decreases faces.len(),
{
    if faces.len() == 0 {
        0
    } else {
        sum_of(faces.drop_last()) + faces.last() as nat
    }
}

/// At least `n` of the dice share a face.
pub open spec fn has_n_of_a_kind(faces: Seq<u8>, n: nat) -> bool {
    exists|i: int| 0 <= i < faces.len() && count_of(faces, faces[i]) >= n
}

/// Some face is shown by exactly `n` dice.
pub open spec fn has_exactly(faces: Seq<u8>, n: nat) -> bool {
    exists|i: int| 0 <= i < faces.len() && count_of(faces, faces[i]) == n
}

/// Three dice of one face and two of another.
pub open spec fn is_full_house(faces: Seq<u8>) -> bool {
    has_exactly(faces, 3) && has_exactly(faces, 2)
}

/// Every face of `lo..lo + n` is shown by some die.
pub open spec fn shows_run(faces: Seq<u8>, lo: u8, n: u8) -> bool {
    forall|v: u8| lo <= v < lo + n ==> #[trigger] faces.contains(v)
}

/// The faces hold one of 1-2-3-4, 2-3-4-5 or 3-4-5-6.
pub open spec fn is_small_straight(faces: Seq<u8>) -> bool {
    shows_run(faces, 1, 4) || shows_run(faces, 2, 4) || shows_run(faces, 3, 4)
}

/// The faces are 1-2-3-4-5 or 2-3-4-5-6; on five dice, showing every face
/// of the run is the same as being exactly the run.
pub open spec fn is_large_straight(faces: Seq<u8>) -> bool {
    shows_run(faces, 1, 5) || shows_run(faces, 2, 5)
}

/// All dice show the same face.
pub open spec fn is_yahtzee(faces: Seq<u8>) -> bool {
    forall|i: int| 0 <= i < faces.len() ==> #[trigger] faces[i] == faces[0]
}

impl Category {
    /// Position of the category on the card.
    pub open spec fn slot(self) -> int {
        match self {
            Category::Ones => 0,
            Category::Twos => 1,
            Category::Threes => 2,
            Category::Fours => 3,
            Category::Fives => 4,
            Category::Sixes => 5,
            Category::ThreeOfAKind => 6,
            Category::FourOfAKind => 7,
            Category::FullHouse => 8,
            Category::SmallStraight => 9,
            Category::LargeStraight => 10,
            Category::Yahtzee => 11,
            Category::Chance => 12,
        }
    }

    /// One of Ones to Sixes.
    pub open spec fn is_upper(self) -> bool {
        self.slot() < 6
    }

    /// The face an upper category counts.
    pub open spec fn upper_face(self) -> u8 {
        (self.slot() + 1) as u8
    }

    /// What `faces` score in this category.
    pub open spec fn score_of(self, faces: Seq<u8>) -> nat {
        match self {
            Category::ThreeOfAKind => if has_n_of_a_kind(faces, 3) { sum_of(faces) } else { 0 },
            Category::FourOfAKind => if has_n_of_a_kind(faces, 4) { sum_of(faces) } else { 0 },
            Category::FullHouse => if is_full_house(faces) { FULL_HOUSE_SCORE as nat } else { 0 },
            Category::SmallStraight => if is_small_straight(faces) { SMALL_STRAIGHT_SCORE as nat } else { 0 },
            Category::LargeStraight => if is_large_straight(faces) { LARGE_STRAIGHT_SCORE as nat } else { 0 },
            Category::Yahtzee => if is_yahtzee(faces) { YAHTZEE_SCORE as nat } else { 0 },
            Category::Chance => sum_of(faces),
            _ => count_of(faces, self.upper_face()) * (self.upper_face() as nat),
        }
    }

    /// Position of the category on the card, from 0.
    pub fn index(&self) -> (r: usize)
        ensures
            r == self.slot(),
            r < CATEGORY_COUNT,
    {
        match self {
            Category::Ones => 0,
            Category::Twos => 1,
            Category::Threes => 2,
            Category::Fours => 3,
            Category::Fives => 4,
            Category::Sixes => 5,
            Category::ThreeOfAKind => 6,
            Category::FourOfAKind => 7,
            Category::FullHouse => 8,
            Category::SmallStraight => 9,
            Category::LargeStraight => 10,
            Category::Yahtzee => 11,
            Category::Chance => 12,
        }
    }

    /// What `faces` score in this category.
    pub fn score(&self, faces: &[u8; 5]) -> (r: u16)
        ensures
            r == self.score_of(faces@),
            r <= MAX_CATEGORY_SCORE,
            self.is_upper() ==> r == count_of(faces@, self.upper_face()) * self.upper_face(),
    {
        proof {
            lemma_count_le_len(faces@, self.upper_face());
            lemma_sum_le(faces@);
        }
        match self {
            Category::ThreeOfAKind => if n_of_a_kind(faces, 3) { sum_faces(faces) } else { 0 },
            Category::FourOfAKind => if n_of_a_kind(faces, 4) { sum_faces(faces) } else { 0 },
            Category::FullHouse => {
                if exactly_n(faces, 3) && exactly_n(faces, 2) { FULL_HOUSE_SCORE } else { 0 }
            },
            Category::SmallStraight => {
                if run_shown(faces, 1, 4) || run_shown(faces, 2, 4) || run_shown(faces, 3, 4) {
                    SMALL_STRAIGHT_SCORE
                } else {
                    0
                }
            },
            Category::LargeStraight => {
                if run_shown(faces, 1, 5) || run_shown(faces, 2, 5) { LARGE_STRAIGHT_SCORE } else { 0 }
            },
            Category::Yahtzee => if all_same(faces) { YAHTZEE_SCORE } else { 0 },
            Category::Chance => sum_faces(faces),
            _ => {
                let face: u8 = (self.index() + 1) as u8;
                let n = count_face(faces, face);
                proof {
                    assert(n * face <= 5 * 255) by (nonlinear_arith)
                        requires n <= 5, face <= 255;
                }
                n as u16 * face as u16
            },
        }
    }
}

/// A count never exceeds the number of dice.
pub proof fn lemma_count_le_len(faces: Seq<u8>, v: u8)
    ensures
        count_of(faces, v) <= faces.len(),
    decreases faces.len(),
{
    if faces.len() > 0 {
        lemma_count_le_len(faces.drop_last(), v);
    }
}

/// A sum never exceeds 255 per die.
pub proof fn lemma_sum_le(faces: Seq<u8>)
    ensures
        sum_of(faces) <= 255 * faces.len(),
    decreases faces.len(),
{
    if faces.len() > 0 {
        lemma_sum_le(faces.drop_last());
    }
}

fn count_face(faces: &[u8; 5], v: u8) -> (r: u8)
    ensures
        r == count_of(faces@, v),
        r <= DICE_COUNT,
{
    let mut r: u8 = 0;
    let mut i: usize = 0;
    while i < DICE_COUNT
        invariant
            i <= DICE_COUNT,
            faces@.len() == DICE_COUNT,
            r == count_of(faces@.take(i as int), v),
            r <= i,
        decreases DICE_COUNT - i,
    {
        assert(faces@.take(i + 1).drop_last() =~= faces@.take(i as int));
        if faces[i] == v {
            r = r + 1;
        }
        i = i + 1;
    }
    assert(faces@.take(DICE_COUNT as int) =~= faces@);
    r
}

fn sum_faces(faces: &[u8; 5]) -> (r: u16)
    ensures
        r == sum_of(faces@),
{
    let mut r: u16 = 0;
    let mut i: usize = 0;
    while i < DICE_COUNT
        invariant
            i <= DICE_COUNT,
            faces@.len() == DICE_COUNT,
            r == sum_of(faces@.take(i as int)),
            r <= 255 * i,
        decreases DICE_COUNT - i,
    {
        assert(faces@.take(i + 1).drop_last() =~= faces@.take(i as int));
        r = r + faces[i] as u16;
        i = i + 1;
    }
    assert(faces@.take(DICE_COUNT as int) =~= faces@);
    r
}

fn n_of_a_kind(faces: &[u8; 5], n: u8) -> (r: bool)
    ensures
        r == has_n_of_a_kind(faces@, n as nat),
{
    let mut i: usize = 0;
    while i < DICE_COUNT
        invariant
            i <= DICE_COUNT,
            faces@.len() == DICE_COUNT,
            forall|j: int| 0 <= j < i ==> count_of(faces@, #[trigger] faces@[j]) < n,
        decreases DICE_COUNT - i,
    {
        if count_face(faces, faces[i]) >= n {
            return true;
        }
        i = i + 1;
    }
    false
}

fn exactly_n(faces: &[u8; 5], n: u8) -> (r: bool)
    ensures
        r == has_exactly(faces@, n as nat),
{
    let mut i: usize = 0;
    while i < DICE_COUNT
        invariant
            i <= DICE_COUNT,
            faces@.len() == DICE_COUNT,
            forall|j: int| 0 <= j < i ==> count_of(faces@, #[trigger] faces@[j]) != n,
        decreases DICE_COUNT - i,
    {
        if count_face(faces, faces[i]) == n {
            return true;
        }
        i = i + 1;
    }
    false
}

fn contains_face(faces: &[u8; 5], v: u8) -> (r: bool)
    ensures
        r == faces@.contains(v),
{
    let mut i: usize = 0;
    while i < DICE_COUNT
        invariant
            i <= DICE_COUNT,
            faces@.len() == DICE_COUNT,
            forall|j: int| 0 <= j < i ==> faces@[j] != v,
        decreases DICE_COUNT - i,
    {
        if faces[i] == v {
            return true;
        }
        i = i + 1;
    }
    false
}

fn run_shown(faces: &[u8; 5], lo: u8, n: u8) -> (r: bool)
    requires
        lo + n <= 255,
    ensures
        r == shows_run(faces@, lo, n),
{
    let mut v: u8 = lo;
    while v < lo + n
        invariant
            lo <= v <= lo + n,
            lo + n <= 255,
            forall|w: u8| lo <= w < v ==> #[trigger] faces@.contains(w),
        decreases lo + n - v,
    {
        if !contains_face(faces, v) {
            return false;
        }
        v = v + 1;
    }
    true
}

fn all_same(faces: &[u8; 5]) -> (r: bool)
    ensures
        r == is_yahtzee(faces@),
{
    let mut i: usize = 0;
    while i < DICE_COUNT
        invariant
            i <= DICE_COUNT,
            faces@.len() == DICE_COUNT,
            forall|j: int| 0 <= j < i ==> #[trigger] faces@[j] == faces@[0],
        decreases DICE_COUNT - i,
    {
        if faces[i] != faces[0] {
            return false;
        }
        i = i + 1;
    }
    true
}

} // verus!
