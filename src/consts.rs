use vstd::prelude::*;

verus! {

/// Lowest face of a die.
pub const MIN_NUMBER: u8 = 1;

/// Highest face of a die.
pub const MAX_NUMBER: u8 = 6;

/// Number of dice in a set.
pub const DICE_COUNT: usize = 5;

/// Number of scoring categories on a card.
pub const CATEGORY_COUNT: usize = 13;

/// Number of categories in the upper section.
pub const UPPER_COUNT: usize = 6;

/// Rolls allowed in one turn, the first included.
pub const MAX_ROLLS: u8 = 3;

/// Upper-section total that earns the bonus.
pub const UPPER_BONUS_THRESHOLD: u16 = 63;

/// Points of the upper-section bonus.
pub const UPPER_BONUS: u16 = 35;

} // verus!
