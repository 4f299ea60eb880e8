use vstd::prelude::*;

verus! {

/// Why a command of the engine was refused.
#[derive(Debug, Clone, Copy, PartialEq, Eq, Structural)]
pub enum GameError {
    /// The command is not allowed in the current phase.
    InvalidTransition,
    /// All rolls of the turn have been taken.
    NoRollsRemaining,
    /// A die index outside `0..5`.
    OutOfRange,
    /// The category has been scored already.
    CategoryAlreadyFilled,
    /// Not every category has been scored yet.
    IncompleteScorecard,
}

} // verus!
