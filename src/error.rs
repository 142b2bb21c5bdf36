//! The failures of the data layer.
use vstd::prelude::*;

verus! {

/// The rules that an experience must satisfy within its subject's timeline.
#[derive(Clone, Copy, Debug, PartialEq, Eq, Structural)]
pub enum Rule {
    /// The previous experienced event must reference the subject's entity.
    BelongsToOneOfPrevious,
    /// The previous experienced event must not be terminal.
    KindFollowsPrevious,
    /// A terminal experience must not be followed by another one.
    KindPrecedesNext,
    /// No other event of the timeline may overlap the experienced one.
    NotSimultaneous,
}

/// A typed failure of the data layer.
#[derive(Clone, Copy, Debug, PartialEq, Eq, Structural)]
pub enum Error {
    /// The looked up record does not exist.
    NotFound,
    /// A record with the same identifier exists already.
    AlreadyExists,
    /// The rule `rule` is violated by the experienced event `event`.
    ConstraintViolation { rule: Rule, event: u64 },
}

} // verus!
