//! The errors the engine reports. Every failure is returned to the caller
//! with the state unchanged; none is fatal.

use vstd::prelude::*;

verus! {

/// Why a candidate meld or layoff was rejected.
#[derive(Clone, Copy, Debug, PartialEq, Eq, Structural)]
pub enum MeldError {
    /// An index points past the end of the hand.
    IndexOutOfBounds,
    /// The same hand position was selected twice.
    RepeatedIndex,
    /// Fewer than three cards were selected.
    TooFewCards,
    /// Every selected card is of the wildcard rank; a meld needs a
    /// non-wildcard card to anchor it.
    WildcardsOnly,
    /// The selected cards do not all share one rank (or the wildcard rank).
    NotASet,
    /// The selected cards are not same-suit and rank-contiguous under the
    /// deck's ordering, even with the selected wildcards filling gaps.
    NotARun,
    /// The card does not fit the meld it was laid off against.
    CannotLayoff,
}

/// A failure of an engine action. The variants distinguish capacity, index,
/// rule-violation and phase-sequencing failures; see [`RummyError::kind`].
#[derive(Clone, Copy, Debug, PartialEq, Eq, Structural)]
pub enum RummyError {
    /// The action is not legal in the current game phase.
    WrongPhase,
    /// The current player has already discarded this turn.
    AlreadyDiscarded,
    /// The game has no players to act.
    NoPlayers,
    /// A player index is out of range.
    PlayerOutOfBounds,
    /// A hand-card index is out of range.
    CardOutOfBounds,
    /// A meld index is out of range.
    MeldOutOfBounds,
    /// The targeted player is not active in this round.
    TargetPlayerInactive,
    /// A player with this id already sits at the table.
    DuplicatePlayerId,
    /// The current player cannot quit through `quit_player`; use
    /// `quit_current_player`.
    CannotQuitCurrentPlayer,
    /// A draw asked for more cards than the pile holds.
    NotEnoughCards,
    /// The discard pile is empty.
    EmptyDiscardPile,
    /// No card of the named rank and suit is in the stock.
    CardNotInStock,
    /// The selected cards form neither a set nor a run; both rejection
    /// reasons are reported.
    Meld { set_error: MeldError, run_error: MeldError },
    /// The layoff was rejected for the carried reason.
    Layoff(MeldError),
}

/// The kinds of the error taxonomy: every error an action returns falls under
/// exactly one of these.
#[derive(Clone, Copy, Debug, PartialEq, Eq, Structural)]
pub enum ErrorKind {
    /// A draw amount exceeded what a pile holds; recoverable by drawing less
    /// or replenishing first.
    Capacity,
    /// An out-of-range card, player or meld index; state is left unchanged.
    Index,
    /// A proposed meld, layoff or similar does not satisfy the game rules;
    /// the originating collections are left untouched.
    RuleViolation,
    /// An action was invoked in a phase that does not permit it, or twice in
    /// a phase that permits it once.
    PhaseSequencing,
}

/// The taxonomy kind of a meld rejection.
pub open spec fn meld_error_kind(e: MeldError) -> ErrorKind {
    match e {
        MeldError::IndexOutOfBounds => ErrorKind::Index,
        MeldError::RepeatedIndex => ErrorKind::Index,
        _ => ErrorKind::RuleViolation,
    }
}

/// The taxonomy kind of an engine error.
pub open spec fn error_kind(e: RummyError) -> ErrorKind {
    match e {
        RummyError::WrongPhase => ErrorKind::PhaseSequencing,
        RummyError::AlreadyDiscarded => ErrorKind::PhaseSequencing,
        RummyError::NoPlayers => ErrorKind::Index,
        RummyError::PlayerOutOfBounds => ErrorKind::Index,
        RummyError::CardOutOfBounds => ErrorKind::Index,
        RummyError::MeldOutOfBounds => ErrorKind::Index,
        RummyError::TargetPlayerInactive => ErrorKind::RuleViolation,
        RummyError::DuplicatePlayerId => ErrorKind::RuleViolation,
        RummyError::CannotQuitCurrentPlayer => ErrorKind::RuleViolation,
        RummyError::NotEnoughCards => ErrorKind::Capacity,
        RummyError::EmptyDiscardPile => ErrorKind::Capacity,
        RummyError::CardNotInStock => ErrorKind::Capacity,
        RummyError::Meld { set_error, run_error } => meld_error_kind(run_error),
        RummyError::Layoff(e) => meld_error_kind(e),
    }
}

impl MeldError {
    /// Which kind of the error taxonomy this rejection falls under.
    pub fn kind(&self) -> (k: ErrorKind)
        ensures
            k == meld_error_kind(*self),
    {
        match self {
            MeldError::IndexOutOfBounds => ErrorKind::Index,
            MeldError::RepeatedIndex => ErrorKind::Index,
            _ => ErrorKind::RuleViolation,
        }
    }
}

impl RummyError {
    /// Which kind of the error taxonomy this error falls under.
    pub fn kind(&self) -> (k: ErrorKind)
        ensures
            k == error_kind(*self),
    {
        match self {
            RummyError::WrongPhase => ErrorKind::PhaseSequencing,
            RummyError::AlreadyDiscarded => ErrorKind::PhaseSequencing,
            RummyError::NoPlayers => ErrorKind::Index,
            RummyError::PlayerOutOfBounds => ErrorKind::Index,
            RummyError::CardOutOfBounds => ErrorKind::Index,
            RummyError::MeldOutOfBounds => ErrorKind::Index,
            RummyError::TargetPlayerInactive => ErrorKind::RuleViolation,
            RummyError::DuplicatePlayerId => ErrorKind::RuleViolation,
            RummyError::CannotQuitCurrentPlayer => ErrorKind::RuleViolation,
            RummyError::NotEnoughCards => ErrorKind::Capacity,
            RummyError::EmptyDiscardPile => ErrorKind::Capacity,
            RummyError::CardNotInStock => ErrorKind::Capacity,
            RummyError::Meld { set_error: _, run_error } => run_error.kind(),
            RummyError::Layoff(e) => e.kind(),
        }
    }
}

} // verus!
