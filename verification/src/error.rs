//! The failures that the table and the ledger report to their callers.

use vstd::prelude::*;

verus! {

/// The four families that every failure falls into.
#[derive(Clone, Copy, PartialEq, Eq, Structural, Debug)]
pub enum ErrorKind {
    /// The request itself is not acceptable in the current state.
    Validation,
    /// The caller is not the identity that may make the request.
    Authorization,
    /// Something that had to be looked up is not there.
    NotFound,
    /// The stored state contradicts itself; nothing can safely go on.
    InvariantViolation,
}

/// A failed call. No failed call changes any state.
#[derive(Clone, Copy, PartialEq, Eq, Structural, Debug)]
pub enum ContractError {
    /// The seat number is not one of the six seats.
    NoSuchSeat,
    /// The seat already has an occupant.
    SeatTaken { seat: u8 },
    /// The seat has no occupant.
    SeatEmpty { seat: u8 },
    /// The identity already sits at the table.
    AlreadySeated,
    /// A player may leave only before bidding in a round.
    StandWhilePlaying,
    /// It is not this seat's turn.
    NotPlayersTurn,
    /// A bid is only the first action of a turn.
    AlreadyBid,
    /// Hitting and holding come after the bid.
    BidFirst,
    /// A bid must stake something.
    ZeroBid,
    /// The funds that came with the bid are not the amount bid.
    WrongFunds { requested: u128 },
    /// The bid is more than the pool could cover; the limit is given.
    BidTooHigh { max_bid_allowed: u128 },
    /// The stake would grow beyond what a payout can be computed for.
    StakeTooLarge,
    /// The hand's raw total is already 21 or more.
    CannotHit { total: u8 },
    /// The deck has too few undealt cards left for the draw.
    DeckExhausted,
    /// Only the player whose turn it is can be removed for idling.
    KickNotCurrent,
    /// The player has not idled long enough to be removed.
    TooEarlyToKick,
    /// The pool holds less than the amount asked for.
    InsufficientBankBalance { asked: u128, balance: u128 },
    /// The ledger does not know its table yet.
    NotInitialized,
    /// The identity given is not the one that occupies the seat.
    WrongAddress,
    /// The caller does not occupy the seat it wants to leave.
    NotSeatedHere { seat: u8 },
    /// The caller is not the owner.
    Unauthorized,
    /// Only the table may ask the ledger to pay.
    OnlyGame,
    /// No seat holds the player looked for.
    PlayerNotFound,
    /// A part of the stored state is missing.
    MissingState,
    /// A change of phase or of player state that the rules do not have.
    UnexpectedTransition,
    /// A player who should hold cards holds none.
    MissingHand,
    /// The round counter cannot be advanced any further.
    RoundSecretExhausted,
    /// The request is not one of the owner's requests.
    NotAdministrative,
    /// The stored state does not satisfy the table's invariant.
    CorruptState,
}

impl ContractError {
    /// The family of the failure.
    pub open spec fn kind_spec(self) -> ErrorKind {
        match self {
            ContractError::WrongAddress => ErrorKind::Authorization,
            ContractError::NotSeatedHere { .. } => ErrorKind::Authorization,
            ContractError::Unauthorized => ErrorKind::Authorization,
            ContractError::OnlyGame => ErrorKind::Authorization,
            ContractError::PlayerNotFound => ErrorKind::NotFound,
            ContractError::MissingState => ErrorKind::NotFound,
            ContractError::UnexpectedTransition => ErrorKind::InvariantViolation,
            ContractError::MissingHand => ErrorKind::InvariantViolation,
            ContractError::RoundSecretExhausted => ErrorKind::InvariantViolation,
            ContractError::NotAdministrative => ErrorKind::InvariantViolation,
            ContractError::CorruptState => ErrorKind::InvariantViolation,
            _ => ErrorKind::Validation,
        }
    }

    /// The family of the failure.
    pub fn kind(&self) -> (k: ErrorKind)
        ensures
            k == self.kind_spec(),
    {
        match self {
            ContractError::WrongAddress => ErrorKind::Authorization,
            ContractError::NotSeatedHere { .. } => ErrorKind::Authorization,
            ContractError::Unauthorized => ErrorKind::Authorization,
            ContractError::OnlyGame => ErrorKind::Authorization,
            ContractError::PlayerNotFound => ErrorKind::NotFound,
            ContractError::MissingState => ErrorKind::NotFound,
            ContractError::UnexpectedTransition => ErrorKind::InvariantViolation,
            ContractError::MissingHand => ErrorKind::InvariantViolation,
            ContractError::RoundSecretExhausted => ErrorKind::InvariantViolation,
            ContractError::NotAdministrative => ErrorKind::InvariantViolation,
            ContractError::CorruptState => ErrorKind::InvariantViolation,
            _ => ErrorKind::Validation,
        }
    }
}

} // verus!
