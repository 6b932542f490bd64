use vstd::prelude::*;

verus! {

/// Every way an operation of the coordinator can be refused. A refused
/// operation leaves the state exactly as it was.
#[derive(Clone, Copy, Debug, PartialEq, Eq, Structural)]
pub enum EscrowError {
    /// No escrow is stored under the given hashlock.
    NotFound,
    /// An escrow is already stored under the given hashlock.
    HashlockCollision,
    /// The escrow has already been claimed or cancelled.
    AlreadyClaimed,
    /// The current time does not admit the requested action.
    WrongPhase,
    /// The timelock delays violate the ordering rules.
    InvalidTimelocks,
    /// The account does not have enough available balance, or the amount of
    /// an escrow or a withdrawal is zero.
    InsufficientFunds,
    /// The signature does not verify against the order and key.
    BadSig,
    /// The order's nonce has been consumed before.
    NonceReused,
    /// The public key is not registered for the maker.
    KeyNotRegistered,
    /// The signature or the public key has the wrong encoding or length.
    BadSigFormat,
    /// No native safety deposit was attached.
    MissingSafetyDeposit,
    /// The message sent along with a token transfer could not be understood.
    BadPayload,
    /// The revealed secret is not valid base64.
    BadSecretFormat,
    /// A balance would exceed the largest representable amount.
    AmountOverflow,
    /// A settlement callback arrived for an escrow with no settlement in flight.
    NoSettlementPending,
    /// A stored state breaks the coordinator's invariants.
    InconsistentState,
}

} // verus!
