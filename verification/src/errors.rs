use vstd::prelude::*;

verus! {

/// The failure taxonomy of the protocol. Every operation either completes in
/// full or returns one of these and leaves every piece of state it was handed
/// unchanged.
#[derive(Clone, Copy, Debug, PartialEq, Eq, Structural)]
pub enum ChannelError {
    /// A precondition of an operation did not hold: wrong decimals, nonzero
    /// supply, wrong owner, nonzero existing balance, a wrong bump
    /// discriminant, or a mismatched attribution binding.
    PreconditionFailed,
    /// An attribution or metadata record already occupies the target address:
    /// a duplicate channel name or a double-initialization attempt.
    AlreadyExists,
    /// A delegated-authority proof was rejected: the presented authority does
    /// not match the one registered for the counter or record.
    AuthorityMismatch,
    /// An update was attempted on a metadata record created non-mutable.
    Immutable,
    /// An issuance was attempted on a counter whose decimal precision is not
    /// zero; this protocol only issues whole, non-divisible units.
    SupplyPolicyViolation,
    /// No valid derived address exists for the given seed material
    /// (practically unreachable).
    AddressExhausted,
    /// Issuance authority was revoked twice: the second call finds no
    /// authority left to clear.
    NoAuthorityToRevoke,
}

} // verus!
