use vstd::prelude::*;

verus! {

/// Failures of checked arithmetic in a settlement or a balance update.
#[derive(Debug, Clone, Copy, PartialEq, Eq, Structural)]
pub enum ArithmeticError {
    Overflow,
    Underflow,
}

/// An input that lies outside the range of basis points, `0..=10000`.
#[derive(Debug, Clone, Copy, PartialEq, Eq, Structural)]
pub enum ValidationError {
    CommissionBps,
    ProtocolFeeBps,
}

/// Every way an operation of the library can be rejected.
///
/// A rejected operation never changes the store.
#[derive(Debug, Clone, Copy, PartialEq, Eq, Structural)]
pub enum ContractError {
    /// The caller is not the identity that the operation is reserved for.
    Unauthorized,
    /// A rate was given outside `0..=10000` basis points.
    Validation(ValidationError),
    /// An update would leave everything as it already is.
    NothingToUpdate,
    /// The protected entity of a deposit holds no subscription.
    NotSubscribed,
    /// A checked computation did not fit or went below zero.
    Arithmetic(ArithmeticError),
    /// A reply arrived for an id that no pending continuation carries.
    UnknownReplyId { id: u64 },
    /// A successful reply did not carry a usable module address.
    ContinuationParseError { id: u64 },
    /// A withdrawal resolved to an amount of zero.
    NothingToWithdraw,
    /// A deposit arrived before the token-issuing module was linked.
    ModuleNotLinked,
}

} // verus!
