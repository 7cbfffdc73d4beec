use vstd::prelude::*;

verus! {

/// Why a call of the gateway was refused. A refused call changes nothing and
/// issues no transfer.
#[derive(Debug, Clone, Copy, PartialEq, Eq, Structural)]
pub enum GatewayError {
    /// The caller is not the owner.
    Unauthorized,
    /// The invoice amount is not a decimal number that fits, or it is zero.
    InvalidAmount,
    /// The attached deposit does not cover what the payment needs.
    InsufficientBalance,
    /// The receiver is not a well-formed account id.
    InvalidAddress,
    /// A token of that symbol is already registered.
    TokenAlreadyExists,
    /// An intermediate value does not fit in 128 bits, or the fee exceeds
    /// the amount it is carved out of.
    ArithmeticOverflow,
    /// The fee's denominator is zero.
    DivisionByZero,
    /// The state was already created.
    AlreadyInitialized,
}

} // verus!
