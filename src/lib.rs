//! Core of a payment gateway: a registry of tokens, a gateway fee taken on each
//! payment in the native currency, and an owner who may sweep the balance.
//!
//! The host's reads (the calling account, the attached deposit, the account
//! balance) are handed in as plain values, and value transfers come back as
//! explicit instructions for the host to carry out.

mod account;
mod amount;
mod contract;
mod error;
mod fee;

pub use account::{is_account_char, is_separator, is_valid_account};
pub use amount::{decimal_digits, decimal_value, is_decimal, lemma_prefix_value_le, parse_amount};
pub use contract::{
    lemma_add_then_get, lemma_insufficient_exactly, lemma_lookup_none, lemma_payment_conserves,
    lemma_payment_fee_monotonic, lookup_token, native_marker,
    payment_terms, symbols_unique, Contract, LedgerView, PaymentSuccessful, Settlement, Sweep,
    SweepContract, TokenAdded, Transfer,
};
pub use error::GatewayError;
pub use fee::{compute_fee, fee_spec, lemma_fee_monotonic};
