//! Why the engine refuses or fails a request.
use crate::key::{Key, URef};
use vstd::prelude::*;

verus! {

/// Why the engine refuses or fails a request; `E` is what the stores and the code
/// loader report.
#[derive(Debug, PartialEq, Eq)]
pub enum Error<E> {
    /// The deploy is not authorized by the account it names.
    AuthorizationError,
    /// The keys that signed the deploy do not carry the weight a deploy needs.
    DeploymentAuthorizationFailure,
    /// The account does not name the system contract of this name.
    MissingSystemContractError(String),
    /// The proof-of-stake contract lacks one of its purses.
    DeployError,
    /// The account's main purse holds less than the maximal payment.
    InsufficientPaymentError,
    /// A hash or address of the wrong length.
    InvalidHashLength { expected: usize, actual: usize },
    /// The account names no key of this name.
    URefNotFound(String),
    /// A reference used without the rights it needs.
    ForgedReference(URef),
    /// A key of another kind than the one expected.
    TypeMismatch { expected: String, found: String },
    /// No known key matches.
    KeyNotFound(Key),
    /// A failure reported by the store, the code loader or the executor.
    ExecError(E),
}

} // verus!
