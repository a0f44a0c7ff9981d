//! The ways in which a ledger operation is rejected.

use vstd::prelude::*;

verus! {

/// Why an operation was rejected. A rejected operation leaves the ledger as it
/// was.
#[derive(Clone, Copy, Debug, PartialEq, Eq, Structural)]
pub enum Error {
    /// `initialize` was called on a ledger that already has its configuration.
    AlreadyInitialized,
    /// The escrow holds less than the total of all entitlements.
    VaultUnderfunded,
    /// An entitlement below one unit was offered.
    InvalidAmount,
    /// The ledger has not been initialized yet.
    NotInitialized,
    /// The caller is not the administrator.
    NotAdmin,
    /// No entitlement is recorded for the account.
    UnknownRecipient,
}

impl Error {
    /// The number under which a host reports this error.
    pub open spec fn spec_code(self) -> u32 {
        match self {
            Error::AlreadyInitialized => 0,
            Error::VaultUnderfunded => 1,
            Error::InvalidAmount => 2,
            Error::NotInitialized => 3,
            Error::NotAdmin => 4,
            Error::UnknownRecipient => 5,
        }
    }

    /// The number under which a host reports this error.
    #[verifier::when_used_as_spec(spec_code)]
    pub fn code(self) -> (code: u32)
        ensures
            code == self.spec_code(),
    {
        match self {
            Error::AlreadyInitialized => 0,
            Error::VaultUnderfunded => 1,
            Error::InvalidAmount => 2,
            Error::NotInitialized => 3,
            Error::NotAdmin => 4,
            Error::UnknownRecipient => 5,
        }
    }
}

} // verus!
