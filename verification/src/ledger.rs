//! The escrow ledger as a mathematical object, and what each operation makes
//! of it. The executable contract is specified against these definitions.

use vstd::prelude::*;
use crate::address::Address;
use crate::error::Error;
use crate::registry::{Recipient, amounts_positive, distinct_accounts, entitlement, record, total_of};

verus! {

/// The ledger's configuration as `get_state` reports it, with the two running
/// totals of the registry.
#[derive(Clone, Copy, Debug, PartialEq, Eq)]
pub struct State {
    /// The one identity that may record entitlements and trigger a payout.
    pub admin: Address,
    /// The asset in which the escrow is held and paid out.
    pub asset_id: Address,
    /// How many distinct recipients are registered.
    pub recipient_count: u64,
    /// The sum of all recorded entitlements.
    pub total_entitlement: i128,
}

/// What `initialize` fixes, once and for all.
pub struct Config {
    pub admin: Address,
    pub asset_id: Address,
}

impl State {
    /// The part of the state that `initialize` fixed.
    pub open spec fn config(self) -> Config {
        Config { admin: self.admin, asset_id: self.asset_id }
    }
}

/// An instruction to the asset ledger: move `amount` out of the escrow to
/// `to`.
#[derive(Clone, Copy, Debug, PartialEq, Eq)]
pub struct Transfer {
    pub to: Address,
    pub amount: i64,
}

/// An instruction to the asset ledger: move `amount` from `from` into the
/// escrow, drawing on the allowance that `from` granted to the escrow.
#[derive(Clone, Copy, Debug, PartialEq, Eq)]
pub struct Deposit {
    pub from: Address,
    pub amount: i64,
}

/// The state of one escrow: its configuration, if it has been initialized, and
/// the registry in the order of first registration.
pub struct Ledger {
    pub config: Option<Config>,
    pub entries: Seq<Recipient>,
}

impl Ledger {
    /// The ledger that is stored as `state` and `entries`.
    pub open spec fn of(state: Option<State>, entries: Seq<Recipient>) -> Ledger {
        Ledger {
            config: match state {
                Some(state) => Some(state.config()),
                None => None,
            },
            entries,
        }
    }

    /// The ledger before `initialize`.
    pub open spec fn empty() -> Ledger {
        Ledger { config: None, entries: Seq::empty() }
    }

    /// What holds of every ledger that the operations can reach: an account is
    /// registered once, with at least one unit, and only after `initialize`.
    pub open spec fn wf(self) -> bool {
        &&& distinct_accounts(self.entries)
        &&& amounts_positive(self.entries)
        &&& self.config is None ==> self.entries.len() == 0
    }

    /// The number of registered recipients.
    pub open spec fn recipient_count(self) -> nat {
        self.entries.len()
    }

    /// The sum of all recorded entitlements.
    pub open spec fn total_entitlement(self) -> int {
        total_of(self.entries)
    }

    /// The payout instructions for the whole registry, in registry order.
    pub open spec fn transfers(self) -> Seq<Transfer> {
        Seq::new(
            self.entries.len(),
            |i: int| Transfer { to: self.entries[i].account, amount: self.entries[i].amount },
        )
    }

    /// The outcome of `init_done`.
    pub open spec fn init_done(self) -> Result<(), Error> {
        if self.config is Some {
            Ok(())
        } else {
            Err(Error::NotInitialized)
        }
    }

    /// The outcome of `is_admin` for `invoker`.
    pub open spec fn is_admin(self, invoker: Address) -> Result<(), Error> {
        match self.config {
            None => Err(Error::NotInitialized),
            Some(config) => if config.admin == invoker {
                Ok(())
            } else {
                Err(Error::NotAdmin)
            },
        }
    }

    /// The outcome of `initialize`.
    pub open spec fn initialize_outcome(self) -> Result<(), Error> {
        if self.config is Some {
            Err(Error::AlreadyInitialized)
        } else {
            Ok(())
        }
    }

    /// The ledger after `initialize`.
    pub open spec fn initialize(self, admin: Address, asset_id: Address) -> Ledger {
        if self.config is Some {
            self
        } else {
            Ledger { config: Some(Config { admin, asset_id }), entries: Seq::empty() }
        }
    }

    /// The outcome of `get_acc` for `account`.
    pub open spec fn get_acc(self, account: Address) -> Result<i64, Error> {
        if self.config is None {
            Err(Error::NotInitialized)
        } else {
            match entitlement(self.entries, account) {
                Some(amount) => Ok(amount),
                None => Err(Error::UnknownRecipient),
            }
        }
    }

    /// The outcome of `set_acc`: the guards in the order in which they are
    /// applied.
    pub open spec fn set_acc_outcome(self, invoker: Address, amount: i64) -> Result<(), Error> {
        if self.is_admin(invoker) is Err {
            self.is_admin(invoker)
        } else if amount < 1 {
            Err(Error::InvalidAmount)
        } else {
            Ok(())
        }
    }

    /// The ledger after `set_acc`.
    pub open spec fn set_acc(self, invoker: Address, account: Address, amount: i64) -> Ledger {
        if self.set_acc_outcome(invoker, amount) is Ok {
            Ledger { entries: record(self.entries, account, amount), ..self }
        } else {
            self
        }
    }

    /// The outcome of `deposit`.
    pub open spec fn deposit(self, invoker: Address, amount: i64) -> Result<Deposit, Error> {
        if self.config is None {
            Err(Error::NotInitialized)
        } else {
            Ok(Deposit { from: invoker, amount })
        }
    }

    /// The outcome of `payout` when the escrow holds `balance`.
    pub open spec fn payout(self, invoker: Address, balance: i128) -> Result<Seq<Transfer>, Error> {
        if self.is_admin(invoker) is Err {
            Err(self.is_admin(invoker)->Err_0)
        } else if balance < self.total_entitlement() {
            Err(Error::VaultUnderfunded)
        } else {
            Ok(self.transfers())
        }
    }
}

} // verus!
