//! The executable escrow contract.

use vstd::prelude::*;
use crate::address::Address;
use crate::error::Error;
use crate::ledger::{Deposit, Ledger, State, Transfer};
use crate::registry::{Recipient, accounts_of, amounts_positive, distinct_accounts, lemma_index_of_unique, lemma_total_bounds, lemma_total_push, lemma_total_update, registered, total_of};

verus! {

/// The operations of a mass-payout escrow. Every operation that takes an
/// `invoker` trusts that the host has authenticated that identity.
pub trait MassPayoutContractTrait: Sized {
    /// The ledger that this contract holds.
    spec fn view(&self) -> Ledger;

    /// The contract's stored totals agree with its registry.
    spec fn wf(&self) -> bool;

    /// A well-formed contract holds a well-formed ledger.
    proof fn lemma_wf(&self)
        requires
            self.wf(),
        ensures
            self@.wf(),
    ;

    /// Sets the administrator and the asset, once. A second call is rejected
    /// and changes nothing.
    fn initialize(&mut self, admin: Address, asset_id: Address) -> (r: Result<(), Error>)
        requires
            old(self).wf(),
        ensures
            final(self).wf(),
            r == old(self)@.initialize_outcome(),
            final(self)@ == old(self)@.initialize(admin, asset_id),
    ;

    /// Succeeds once `initialize` has been called.
    fn init_done(&self) -> (r: Result<(), Error>)
        ensures
            r == self@.init_done(),
    ;

    /// The configuration and the running totals.
    fn get_state(&self) -> (r: Result<State, Error>)
        requires
            self.wf(),
        ensures
            match r {
                Ok(state) => {
                    &&& self@.config == Some(state.config())
                    &&& state.recipient_count == self@.recipient_count()
                    &&& state.total_entitlement == self@.total_entitlement()
                },
                Err(e) => self@.config is None && e == Error::NotInitialized,
            },
    ;

    /// The amount that `account` is to receive in a payout.
    fn get_acc(&self, account: Address) -> (r: Result<i64, Error>)
        requires
            self.wf(),
        ensures
            r == self@.get_acc(account),
    ;

    /// Records that `account` is owed `amount`. Only the administrator may do
    /// so, and only for at least one unit. An account that is already
    /// registered keeps its place and gets the new amount.
    fn set_acc(&mut self, invoker: Address, account: Address, amount: i64) -> (r: Result<(), Error>)
        requires
            old(self).wf(),
        ensures
            final(self).wf(),
            r == old(self)@.set_acc_outcome(invoker, amount),
            final(self)@ == old(self)@.set_acc(invoker, account, amount),
    ;

    /// Asks for `amount` to be moved from `invoker` into the escrow. The
    /// ledger itself does not change.
    fn deposit(&self, invoker: Address, amount: i64) -> (r: Result<Deposit, Error>)
        ensures
            r == self@.deposit(invoker, amount),
    ;

    /// Decides a payout against the escrow's `balance`: either every
    /// recipient's transfer, in registry order, or none at all.
    fn payout(&self, invoker: Address, balance: i128) -> (r: Result<Vec<Transfer>, Error>)
        requires
            self.wf(),
        ensures
            match r {
                Ok(transfers) => self@.payout(invoker, balance) == Ok::<Seq<Transfer>, Error>(
                    transfers@,
                ),
                Err(e) => self@.payout(invoker, balance) == Err::<Seq<Transfer>, Error>(e),
            },
    ;
}

/// One escrow: its configuration, once initialized, and its registry.
pub struct MassPayoutContract {
    state: Option<State>,
    entries: Vec<Recipient>,
}

impl MassPayoutContract {
    /// A contract that has not been initialized.
    pub fn new() -> (contract: MassPayoutContract)
        ensures
            contract.wf(),
            contract@ == Ledger::empty(),
    {
        MassPayoutContract { state: None, entries: Vec::new() }
    }

    /// Whether `state` and `recipients` fit together as the stored parts of
    /// one contract: no account twice, no amount below one unit, and the
    /// totals of `state` those of `recipients`; without a `state`, no
    /// recipient.
    pub open spec fn consistent(state: Option<State>, recipients: Seq<Recipient>) -> bool {
        &&& distinct_accounts(recipients)
        &&& amounts_positive(recipients)
        &&& match state {
            Some(state) => state.recipient_count == recipients.len() && state.total_entitlement
                == total_of(recipients),
            None => recipients.len() == 0,
        }
    }

    /// The contract whose stored parts are `state` and `recipients`, where
    /// these fit together; `None` where they do not.
    pub fn restore(state: Option<State>, recipients: Vec<Recipient>) -> (r: Option<
        MassPayoutContract,
    >)
        ensures
            r is Some <==> Self::consistent(state, recipients@),
            r matches Some(contract) ==> contract.wf() && contract@ == Ledger::of(
                state,
                recipients@,
            ),
    {
        let mut total: i128 = 0;
        let mut i: usize = 0;
        while i < recipients.len()
            invariant
                i <= recipients@.len(),
                distinct_accounts(recipients@.subrange(0, i as int)),
                amounts_positive(recipients@.subrange(0, i as int)),
                total == total_of(recipients@.subrange(0, i as int)),
            decreases recipients@.len() - i,
        {
            let ghost seen = recipients@.subrange(0, i as int);
            let entry: Recipient = recipients[i];
            if entry.amount < 1 {
                return None;
            }
            let mut j: usize = 0;
            while j < i
                invariant
                    j <= i < recipients@.len(),
                    entry == recipients@[i as int],
                    forall|k: int| 0 <= k < j ==> (#[trigger] recipients@[k]).account != entry.account,
                decreases i - j,
            {
                if recipients[j].account.same_as(&entry.account) {
                    return None;
                }
                j += 1;
            }
            proof {
                lemma_total_bounds(seen);
                lemma_total_push(seen, entry);
                assert(seen.push(entry) =~= recipients@.subrange(0, i + 1));
                assert(seen.len() * i64::MAX <= usize::MAX * i64::MAX) by (nonlinear_arith)
                    requires
                        seen.len() <= usize::MAX,
                ;
            }
            total = total + (entry.amount as i128);
            i += 1;
        }
        assert(recipients@.subrange(0, i as int) =~= recipients@);
        match state {
            Some(stored) => {
                if stored.recipient_count != recipients.len() as u64 || stored.total_entitlement
                    != total {
                    return None;
                }
            },
            None => {
                if recipients.len() != 0 {
                    return None;
                }
            },
        }
        Some(MassPayoutContract { state, entries: recipients })
    }

    /// Where `account` stands in the registry, if it is registered.
    fn position(&self, account: &Address) -> (r: Option<usize>)
        ensures
            match r {
                Some(i) => i < self.entries@.len() && self.entries@[i as int].account == *account,
                None => !registered(self.entries@, *account),
            },
    {
        let mut i: usize = 0;
        while i < self.entries.len()
            invariant
                i <= self.entries@.len(),
                forall|k: int| 0 <= k < i ==> (#[trigger] self.entries@[k]).account != *account,
            decreases self.entries@.len() - i,
        {
            if self.entries[i].account.same_as(account) {
                return Some(i);
            }
            i += 1;
        }
        None
    }
}

impl Default for MassPayoutContract {
    fn default() -> (contract: MassPayoutContract)
        ensures
            contract.wf(),
            contract@ == Ledger::empty(),
    {
        MassPayoutContract::new()
    }
}

impl MassPayoutContractTrait for MassPayoutContract {
    closed spec fn view(&self) -> Ledger {
        Ledger::of(self.state, self.entries@)
    }

    closed spec fn wf(&self) -> bool {
        &&& self@.wf()
        &&& self.state matches Some(state) ==> state.recipient_count == self.entries@.len()
            && state.total_entitlement == total_of(self.entries@)
    }

    proof fn lemma_wf(&self) {
    }

    fn initialize(&mut self, admin: Address, asset_id: Address) -> (r: Result<(), Error>) {
        if self.state.is_some() {
            return Err(Error::AlreadyInitialized);
        }
        self.state = Some(State { admin, asset_id, recipient_count: 0, total_entitlement: 0 });
        self.entries = Vec::new();
        Ok(())
    }

    fn init_done(&self) -> (r: Result<(), Error>) {
        if self.state.is_none() {
            return Err(Error::NotInitialized);
        }
        Ok(())
    }

    fn get_state(&self) -> (r: Result<State, Error>) {
        match self.state {
            Some(state) => Ok(state),
            None => Err(Error::NotInitialized),
        }
    }

    fn get_acc(&self, account: Address) -> (r: Result<i64, Error>) {
        self.init_done()?;
        match self.position(&account) {
            Some(i) => {
                proof {
                    lemma_index_of_unique(self.entries@, i as int);
                }
                Ok(self.entries[i].amount)
            },
            None => Err(Error::UnknownRecipient),
        }
    }

    fn set_acc(&mut self, invoker: Address, account: Address, amount: i64) -> (r: Result<(), Error>) {
        self.init_done()?;
        is_admin(self, &invoker)?;
        if amount < 1 {
            return Err(Error::InvalidAmount);
        }
        let mut state: State = self.state.unwrap();
        proof {
            lemma_total_bounds(self.entries@);
        }
        match self.position(&account) {
            Some(i) => {
                let previous: i64 = self.entries[i].amount;
                proof {
                    lemma_index_of_unique(self.entries@, i as int);
                    lemma_total_update(self.entries@, i as int, Recipient { account, amount });
                }
                state.total_entitlement = state.total_entitlement - (previous as i128) + (amount as i128);
                self.entries.set(i, Recipient { account, amount });
            },
            None => {
                proof {
                    lemma_total_push(self.entries@, Recipient { account, amount });
                }
                add_recipient(self, Recipient { account, amount });
                let registered_now: usize = self.entries.len();
                assert(state.recipient_count + 1 == registered_now);
                state.recipient_count = state.recipient_count + 1;
                state.total_entitlement = state.total_entitlement + (amount as i128);
            },
        }
        self.state = Some(state);
        Ok(())
    }

    fn deposit(&self, invoker: Address, amount: i64) -> (r: Result<Deposit, Error>) {
        self.init_done()?;
        Ok(Deposit { from: invoker, amount })
    }

    fn payout(&self, invoker: Address, balance: i128) -> (r: Result<Vec<Transfer>, Error>) {
        self.init_done()?;
        is_admin(self, &invoker)?;
        let state: State = self.state.unwrap();
        if balance < state.total_entitlement {
            return Err(Error::VaultUnderfunded);
        }
        let mut transfers: Vec<Transfer> = Vec::new();
        let mut i: usize = 0;
        while i < self.entries.len()
            invariant
                i <= self.entries@.len(),
                transfers@.len() == i,
                forall|k: int| 0 <= k < i ==> transfers@[k] == self@.transfers()[k],
            decreases self.entries@.len() - i,
        {
            let entry: Recipient = self.entries[i];
            transfers.push(Transfer { to: entry.account, amount: entry.amount });
            i += 1;
        }
        assert(transfers@ =~= self@.transfers());
        Ok(transfers)
    }
}

/// Succeeds if `invoker` is the administrator of `contract`.
pub fn is_admin(contract: &MassPayoutContract, invoker: &Address) -> (r: Result<(), Error>)
    ensures
        r == contract@.is_admin(*invoker),
{
    match contract.state {
        None => Err(Error::NotInitialized),
        Some(state) => if state.admin.same_as(invoker) {
            Ok(())
        } else {
            Err(Error::NotAdmin)
        },
    }
}

/// The registered accounts, in the order of their first registration.
pub fn get_recipients(contract: &MassPayoutContract) -> (r: Result<Vec<Address>, Error>)
    ensures
        match r {
            Ok(accounts) => contract@.config is Some && accounts@ == accounts_of(contract@.entries),
            Err(e) => contract@.config is None && e == Error::NotInitialized,
        },
{
    if contract.state.is_none() {
        return Err(Error::NotInitialized);
    }
    let mut accounts: Vec<Address> = Vec::new();
    let mut i: usize = 0;
    while i < contract.entries.len()
        invariant
            i <= contract.entries@.len(),
            accounts@.len() == i,
            forall|k: int| 0 <= k < i ==> accounts@[k] == contract.entries@[k].account,
        decreases contract.entries@.len() - i,
    {
        accounts.push(contract.entries[i].account);
        i += 1;
    }
    assert(accounts@ =~= accounts_of(contract@.entries));
    Ok(accounts)
}

/// Appends `account` to the registry. The caller brings the totals up to
/// date.
fn add_recipient(contract: &mut MassPayoutContract, entry: Recipient)
    ensures
        final(contract).state == old(contract).state,
        final(contract).entries@ == old(contract).entries@.push(entry),
{
    contract.entries.push(entry);
}

} // verus!
