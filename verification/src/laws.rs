//! Laws of the ledger: what holds of every ledger that the operations can
//! reach, whatever the calls and their order.

use vstd::prelude::*;
use crate::address::Address;
use crate::error::Error;
use crate::ledger::{Ledger, Transfer};
use crate::registry::{Recipient, accounts_of, amounts_positive, distinct_accounts, entitlement, index_of, lemma_index_of_unique, lemma_total_push, lemma_total_update, record, registered, total_of};

verus! {

/// The ledger after `invoker` has called `set_acc` once for each of `calls`,
/// in their order.
pub open spec fn set_acc_each(ledger: Ledger, invoker: Address, calls: Seq<Recipient>) -> Ledger
    decreases calls.len(),
{
    if calls.len() == 0 {
        ledger
    } else {
        set_acc_each(ledger, invoker, calls.drop_last()).set_acc(
            invoker,
            calls.last().account,
            calls.last().amount,
        )
    }
}

/// The amount of the last of `calls` that names `account`, if one does.
pub open spec fn last_amount(calls: Seq<Recipient>, account: Address) -> Option<i64>
    decreases calls.len(),
{
    if calls.len() == 0 {
        None
    } else if calls.last().account == account {
        Some(calls.last().amount)
    } else {
        last_amount(calls.drop_last(), account)
    }
}

/// The sum of the amounts that `transfers` move.
pub open spec fn transfers_total(transfers: Seq<Transfer>) -> int
    decreases transfers.len(),
{
    if transfers.len() == 0 {
        0
    } else {
        transfers_total(transfers.drop_last()) + transfers.last().amount
    }
}

/// `initialize` keeps a ledger well formed, succeeds exactly once, and a
/// second call is rejected with `AlreadyInitialized` and leaves the ledger as
/// the first call made it.
pub proof fn law_initialize_once(
    ledger: Ledger,
    admin: Address,
    asset_id: Address,
    other_admin: Address,
    other_asset_id: Address,
)
    requires
        ledger.wf(),
    ensures
        ledger.initialize(admin, asset_id).wf(),
        ledger.initialize(admin, asset_id).initialize_outcome() == Err::<(), Error>(
            Error::AlreadyInitialized,
        ),
        ledger.initialize(admin, asset_id).initialize(other_admin, other_asset_id)
            == ledger.initialize(admin, asset_id),
        ledger.config is None ==> ledger.initialize_outcome() is Ok
            && ledger.initialize(admin, asset_id).is_admin(admin) is Ok
            && ledger.initialize(admin, asset_id).recipient_count() == 0
            && ledger.initialize(admin, asset_id).total_entitlement() == 0,
{
}

/// On an initialized ledger, whoever is not the administrator is refused by
/// `set_acc` and by `payout` with `NotAdmin`, whatever else they pass, and
/// the ledger stays as it was.
pub proof fn law_only_admin(
    ledger: Ledger,
    invoker: Address,
    account: Address,
    amount: i64,
    balance: i128,
)
    requires
        ledger.config matches Some(config) && config.admin != invoker,
    ensures
        ledger.set_acc_outcome(invoker, amount) == Err::<(), Error>(Error::NotAdmin),
        ledger.set_acc(invoker, account, amount) == ledger,
        ledger.payout(invoker, balance) == Err::<Seq<Transfer>, Error>(Error::NotAdmin),
{
}

/// An amount below one unit is refused with `InvalidAmount` when the
/// administrator of an initialized ledger offers it, and the ledger stays as
/// it was.
pub proof fn law_invalid_amount(ledger: Ledger, admin: Address, account: Address, amount: i64)
    requires
        ledger.is_admin(admin) is Ok,
        amount <= 0,
    ensures
        ledger.set_acc_outcome(admin, amount) == Err::<(), Error>(Error::InvalidAmount),
        ledger.set_acc(admin, account, amount) == ledger,
{
}

/// On an initialized ledger, `get_acc` answers `UnknownRecipient` for every
/// account that was never registered, and the recorded amount for every
/// other.
pub proof fn law_unknown_recipient(ledger: Ledger, account: Address)
    requires
        ledger.config is Some,
    ensures
        !registered(ledger.entries, account) ==> ledger.get_acc(account) == Err::<i64, Error>(
            Error::UnknownRecipient,
        ),
        registered(ledger.entries, account) ==> ledger.get_acc(account) is Ok,
{
}

/// What one accepted `set_acc` does: the ledger stays well formed, the
/// account is owed the new amount, every other account is owed what it was
/// owed before; a known account keeps its place, the count stays and the
/// total moves by the difference of the amounts; a new account goes to the
/// end, the count grows by one and the total by the amount.
pub proof fn law_set_acc(ledger: Ledger, admin: Address, account: Address, amount: i64)
    requires
        ledger.wf(),
        ledger.is_admin(admin) is Ok,
        amount >= 1,
    ensures
        ({
            let after = ledger.set_acc(admin, account, amount);
            &&& ledger.set_acc_outcome(admin, amount) is Ok
            &&& after.wf()
            &&& after.config == ledger.config
            &&& entitlement(after.entries, account) == Some(amount)
            &&& forall|other: Address|
                other != account ==> entitlement(after.entries, other) == entitlement(
                    ledger.entries,
                    other,
                )
            &&& entitlement(ledger.entries, account) matches Some(previous) ==> {
                &&& accounts_of(after.entries) == accounts_of(ledger.entries)
                &&& after.recipient_count() == ledger.recipient_count()
                &&& after.total_entitlement() == ledger.total_entitlement() + (amount - previous)
            }
            &&& entitlement(ledger.entries, account) is None ==> {
                &&& accounts_of(after.entries) == accounts_of(ledger.entries).push(account)
                &&& after.recipient_count() == ledger.recipient_count() + 1
                &&& after.total_entitlement() == ledger.total_entitlement() + amount
            }
        }),
{
    let before = ledger.entries;
    let entry = Recipient { account, amount };
    let after = ledger.set_acc(admin, account, amount);
    assert(after.entries == record(before, account, amount));
    if registered(before, account) {
        let i: int = index_of(before, account);
        lemma_total_update(before, i, entry);
        assert(accounts_of(after.entries) =~= accounts_of(before));
        assert(distinct_accounts(after.entries));
        lemma_index_of_unique(after.entries, i);
    } else {
        lemma_total_push(before, entry);
        assert(accounts_of(after.entries) =~= accounts_of(before).push(account));
        assert(distinct_accounts(after.entries)) by {
            assert forall|i: int, j: int| 0 <= i < j < after.entries.len() implies (
            #[trigger] after.entries[i]).account != (#[trigger] after.entries[j]).account by {
                if j == before.len() {
                    assert(before[i].account != account);
                }
            }
        }
        lemma_index_of_unique(after.entries, before.len() as int);
    }
    assert forall|other: Address| other != account implies entitlement(after.entries, other)
        == entitlement(before, other) by {
        if registered(before, other) {
            let k: int = index_of(before, other);
            assert(after.entries[k] == before[k]);
            lemma_index_of_unique(after.entries, k);
        } else if registered(after.entries, other) {
            let k: int = index_of(after.entries, other);
            assert(before[k].account == other);
        }
    }
}

/// Two accepted `set_acc` calls for one account: the second replaces the
/// amount, leaves the number of recipients as the first call left it, and
/// moves the total by the difference of the two amounts.
pub proof fn law_set_acc_twice(
    ledger: Ledger,
    admin: Address,
    account: Address,
    first: i64,
    second: i64,
)
    requires
        ledger.wf(),
        ledger.is_admin(admin) is Ok,
        first >= 1,
        second >= 1,
    ensures
        ({
            let once = ledger.set_acc(admin, account, first);
            let twice = once.set_acc(admin, account, second);
            &&& entitlement(twice.entries, account) == Some(second)
            &&& twice.recipient_count() == once.recipient_count()
            &&& twice.total_entitlement() == once.total_entitlement() + (second - first)
            &&& accounts_of(twice.entries) == accounts_of(once.entries)
        }),
{
    law_set_acc(ledger, admin, account, first);
    law_set_acc(ledger.set_acc(admin, account, first), admin, account, second);
}

/// An account has a last amount among `calls` exactly if one of them names
/// it.
pub proof fn lemma_last_amount(calls: Seq<Recipient>, account: Address)
    ensures
        last_amount(calls, account) is Some <==> registered(calls, account),
    decreases calls.len(),
{
    if calls.len() > 0 {
        let earlier = calls.drop_last();
        lemma_last_amount(earlier, account);
        if calls.last().account == account {
            assert(calls[calls.len() - 1].account == account);
        } else if registered(earlier, account) {
            let k: int = index_of(earlier, account);
            assert(calls[k].account == account);
        } else if registered(calls, account) {
            let k: int = index_of(calls, account);
            assert(earlier[k].account == account);
        }
    }
}

/// The accounts of a registry, as a set: those that are registered. Where the
/// registry names no account twice, there are as many as it has entries.
pub proof fn lemma_accounts_set(entries: Seq<Recipient>)
    ensures
        forall|account: Address| #[trigger]
            accounts_of(entries).to_set().contains(account) <==> registered(entries, account),
        distinct_accounts(entries) ==> accounts_of(entries).to_set().len() == entries.len(),
{
    let listed = accounts_of(entries);
    assert forall|account: Address| #[trigger]
        listed.to_set().contains(account) <==> registered(entries, account) by {
        if listed.contains(account) {
            let k: int = listed.index_of(account);
            assert(entries[k].account == account);
        }
        if registered(entries, account) {
            let k: int = index_of(entries, account);
            assert(listed[k] == account);
        }
    }
    if distinct_accounts(entries) {
        assert forall|i: int, j: int|
            0 <= i < listed.len() && 0 <= j < listed.len() && i != j implies listed[i]
            != listed[j] by {
            if i < j {
                assert(entries[i].account != entries[j].account);
            } else {
                assert(entries[j].account != entries[i].account);
            }
        }
        listed.unique_seq_to_set();
    }
}

/// Any number of accepted `set_acc` calls, on any ledger: an account that a
/// call names is owed the amount of the last call that names it, every other
/// account is owed what it was owed before, and the registered accounts are
/// those that were registered before and those that the calls name, each
/// counted once.
pub proof fn law_set_acc_each(ledger: Ledger, admin: Address, calls: Seq<Recipient>)
    requires
        ledger.wf(),
        ledger.is_admin(admin) is Ok,
        amounts_positive(calls),
    ensures
        ({
            let after = set_acc_each(ledger, admin, calls);
            let accounts = accounts_of(ledger.entries).to_set().union(
                accounts_of(calls).to_set(),
            );
            &&& after.wf()
            &&& after.config == ledger.config
            &&& forall|account: Address|
                entitlement(after.entries, account) == if last_amount(calls, account) is Some {
                    last_amount(calls, account)
                } else {
                    entitlement(ledger.entries, account)
                }
            &&& accounts_of(after.entries).to_set() == accounts
            &&& after.recipient_count() == accounts.len()
        }),
    decreases calls.len(),
{
    let after = set_acc_each(ledger, admin, calls);
    if calls.len() > 0 {
        let earlier = calls.drop_last();
        let last = calls.last();
        let middle = set_acc_each(ledger, admin, earlier);
        assert(amounts_positive(earlier)) by {
            assert forall|i: int| 0 <= i < earlier.len() implies (#[trigger] earlier[i]).amount
                >= 1 by {
                assert(earlier[i] == calls[i]);
            }
        }
        law_set_acc_each(ledger, admin, earlier);
        assert(calls[calls.len() - 1].amount >= 1);
        law_set_acc(middle, admin, last.account, last.amount);
        assert(after == middle.set_acc(admin, last.account, last.amount));
        assert forall|account: Address|
            entitlement(after.entries, account) == if last_amount(calls, account) is Some {
                last_amount(calls, account)
            } else {
                entitlement(ledger.entries, account)
            } by {
            if account != last.account {
                assert(entitlement(after.entries, account) == entitlement(middle.entries, account));
                assert(last_amount(calls, account) == last_amount(earlier, account));
            }
        }
    }
    let accounts = accounts_of(ledger.entries).to_set().union(accounts_of(calls).to_set());
    lemma_accounts_set(after.entries);
    lemma_accounts_set(ledger.entries);
    lemma_accounts_set(calls);
    assert forall|account: Address|
        accounts_of(after.entries).to_set().contains(account) <==> accounts.contains(account) by {
        lemma_last_amount(calls, account);
        assert(registered(after.entries, account) <==> entitlement(after.entries, account) is Some);
        assert(registered(ledger.entries, account) <==> entitlement(ledger.entries, account)
            is Some);
    }
    assert(accounts_of(after.entries).to_set() =~= accounts);
}

/// Accepted `set_acc` calls on a ledger whose registry is still empty: the
/// number of recipients is the number of distinct accounts that the calls
/// name; the registry lists each of them once, with the amount of the last
/// call that names it, and the total is the sum over that list. Where no two
/// calls name one account, the registry is the calls themselves, in their
/// order: as many recipients as calls, and the sum of their amounts.
pub proof fn law_set_acc_each_from_empty(ledger: Ledger, admin: Address, calls: Seq<Recipient>)
    requires
        ledger.wf(),
        ledger.is_admin(admin) is Ok,
        ledger.entries.len() == 0,
        amounts_positive(calls),
    ensures
        ({
            let after = set_acc_each(ledger, admin, calls);
            &&& after.recipient_count() == accounts_of(calls).to_set().len()
            &&& distinct_accounts(after.entries)
            &&& accounts_of(after.entries).to_set() == accounts_of(calls).to_set()
            &&& forall|i: int|
                0 <= i < after.entries.len() ==> last_amount(
                    calls,
                    (#[trigger] after.entries[i]).account,
                ) == Some(after.entries[i].amount)
            &&& forall|account: Address|
                entitlement(after.entries, account) == last_amount(calls, account)
            &&& after.total_entitlement() == total_of(after.entries)
            &&& distinct_accounts(calls) ==> {
                &&& after.entries == calls
                &&& after.recipient_count() == calls.len()
                &&& after.total_entitlement() == total_of(calls)
            }
        }),
{
    let after = set_acc_each(ledger, admin, calls);
    law_set_acc_each(ledger, admin, calls);
    assert(accounts_of(ledger.entries).to_set().union(accounts_of(calls).to_set())
        =~= accounts_of(calls).to_set()) by {
        lemma_accounts_set(ledger.entries);
    }
    assert forall|account: Address| entitlement(after.entries, account) == last_amount(
        calls,
        account,
    ) by {
        assert(!registered(ledger.entries, account));
    }
    assert forall|i: int| 0 <= i < after.entries.len() implies last_amount(
        calls,
        (#[trigger] after.entries[i]).account,
    ) == Some(after.entries[i].amount) by {
        lemma_index_of_unique(after.entries, i);
    }
    if distinct_accounts(calls) {
        lemma_set_acc_each_distinct(ledger, admin, calls);
    }
}

/// Accepted `set_acc` calls that name no account twice, on a ledger whose
/// registry is still empty, leave the calls themselves as the registry.
proof fn lemma_set_acc_each_distinct(ledger: Ledger, admin: Address, calls: Seq<Recipient>)
    requires
        ledger.wf(),
        ledger.is_admin(admin) is Ok,
        ledger.entries.len() == 0,
        amounts_positive(calls),
        distinct_accounts(calls),
    ensures
        set_acc_each(ledger, admin, calls).entries == calls,
        set_acc_each(ledger, admin, calls).config == ledger.config,
    decreases calls.len(),
{
    let after = set_acc_each(ledger, admin, calls);
    if calls.len() == 0 {
        assert(after.entries =~= calls);
    } else {
        let earlier = calls.drop_last();
        let last = calls.last();
        let middle = set_acc_each(ledger, admin, earlier);
        assert forall|i: int| 0 <= i < earlier.len() implies (#[trigger] earlier[i]).amount
            >= 1 by {
            assert(earlier[i] == calls[i]);
        }
        assert forall|i: int, j: int| 0 <= i < j < earlier.len() implies (
        #[trigger] earlier[i]).account != (#[trigger] earlier[j]).account by {
            assert(earlier[i] == calls[i] && earlier[j] == calls[j]);
        }
        lemma_set_acc_each_distinct(ledger, admin, earlier);
        assert(calls[calls.len() - 1].amount >= 1);
        if registered(earlier, last.account) {
            let k: int = index_of(earlier, last.account);
            assert(calls[k].account == calls[calls.len() - 1].account);
        }
        assert(after == middle.set_acc(admin, last.account, last.amount));
        assert(after.entries == earlier.push(last));
        assert(earlier.push(last) =~= calls);
    }
}

/// A payout that the escrow cannot cover is refused with `VaultUnderfunded`
/// and asks for no transfer; one that it can cover asks for one transfer per
/// registry entry, in registry order, and these move the total entitlement,
/// no more and no less.
pub proof fn law_payout(ledger: Ledger, admin: Address, balance: i128)
    requires
        ledger.is_admin(admin) is Ok,
    ensures
        balance < ledger.total_entitlement() ==> ledger.payout(admin, balance) == Err::<
            Seq<Transfer>,
            Error,
        >(Error::VaultUnderfunded),
        balance >= ledger.total_entitlement() ==> ledger.payout(admin, balance) == Ok::<
            Seq<Transfer>,
            Error,
        >(ledger.transfers()),
        ledger.transfers().len() == ledger.recipient_count(),
        transfers_total(ledger.transfers()) == ledger.total_entitlement(),
{
    lemma_transfers_total(ledger.entries);
}

/// The transfers for a registry move the sum of its amounts.
pub proof fn lemma_transfers_total(entries: Seq<Recipient>)
    ensures
        transfers_total((Ledger { config: None, entries }).transfers()) == total_of(entries),
    decreases entries.len(),
{
    let transfers = (Ledger { config: None, entries }).transfers();
    if entries.len() > 0 {
        let earlier = entries.drop_last();
        lemma_transfers_total(earlier);
        assert(transfers.drop_last() =~= (Ledger { config: None, entries: earlier }).transfers());
    }
}

} // verus!
