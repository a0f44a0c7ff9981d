//! The recipient registry as a mathematical object: the recorded entitlements
//! in the order in which their accounts were first registered.

use vstd::prelude::*;
use crate::address::Address;

verus! {

/// One registry entry: an account and the amount it is owed.
#[derive(Clone, Copy, Debug, PartialEq, Eq)]
pub struct Recipient {
    pub account: Address,
    pub amount: i64,
}

/// Whether `entries` holds an entitlement for `account`.
pub open spec fn registered(entries: Seq<Recipient>, account: Address) -> bool {
    exists|i: int| 0 <= i < entries.len() && (#[trigger] entries[i]).account == account
}

/// A position at which `entries` holds `account`; the only one where the
/// accounts are distinct. Meaningful only for a registered account.
pub open spec fn index_of(entries: Seq<Recipient>, account: Address) -> int {
    choose|i: int| 0 <= i < entries.len() && (#[trigger] entries[i]).account == account
}

/// The amount recorded for `account`, if any.
pub open spec fn entitlement(entries: Seq<Recipient>, account: Address) -> Option<i64> {
    if registered(entries, account) {
        Some(entries[index_of(entries, account)].amount)
    } else {
        None
    }
}

/// No account occurs twice.
pub open spec fn distinct_accounts(entries: Seq<Recipient>) -> bool {
    forall|i: int, j: int|
        0 <= i < j < entries.len() ==> (#[trigger] entries[i]).account != (#[trigger] entries[j]).account
}

/// Every recorded amount is at least one unit.
pub open spec fn amounts_positive(entries: Seq<Recipient>) -> bool {
    forall|i: int| 0 <= i < entries.len() ==> (#[trigger] entries[i]).amount >= 1
}

/// The sum of all recorded amounts.
pub open spec fn total_of(entries: Seq<Recipient>) -> int
    decreases entries.len(),
{
    if entries.len() == 0 {
        0
    } else {
        total_of(entries.drop_last()) + entries.last().amount
    }
}

/// The accounts of `entries`, in registry order.
pub open spec fn accounts_of(entries: Seq<Recipient>) -> Seq<Address> {
    Seq::new(entries.len(), |i: int| entries[i].account)
}

/// The registry after recording `amount` for `account`: the entry of a known
/// account is overwritten where it stands, a new account goes to the end.
pub open spec fn record(entries: Seq<Recipient>, account: Address, amount: i64) -> Seq<Recipient> {
    if registered(entries, account) {
        entries.update(index_of(entries, account), Recipient { account, amount })
    } else {
        entries.push(Recipient { account, amount })
    }
}

/// Where the accounts are distinct, an account stands at one position only.
pub proof fn lemma_index_of_unique(entries: Seq<Recipient>, i: int)
    requires
        distinct_accounts(entries),
        0 <= i < entries.len(),
    ensures
        registered(entries, entries[i].account),
        index_of(entries, entries[i].account) == i,
        entitlement(entries, entries[i].account) == Some(entries[i].amount),
{
    let account = entries[i].account;
    let j: int = index_of(entries, account);
    assert(0 <= j < entries.len() && entries[j].account == account);
    if j < i {
        assert(entries[j].account != entries[i].account);
    } else if i < j {
        assert(entries[i].account != entries[j].account);
    }
}

/// Appending an entry adds its amount to the total.
pub proof fn lemma_total_push(entries: Seq<Recipient>, entry: Recipient)
    ensures
        total_of(entries.push(entry)) == total_of(entries) + entry.amount,
{
    assert(entries.push(entry).drop_last() =~= entries);
}

/// Overwriting an entry changes the total by the difference of the amounts.
pub proof fn lemma_total_update(entries: Seq<Recipient>, i: int, entry: Recipient)
    requires
        0 <= i < entries.len(),
    ensures
        total_of(entries.update(i, entry)) == total_of(entries) - entries[i].amount + entry.amount,
    decreases entries.len(),
{
    let updated = entries.update(i, entry);
    if i == entries.len() - 1 {
        assert(updated.drop_last() =~= entries.drop_last());
    } else {
        lemma_total_update(entries.drop_last(), i, entry);
        assert(updated.drop_last() =~= entries.drop_last().update(i, entry));
    }
}

/// The total of positive amounts lies between the number of entries and that
/// number times the largest amount.
pub proof fn lemma_total_bounds(entries: Seq<Recipient>)
    requires
        amounts_positive(entries),
    ensures
        entries.len() <= total_of(entries) <= entries.len() * i64::MAX,
    decreases entries.len(),
{
    if entries.len() > 0 {
        let init = entries.drop_last();
        assert forall|i: int| 0 <= i < init.len() implies (#[trigger] init[i]).amount >= 1 by {
            assert(init[i] == entries[i]);
        }
        lemma_total_bounds(init);
        assert(entries.last().amount >= 1);
        assert(entries.len() * i64::MAX == init.len() * i64::MAX + i64::MAX) by (nonlinear_arith)
            requires
                entries.len() == init.len() + 1,
        ;
    }
}

} // verus!
