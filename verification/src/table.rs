//! The balance table: a vector of `(account, balance)` entries with
//! pairwise-distinct keys, together with the sequence-level model that
//! the ledger's contracts are stated over.

use vstd::prelude::*;

use crate::AccountId;
use crate::Balance;

verus! {

/// No two entries record the same account.
pub open spec fn distinct_keys(entries: Seq<(AccountId, Balance)>) -> bool {
    forall|i: int, j: int|
        0 <= i < j < entries.len() ==> (#[trigger] entries[i]).0 != (#[trigger] entries[j]).0
}

/// Whether some entry records `account`.
pub open spec fn has_account(entries: Seq<(AccountId, Balance)>, account: AccountId) -> bool {
    exists|k: int| 0 <= k < entries.len() && (#[trigger] entries[k]).0 == account
}

/// The balance recorded for `account`: the first matching entry's
/// amount, or 0 when no entry records the account.
pub open spec fn balance_in(entries: Seq<(AccountId, Balance)>, account: AccountId) -> Balance
    decreases entries.len(),
{
    if entries.len() == 0 {
        0
    } else if entries[0].0 == account {
        entries[0].1
    } else {
        balance_in(entries.drop_first(), account)
    }
}

/// The sum of every recorded balance, as an unbounded integer.
pub open spec fn total_of(entries: Seq<(AccountId, Balance)>) -> int
    decreases entries.len(),
{
    if entries.len() == 0 {
        0
    } else {
        entries[0].1 + total_of(entries.drop_first())
    }
}

/// The sum of balances is never negative.
pub proof fn lemma_total_nonneg(entries: Seq<(AccountId, Balance)>)
    ensures
        total_of(entries) >= 0,
    decreases entries.len(),
{
    if entries.len() > 0 {
        lemma_total_nonneg(entries.drop_first());
    }
}

/// No single balance exceeds the sum of all balances.
pub proof fn lemma_balance_le_total(entries: Seq<(AccountId, Balance)>, account: AccountId)
    ensures
        balance_in(entries, account) <= total_of(entries),
    decreases entries.len(),
{
    if entries.len() == 0 {
    } else if entries[0].0 == account {
        lemma_total_nonneg(entries.drop_first());
    } else {
        lemma_balance_le_total(entries.drop_first(), account);
    }
}

/// Two distinct accounts' balances together never exceed the sum of all
/// balances.
pub proof fn lemma_two_balances_le_total(
    entries: Seq<(AccountId, Balance)>,
    a: AccountId,
    b: AccountId,
)
    requires
        a != b,
    ensures
        balance_in(entries, a) + balance_in(entries, b) <= total_of(entries),
    decreases entries.len(),
{
    if entries.len() == 0 {
    } else if entries[0].0 == a {
        lemma_balance_le_total(entries.drop_first(), b);
    } else if entries[0].0 == b {
        lemma_balance_le_total(entries.drop_first(), a);
    } else {
        lemma_two_balances_le_total(entries.drop_first(), a, b);
    }
}

/// An account that no entry records has balance 0.
pub proof fn lemma_absent_account(entries: Seq<(AccountId, Balance)>, account: AccountId)
    requires
        !has_account(entries, account),
    ensures
        balance_in(entries, account) == 0,
    decreases entries.len(),
{
    if entries.len() > 0 {
        assert(entries[0].0 != account);
        assert(!has_account(entries.drop_first(), account)) by {
            if has_account(entries.drop_first(), account) {
                let k = choose|k: int|
                    0 <= k < entries.drop_first().len() && (#[trigger] entries.drop_first()[k]).0
                        == account;
                assert((entries[k + 1]).0 == account);
            }
        }
        lemma_absent_account(entries.drop_first(), account);
    }
}

/// The balance recorded for an account is the amount at its first
/// matching entry.
proof fn lemma_balance_at_first_match(
    entries: Seq<(AccountId, Balance)>,
    i: int,
    account: AccountId,
)
    requires
        0 <= i < entries.len(),
        entries[i].0 == account,
        forall|k: int| 0 <= k < i ==> (#[trigger] entries[k]).0 != account,
    ensures
        balance_in(entries, account) == entries[i].1,
    decreases i,
{
    if i > 0 {
        lemma_balance_at_first_match(entries.drop_first(), i - 1, account);
    }
}

/// Overwriting the amount of the one entry that records `account` sets
/// that account's balance, leaves every other balance as it was, and
/// moves the sum by the difference.
proof fn lemma_update_entry(
    entries: Seq<(AccountId, Balance)>,
    i: int,
    account: AccountId,
    amount: Balance,
)
    requires
        distinct_keys(entries),
        0 <= i < entries.len(),
        entries[i].0 == account,
    ensures
        distinct_keys(entries.update(i, (account, amount))),
        balance_in(entries.update(i, (account, amount)), account) == amount,
        forall|x: AccountId|
            x != account ==> balance_in(entries.update(i, (account, amount)), x) == balance_in(
                entries,
                x,
            ),
        total_of(entries.update(i, (account, amount))) == total_of(entries) - entries[i].1
            + amount,
        balance_in(entries, account) == entries[i].1,
    decreases entries.len(),
{
    let t = entries.update(i, (account, amount));
    assert(forall|k: int| 0 <= k < entries.len() && k != i ==> t[k] == entries[k]);
    if i == 0 {
        assert(t.drop_first() =~= entries.drop_first());
        assert forall|x: AccountId| x != account implies balance_in(t, x) == balance_in(
            entries,
            x,
        ) by {
            assert(balance_in(t, x) == balance_in(t.drop_first(), x));
            assert(balance_in(entries, x) == balance_in(entries.drop_first(), x));
        }
    } else {
        assert(entries[0].0 != account);
        assert(distinct_keys(entries.drop_first())) by {
            assert(forall|p: int, q: int|
                0 <= p < q < entries.drop_first().len() ==> (#[trigger] entries.drop_first()[p]).0
                    != (#[trigger] entries.drop_first()[q]).0) by {
                assert(forall|p: int, q: int|
                    0 <= p < q < entries.drop_first().len() ==> (entries.drop_first()[p]) == (
                    entries[p + 1]) && (entries.drop_first()[q]) == (entries[q + 1]));
            }
        }
        assert(t.drop_first() =~= entries.drop_first().update(i - 1, (account, amount)));
        lemma_update_entry(entries.drop_first(), i - 1, account, amount);
        assert forall|x: AccountId| x != account implies balance_in(t, x) == balance_in(
            entries,
            x,
        ) by {
            if t[0].0 == x {
                assert(balance_in(t, x) == t[0].1);
                assert(balance_in(entries, x) == entries[0].1);
            } else {
                assert(balance_in(t, x) == balance_in(t.drop_first(), x));
                assert(balance_in(entries, x) == balance_in(entries.drop_first(), x));
            }
        }
    }
}

/// Appending an entry for an account that no entry records sets that
/// account's balance, leaves every other balance as it was, and adds
/// the amount to the sum.
proof fn lemma_push_entry(entries: Seq<(AccountId, Balance)>, account: AccountId, amount: Balance)
    requires
        distinct_keys(entries),
        !has_account(entries, account),
    ensures
        distinct_keys(entries.push((account, amount))),
        balance_in(entries.push((account, amount)), account) == amount,
        forall|x: AccountId|
            x != account ==> balance_in(entries.push((account, amount)), x) == balance_in(
                entries,
                x,
            ),
        total_of(entries.push((account, amount))) == total_of(entries) + amount,
    decreases entries.len(),
{
    let t = entries.push((account, amount));
    assert(forall|k: int| 0 <= k < entries.len() ==> t[k] == entries[k]);
    assert(forall|k: int| 0 <= k < entries.len() ==> (#[trigger] entries[k]).0 != account) by {
        if exists|k: int| 0 <= k < entries.len() && (#[trigger] entries[k]).0 == account {
            assert(has_account(entries, account));
        }
    }
    if entries.len() == 0 {
        assert(t.drop_first() =~= entries);
        assert forall|x: AccountId| x != account implies balance_in(t, x) == balance_in(
            entries,
            x,
        ) by {
            assert(balance_in(t, x) == balance_in(t.drop_first(), x));
        }
    } else {
        assert(t.drop_first() =~= entries.drop_first().push((account, amount)));
        assert(!has_account(entries.drop_first(), account)) by {
            if has_account(entries.drop_first(), account) {
                let k = choose|k: int|
                    0 <= k < entries.drop_first().len() && (#[trigger] entries.drop_first()[k]).0
                        == account;
                assert((entries[k + 1]).0 == account);
            }
        }
        assert(distinct_keys(entries.drop_first())) by {
            assert(forall|p: int, q: int|
                0 <= p < q < entries.drop_first().len() ==> (entries.drop_first()[p]) == (entries[p
                    + 1]) && (entries.drop_first()[q]) == (entries[q + 1]));
        }
        lemma_push_entry(entries.drop_first(), account, amount);
        assert forall|x: AccountId| x != account implies balance_in(t, x) == balance_in(
            entries,
            x,
        ) by {
            if t[0].0 == x {
                assert(balance_in(t, x) == t[0].1);
                assert(balance_in(entries, x) == entries[0].1);
            } else {
                assert(balance_in(t, x) == balance_in(t.drop_first(), x));
                assert(balance_in(entries, x) == balance_in(entries.drop_first(), x));
            }
        }
    }
}

/// The index of the first entry that records `account`, if any does.
fn find_account(entries: &Vec<(AccountId, Balance)>, account: AccountId) -> (found: Option<usize>)
    ensures
        match found {
            Some(i) => i < entries@.len() && entries@[i as int].0 == account && forall|k: int|
                0 <= k < i ==> (#[trigger] entries@[k]).0 != account,
            None => !has_account(entries@, account),
        },
{
    let mut i: usize = 0;
    while i < entries.len()
        invariant
            i <= entries@.len(),
            forall|k: int| 0 <= k < i ==> (#[trigger] entries@[k]).0 != account,
        decreases entries@.len() - i,
    {
        if entries[i].0 == account {
            return Some(i);
        }
        i = i + 1;
    }
    None
}

/// The balance recorded for `account`, or 0 when no entry records it.
pub fn balance_lookup(entries: &Vec<(AccountId, Balance)>, account: AccountId) -> (amount:
    Balance)
    ensures
        amount == balance_in(entries@, account),
{
    match find_account(entries, account) {
        Some(i) => {
            proof {
                lemma_balance_at_first_match(entries@, i as int, account);
            }
            entries[i].1
        },
        None => {
            proof {
                lemma_absent_account(entries@, account);
            }
            0
        },
    }
}

/// Record `amount` as the balance of `account`, overwriting its entry
/// or appending one.
pub fn balance_store(entries: &mut Vec<(AccountId, Balance)>, account: AccountId, amount: Balance)
    requires
        distinct_keys(old(entries)@),
    ensures
        distinct_keys(final(entries)@),
        balance_in(final(entries)@, account) == amount,
        forall|x: AccountId|
            x != account ==> balance_in(final(entries)@, x) == balance_in(old(entries)@, x),
        total_of(final(entries)@) == total_of(old(entries)@) - balance_in(old(entries)@, account)
            + amount,
{
    match find_account(entries, account) {
        Some(i) => {
            proof {
                lemma_update_entry(entries@, i as int, account, amount);
            }
            entries[i] = (account, amount);
        },
        None => {
            proof {
                lemma_absent_account(entries@, account);
                lemma_push_entry(entries@, account, amount);
            }
            entries.push((account, amount));
        },
    }
}

} // verus!
