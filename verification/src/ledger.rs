//! The ledger: total supply, the balance table, and the checked
//! transfer operation.

use vstd::prelude::*;

use crate::AccountId;
use crate::Balance;
use crate::table::balance_in;
use crate::table::balance_lookup;
use crate::table::balance_store;
use crate::table::distinct_keys;
use crate::table::lemma_balance_le_total;
use crate::table::lemma_two_balances_le_total;
use crate::table::total_of;

verus! {

/// A completed transfer, reported to the host environment so that it
/// can be recorded in its event log.
#[derive(Clone, Copy, PartialEq, Eq, Structural, Debug)]
pub struct Transfer {
    pub from: AccountId,
    pub to: AccountId,
    pub value: Balance,
}

/// Why a transfer was rejected. No state changes on any rejection.
#[derive(Clone, Copy, PartialEq, Eq, Structural, Debug)]
pub enum TransferError {
    /// The sender's balance is smaller than the requested amount.
    InsufficientBalance,
    /// Checked subtraction of the amount from the sender's balance
    /// failed even though the balance sufficed; kept as a defensive
    /// outcome, never actually produced.
    Underflow,
    /// Crediting the recipient would exceed the balance type's range.
    Overflow,
}

/// A fungible-token ledger: a fixed total supply and a balance per
/// account, mutated only by `transfer`.
pub struct Erc20 {
    /// Total supply of the token, fixed at construction.
    pub total_supply: Balance,
    /// Balance table; an account without an entry has balance 0.
    pub balances: Vec<(AccountId, Balance)>,
    /// The account that constructed the ledger; recorded, never read.
    pub owner: AccountId,
}

impl Erc20 {
    /// The balance table records each account at most once.
    pub open spec fn balances_ok(self) -> bool {
        distinct_keys(self.balances@)
    }

    /// Well-formed: distinct entries whose balances sum to the total
    /// supply.
    pub open spec fn wf(self) -> bool {
        &&& self.balances_ok()
        &&& total_of(self.balances@) == self.total_supply as int
    }

    /// The balance the ledger records for `account`, 0 when it records
    /// none.
    pub open spec fn spec_balance_of(self, account: AccountId) -> Balance {
        balance_in(self.balances@, account)
    }

    /// Create a ledger whose whole supply is credited to `caller`, the
    /// constructing account as the host environment identifies it.
    pub fn new(initial_supply: Balance, caller: AccountId) -> (ledger: Self)
        ensures
            ledger.wf(),
            ledger.total_supply == initial_supply,
            ledger.owner == caller,
            ledger.spec_balance_of(caller) == initial_supply,
            forall|x: AccountId| x != caller ==> ledger.spec_balance_of(x) == 0,
    {
        let mut balances: Vec<(AccountId, Balance)> = Vec::new();
        balances.push((caller, initial_supply));
        let ledger = Erc20 { total_supply: initial_supply, balances, owner: caller };
        proof {
            let s = ledger.balances@;
            assert(s.drop_first() =~= Seq::<(AccountId, Balance)>::empty());
            assert(total_of(s.drop_first()) == 0);
            assert(total_of(s) == initial_supply);
            assert forall|x: AccountId| x != caller implies balance_in(s, x) == 0 by {
                assert(balance_in(s, x) == balance_in(s.drop_first(), x));
            }
        }
        ledger
    }

    /// The total supply recorded at construction.
    pub fn total_supply(&self) -> (supply: Balance)
        ensures
            supply == self.total_supply,
    {
        self.total_supply
    }

    /// The balance of `account`, 0 for an account never credited.
    pub fn balance_of(&self, account: AccountId) -> (amount: Balance)
        ensures
            amount == self.spec_balance_of(account),
    {
        balance_lookup(&self.balances, account)
    }

    /// Move `amount` from the caller's balance to `to`.
    ///
    /// `caller` is the sender's identity as the host environment
    /// supplies it with the invocation; a sender can only spend its own
    /// balance. Both checked operations are validated before either
    /// balance is written, so a rejected transfer leaves every balance
    /// exactly as it was. On success the returned `Transfer` record is
    /// the notification for the host environment's event log.
    pub fn transfer(&mut self, caller: AccountId, to: AccountId, amount: Balance) -> (result:
        Result<Transfer, TransferError>)
        requires
            old(self).balances_ok(),
        ensures
            final(self).balances_ok(),
            final(self).total_supply == old(self).total_supply,
            final(self).owner == old(self).owner,
            total_of(final(self).balances@) == total_of(old(self).balances@),
            old(self).wf() ==> final(self).wf(),
            result is Ok <==> amount <= old(self).spec_balance_of(caller) && (to == caller
                || old(self).spec_balance_of(to) + amount <= u128::MAX),
            result matches Ok(note) ==> note == (Transfer { from: caller, to: to, value: amount }),
            result == Err::<Transfer, TransferError>(TransferError::InsufficientBalance)
                <==> old(self).spec_balance_of(caller) < amount,
            result == Err::<Transfer, TransferError>(TransferError::Overflow) <==> amount <= old(
                self,
            ).spec_balance_of(caller) && to != caller && old(self).spec_balance_of(to) + amount
                > u128::MAX,
            result != Err::<Transfer, TransferError>(TransferError::Underflow),
            result is Err ==> forall|x: AccountId|
                final(self).spec_balance_of(x) == old(self).spec_balance_of(x),
            result is Ok && to == caller ==> forall|x: AccountId|
                final(self).spec_balance_of(x) == old(self).spec_balance_of(x),
            result is Ok && to != caller ==> final(self).spec_balance_of(caller) == old(
                self,
            ).spec_balance_of(caller) - amount && final(self).spec_balance_of(to) == old(
                self,
            ).spec_balance_of(to) + amount,
            forall|x: AccountId|
                x != caller && x != to ==> final(self).spec_balance_of(x) == old(
                    self,
                ).spec_balance_of(x),
    {
        let sender_balance = self.balance_of(caller);
        if sender_balance < amount {
            return Err(TransferError::InsufficientBalance);
        }
        let new_sender_balance = match sender_balance.checked_sub(amount) {
            Some(balance) => balance,
            None => {
                return Err(TransferError::Underflow);
            },
        };
        // The recipient's balance as it will stand once the sender is
        // debited; for a self-transfer the debit applies to the same
        // entry, so crediting nets out to the original balance.
        let recipient_balance = if to == caller {
            new_sender_balance
        } else {
            self.balance_of(to)
        };
        let new_recipient_balance = match recipient_balance.checked_add(amount) {
            Some(balance) => balance,
            None => {
                return Err(TransferError::Overflow);
            },
        };
        balance_store(&mut self.balances, caller, new_sender_balance);
        let ghost mid = self.balances@;
        balance_store(&mut self.balances, to, new_recipient_balance);
        proof {
            assert forall|x: AccountId| x != caller && x != to implies balance_in(
                self.balances@,
                x,
            ) == balance_in(old(self).balances@, x) by {
                assert(balance_in(self.balances@, x) == balance_in(mid, x));
                assert(balance_in(mid, x) == balance_in(old(self).balances@, x));
            }
        }
        Ok(Transfer { from: caller, to, value: amount })
    }

    /// No account's balance exceeds the total supply of a well-formed
    /// ledger.
    pub proof fn lemma_balance_bounded(self, account: AccountId)
        requires
            self.wf(),
        ensures
            self.spec_balance_of(account) <= self.total_supply,
    {
        lemma_balance_le_total(self.balances@, account);
    }

    /// In a well-formed ledger, crediting a recipient distinct from the
    /// sender can never overflow: the amount the sender can spend plus
    /// what the recipient already holds is bounded by the total supply.
    pub proof fn lemma_credit_cannot_overflow(
        self,
        caller: AccountId,
        to: AccountId,
        amount: Balance,
    )
        requires
            self.wf(),
            to != caller,
            amount <= self.spec_balance_of(caller),
        ensures
            self.spec_balance_of(to) + amount <= u128::MAX,
    {
        lemma_two_balances_le_total(self.balances@, caller, to);
    }
}

} // verus!

