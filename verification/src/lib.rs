//! A minimal fungible-token ledger.
//!
//! The ledger tracks a fixed total supply and per-account balances, and
//! moves units from a caller's balance to another account through a single
//! checked `transfer` operation. The host environment that dispatches
//! calls, supplies the caller's identity, persists state and records
//! emitted notifications is treated as an external collaborator: the
//! caller's identity is an explicit argument, state is held in memory,
//! and a completed transfer is reported as a `Transfer` record for the
//! host to log.
//!
//! Transfer outcomes use the detailed encoding: `Ok` on success and a
//! distinct `TransferError` for each way a transfer is refused. A host
//! that wants the boolean encoding, where every failure collapses to
//! `false`, makes that collapse at its own boundary.

use vstd::prelude::*;

mod table;
mod ledger;

pub use ledger::Erc20;
pub use ledger::Transfer;
pub use ledger::TransferError;

verus! {

/// Opaque fixed-size (256-bit) account identity, compared by value and
/// used as the key of the balance table.
#[derive(Clone, Copy, PartialEq, Eq, Structural, Debug)]
pub struct AccountId {
    pub hi: u128,
    pub lo: u128,
}

/// Number of token units; wide enough that a realistic supply cannot
/// overflow it. All arithmetic on balances is checked.
pub type Balance = u128;

} // verus!
