use erc20::AccountId;
use erc20::Erc20;
use erc20::Transfer;
use erc20::TransferError;

fn account(n: u128) -> AccountId {
    AccountId { hi: 0, lo: n }
}

#[test]
fn end_to_end_example() {
    let a = account(1);
    let b = account(2);
    let mut ledger = Erc20::new(1000, a);
    assert_eq!(ledger.balance_of(a), 1000);
    assert_eq!(ledger.total_supply(), 1000);

    let done = ledger.transfer(a, b, 300);
    assert!(done.is_ok());
    assert_eq!(ledger.balance_of(a), 700);
    assert_eq!(ledger.balance_of(b), 300);

    let refused = ledger.transfer(b, a, 1000);
    assert_eq!(refused, Err(TransferError::InsufficientBalance));
    assert_eq!(ledger.balance_of(a), 700);
    assert_eq!(ledger.balance_of(b), 300);
}

#[test]
fn transfer_reports_notification() {
    let a = account(7);
    let b = account(8);
    let mut ledger = Erc20::new(50, a);
    let note = ledger.transfer(a, b, 20).unwrap();
    assert_eq!(
        note,
        Transfer {
            from: a,
            to: b,
            value: 20,
        }
    );
}

#[test]
fn self_transfer_identity() {
    let a = account(3);
    let mut ledger = Erc20::new(500, a);
    let done = ledger.transfer(a, a, 200);
    assert!(done.is_ok());
    assert_eq!(ledger.balance_of(a), 500);
    assert_eq!(ledger.total_supply(), 500);
}

#[test]
fn self_transfer_of_whole_maximal_supply() {
    let a = account(4);
    let mut ledger = Erc20::new(u128::MAX, a);
    let done = ledger.transfer(a, a, u128::MAX);
    assert!(done.is_ok());
    assert_eq!(ledger.balance_of(a), u128::MAX);
}

#[test]
fn insufficient_balance_rejection() {
    let a = account(5);
    let b = account(6);
    let mut ledger = Erc20::new(10, a);
    let refused = ledger.transfer(a, b, 11);
    assert_eq!(refused, Err(TransferError::InsufficientBalance));
    assert_eq!(ledger.balance_of(a), 10);
    assert_eq!(ledger.balance_of(b), 0);

    // An account that was never credited cannot send anything at all.
    let refused = ledger.transfer(b, a, 1);
    assert_eq!(refused, Err(TransferError::InsufficientBalance));
    assert_eq!(ledger.balance_of(a), 10);
    assert_eq!(ledger.balance_of(b), 0);
}

#[test]
fn overflow_rejection_with_atomicity() {
    // Inside any ledger built by `new` the balances sum to the total
    // supply, so crediting a recipient can never overflow; the checked
    // addition is exercised on a hand-built table whose recipient
    // already sits at the balance type's maximum.
    let a = account(9);
    let b = account(10);
    let mut ledger = Erc20 {
        total_supply: u128::MAX,
        balances: vec![(a, 5), (b, u128::MAX)],
        owner: a,
    };
    let refused = ledger.transfer(a, b, 5);
    assert_eq!(refused, Err(TransferError::Overflow));
    // The sender's debit must not remain committed.
    assert_eq!(ledger.balance_of(a), 5);
    assert_eq!(ledger.balance_of(b), u128::MAX);

    // An amount that brings the recipient exactly to the maximum still
    // goes through.
    let done = ledger.transfer(b, a, u128::MAX - 5);
    assert!(done.is_ok());
    assert_eq!(ledger.balance_of(a), u128::MAX);
    assert_eq!(ledger.balance_of(b), 5);
}

#[test]
fn unknown_account_default() {
    let a = account(11);
    let stranger = account(12);
    let ledger = Erc20::new(100, a);
    assert_eq!(ledger.balance_of(stranger), 0);

    let zero = Erc20::new(0, a);
    assert_eq!(zero.balance_of(a), 0);
    assert_eq!(zero.balance_of(stranger), 0);
}

#[test]
fn zero_amount_and_zero_supply() {
    let a = account(13);
    let b = account(14);
    let mut ledger = Erc20::new(0, a);
    assert_eq!(ledger.total_supply(), 0);
    let done = ledger.transfer(a, b, 0);
    assert!(done.is_ok());
    assert_eq!(ledger.balance_of(a), 0);
    assert_eq!(ledger.balance_of(b), 0);
}

#[test]
fn conservation_across_transfers() {
    let a = account(15);
    let b = account(16);
    let c = account(17);
    let mut ledger = Erc20::new(1_000_000, a);
    assert!(ledger.transfer(a, b, 250_000).is_ok());
    assert!(ledger.transfer(a, c, 125_000).is_ok());
    assert!(ledger.transfer(b, c, 100_000).is_ok());
    assert!(ledger.transfer(c, a, 225_000).is_ok());
    assert!(ledger.transfer(a, a, 50_000).is_ok());
    let sum = ledger.balance_of(a) + ledger.balance_of(b) + ledger.balance_of(c);
    assert_eq!(sum, ledger.total_supply());
    assert_eq!(ledger.balance_of(a), 850_000);
    assert_eq!(ledger.balance_of(b), 150_000);
    assert_eq!(ledger.balance_of(c), 0);
}
