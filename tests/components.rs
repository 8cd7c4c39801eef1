use volt::error::ErrorCode;
use volt::key::{check_key, derive_key, EntityKey, EntityTag};
use volt::ledger::ShareLedger;
use volt::pending::PendingQueue;
use volt::round::Round;
use volt::settlement::{pro_rata_part, shares_for_deposit, underlying_for_withdrawal};
use volt::vault::VoltVault;
use volt::whitelist::Whitelist;

#[test]
fn ledger_supply_is_sum_of_balances() {
    let mut l = ShareLedger::new();
    l.credit(1, 100).unwrap();
    l.credit(2, 50).unwrap();
    l.credit(1, 25).unwrap();
    l.debit(2, 20).unwrap();
    assert_eq!(l.balance_of(1), 125);
    assert_eq!(l.balance_of(2), 30);
    assert_eq!(l.balance_of(3), 0);
    assert_eq!(l.total_supply(), l.balance_of(1) + l.balance_of(2));
}

#[test]
fn ledger_debit_never_goes_below_zero() {
    let mut l = ShareLedger::new();
    l.credit(1, 10).unwrap();
    assert_eq!(l.debit(1, 11), Err(ErrorCode::InsufficientShares));
    assert_eq!(l.debit(2, 1), Err(ErrorCode::InsufficientShares));
    assert_eq!(l.balance_of(1), 10);
    assert_eq!(l.total_supply(), 10);
    assert_eq!(l.debit(1, 10), Ok(()));
    assert_eq!(l.balance_of(1), 0);
    assert_eq!(l.total_supply(), 0);
}

#[test]
fn ledger_credit_overflow_is_refused() {
    let mut l = ShareLedger::new();
    l.credit(1, u64::MAX).unwrap();
    assert_eq!(l.credit(2, 1), Err(ErrorCode::NumberOverflow));
    assert_eq!(l.balance_of(2), 0);
    assert_eq!(l.total_supply(), u64::MAX);
}

#[test]
fn settlement_conversions() {
    assert_eq!(shares_for_deposit(1000, 0, 0), Ok(1000));
    assert_eq!(shares_for_deposit(1000, 1000, 1100), Ok(909));
    assert_eq!(shares_for_deposit(300, 1000, 1500), Ok(200));
    assert_eq!(
        shares_for_deposit(1, 10, 0),
        Err(ErrorCode::VaultMintSupplyMustBeZeroIfEquityIsZero)
    );
    assert_eq!(
        shares_for_deposit(u64::MAX, u64::MAX, 1),
        Err(ErrorCode::NumberOverflow)
    );
    assert_eq!(underlying_for_withdrawal(500, 1000, 1100), Ok(550));
    assert_eq!(underlying_for_withdrawal(1, 3, 10), Ok(3));
    assert_eq!(underlying_for_withdrawal(0, 0, 10), Ok(0));
    assert_eq!(
        underlying_for_withdrawal(11, 10, 10),
        Err(ErrorCode::InsufficientShares)
    );
    assert_eq!(pro_rata_part(300, 666, 1000), 199);
    assert_eq!(pro_rata_part(700, 666, 1000), 466);
    assert_eq!(pro_rata_part(u64::MAX, u64::MAX, u64::MAX), u64::MAX);
}

#[test]
fn round_fields_are_written_once() {
    let mut r = Round::open(3);
    assert_eq!(r.number, 3);
    assert_eq!(r.record_pre_enter_balance(10), Ok(()));
    assert_eq!(r.record_pre_enter_balance(11), Err(ErrorCode::ShouldBeUnreachable));
    assert_eq!(r.underlying_pre_enter, Some(10));
    assert_eq!(r.record_post_settle_balance(20), Ok(()));
    assert_eq!(r.record_post_settle_balance(21), Err(ErrorCode::ShouldBeUnreachable));
    assert_eq!(r.record_performance_accrual(2), Ok(()));
    assert_eq!(r.record_performance_accrual(3), Err(ErrorCode::ShouldBeUnreachable));
    assert_eq!(r.record_settlement(5, 6, 7), Ok(()));
    assert_eq!(r.record_settlement(5, 6, 7), Err(ErrorCode::ShouldBeUnreachable));
    assert_eq!(r.volt_token_supply, Some(5));
    assert_eq!(r.volt_tokens_for_pending_deposits, Some(6));
    assert_eq!(r.underlying_for_pending_withdrawals, Some(7));
}

#[test]
fn pending_queue_accumulates_and_clears() {
    let mut q = PendingQueue::new();
    q.add(4, 2, 10);
    q.add(4, 2, 5);
    q.add(5, 2, 1);
    assert_eq!(q.get(4).amount, 15);
    assert_eq!(q.get(4).round_number, 2);
    let p = q.clear(4);
    assert_eq!(p.amount, 15);
    assert_eq!(q.get(4).round_number, 0);
    assert_eq!(q.get(4).amount, 0);
    assert_eq!(q.get(5).amount, 1);
    assert_eq!(q.get(6).round_number, 0);
}

#[test]
fn entity_keys_are_checked() {
    let k = derive_key(7, EntityTag::PendingDeposit, 10);
    assert_eq!(
        k,
        EntityKey {
            vault: 7,
            tag: EntityTag::PendingDeposit,
            index: 10
        }
    );
    assert_eq!(check_key(&k, 7, EntityTag::PendingDeposit, 10), Ok(()));
    assert_eq!(
        check_key(&k, 7, EntityTag::PendingWithdrawal, 10),
        Err(ErrorCode::InvalidEntityKey)
    );
    assert_eq!(
        check_key(&k, 8, EntityTag::PendingDeposit, 10),
        Err(ErrorCode::InvalidEntityKey)
    );
    let v = VoltVault::new(1, 7, 100, 100, false, false);
    assert_eq!(v.check_entity_key(&k, EntityTag::PendingDeposit, 10), Ok(()));
    assert_eq!(
        v.check_entity_key(&k, EntityTag::Round, 10),
        Err(ErrorCode::InvalidEntityKey)
    );
}

#[test]
fn whitelist_admits_added_users() {
    let mut w = Whitelist::new(1);
    assert!(!w.is_authorized(5));
    assert_eq!(w.add(2, 5), Err(ErrorCode::Unauthorized));
    assert!(!w.is_authorized(5));
    assert_eq!(w.add(1, 5), Ok(()));
    assert_eq!(w.add(1, 5), Ok(()));
    assert!(w.is_authorized(5));
    assert_eq!(w.addresses.len(), 1);
}
