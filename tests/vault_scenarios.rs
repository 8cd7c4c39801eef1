use volt::error::ErrorCode;
use volt::vault::{Phase, VoltVault};

const ADMIN: u64 = 1;
const ALICE: u64 = 10;
const BOB: u64 = 11;

fn open_vault(capacity: u64, individual: u64) -> VoltVault {
    VoltVault::new(ADMIN, 7, capacity, individual, false, false)
}

/// Runs the open round through its phases: the strategy takes the whole
/// liquid pool and gives back `recovered`.
fn run_round(v: &mut VoltVault, recovered: u64) {
    v.prepare().unwrap();
    let pool = v.deposit_pool;
    v.enter(pool, true).unwrap();
    v.settle(recovered, 0).unwrap();
    v.end_round(0).unwrap();
}

#[test]
fn first_round_deposit_mints_at_bootstrap_price() {
    let mut v = open_vault(1_000_000, 1_000_000);
    v.start_round().unwrap();
    assert_eq!(v.total_shares, 0);
    v.queue_deposit(ALICE, 1000, true).unwrap();
    v.prepare().unwrap();
    v.enter(0, true).unwrap();
    v.settle(1000, 0).unwrap();
    assert_eq!(v.round(1).unwrap().underlying_post_settle, Some(1000));
    v.end_round(0).unwrap();
    assert_eq!(v.claim_pending(ALICE), Ok(1000));
    assert_eq!(v.balance_of(ALICE), 1000);
}

#[test]
fn second_round_withdrawal_paid_at_settled_price() {
    let mut v = open_vault(1_000_000, 1_000_000);
    v.start_round().unwrap();
    v.queue_deposit(BOB, 1000, true).unwrap();
    run_round(&mut v, 0);
    assert_eq!(v.claim_pending(BOB), Ok(1000));
    v.start_round().unwrap();
    assert_eq!(v.total_shares, 1000);
    v.queue_withdrawal(BOB, 500, true).unwrap();
    assert_eq!(v.balance_of(BOB), 500);
    run_round(&mut v, 1100);
    assert_eq!(v.round(2).unwrap().underlying_post_settle, Some(1100));
    assert_eq!(v.claim_pending_withdrawal(BOB), Ok(550));
    assert_eq!(v.total_shares, 500);
}

#[test]
fn deposit_over_capacity_is_refused_without_change() {
    let mut v = open_vault(1000, 1_000_000);
    v.start_round().unwrap();
    assert_eq!(v.queue_deposit(ALICE, 1001, true), Err(ErrorCode::VaultCapacityExceeded));
    assert_eq!(v.pending_deposit_pool, 0);
    assert_eq!(v.pending_deposit(ALICE).round_number, 0);
    assert_eq!(v.pending_deposit(ALICE).amount, 0);
    assert_eq!(v.round(1).unwrap().underlying_from_pending_deposits, 0);
    assert_eq!(v.queue_deposit(ALICE, 1000, true), Ok(()));

    let mut w = open_vault(1000, 1_000_000);
    w.set_instant_transfers(ADMIN, true).unwrap();
    assert_eq!(w.instant_deposit(ALICE, 1001, true), Err(ErrorCode::VaultCapacityExceeded));
    assert_eq!(w.deposit_pool, 0);
    assert_eq!(w.balance_of(ALICE), 0);
}

#[test]
fn second_pending_deposit_from_other_round_is_refused() {
    let mut v = open_vault(1_000_000, 1_000_000);
    v.start_round().unwrap();
    v.queue_deposit(ALICE, 100, true).unwrap();
    v.queue_deposit(ALICE, 50, true).unwrap();
    assert_eq!(v.pending_deposit(ALICE).amount, 150);
    assert_eq!(v.pending_deposit(ALICE).round_number, 1);
    run_round(&mut v, 0);
    v.start_round().unwrap();
    assert_eq!(
        v.queue_deposit(ALICE, 10, true),
        Err(ErrorCode::UnclaimedPendingRequestExists)
    );
    assert_eq!(v.claim_pending(ALICE), Ok(150));
    assert_eq!(v.queue_deposit(ALICE, 10, true), Ok(()));
    assert_eq!(v.pending_deposit(ALICE).round_number, 2);
}

#[test]
fn second_pending_withdrawal_from_other_round_is_refused() {
    let mut v = open_vault(1_000_000, 1_000_000);
    v.start_round().unwrap();
    v.queue_deposit(ALICE, 100, true).unwrap();
    run_round(&mut v, 0);
    v.claim_pending(ALICE).unwrap();
    v.start_round().unwrap();
    v.queue_withdrawal(ALICE, 10, true).unwrap();
    run_round(&mut v, 100);
    v.start_round().unwrap();
    assert_eq!(
        v.queue_withdrawal(ALICE, 10, true),
        Err(ErrorCode::UnclaimedPendingRequestExists)
    );
    assert_eq!(v.claim_pending_withdrawal(ALICE), Ok(10));
    assert_eq!(v.queue_withdrawal(ALICE, 10, true), Ok(()));
}

#[test]
fn deposits_of_one_round_are_split_in_proportion() {
    let mut v = open_vault(1_000_000, 1_000_000);
    v.start_round().unwrap();
    v.queue_deposit(ALICE, 1000, true).unwrap();
    run_round(&mut v, 0);
    v.claim_pending(ALICE).unwrap();
    v.start_round().unwrap();
    v.queue_deposit(ALICE, 300, true).unwrap();
    v.queue_deposit(BOB, 700, true).unwrap();
    // the 1000 shares outstanding end the round worth 1500: price 1.5
    run_round(&mut v, 1500);
    assert_eq!(v.round(2).unwrap().volt_tokens_for_pending_deposits, Some(666));
    let a = v.claim_pending(ALICE).unwrap();
    let b = v.claim_pending(BOB).unwrap();
    assert_eq!(a, 199);
    assert_eq!(b, 466);
    assert!(a * 700 <= (b + 1) * 300);
    assert!(b * 300 <= (a + 1) * 700);
    assert_eq!(v.unclaimed_shares, 1);
    assert_eq!(v.total_shares, 1666);
}

#[test]
fn phases_must_follow_in_order() {
    let mut v = open_vault(1_000_000, 1_000_000);
    assert_eq!(v.prepare(), Err(ErrorCode::InvalidPrepareState));
    v.start_round().unwrap();
    assert_eq!(v.phase, Phase::AwaitingEnter);
    assert_eq!(v.enter(0, true), Err(ErrorCode::InvalidEnterState));
    assert_eq!(v.settle(0, 0), Err(ErrorCode::InvalidSettleState));
    assert_eq!(v.end_round(0), Err(ErrorCode::InvalidEndRoundState));
    assert_eq!(v.start_round(), Err(ErrorCode::InvalidStartRoundState));
    v.prepare().unwrap();
    assert_eq!(v.prepare(), Err(ErrorCode::InvalidPrepareState));
    assert_eq!(v.start_round(), Err(ErrorCode::InvalidStartRoundState));
    v.enter(0, false).unwrap();
    assert_eq!(v.phase, Phase::Prepared);
    v.enter(0, true).unwrap();
    assert_eq!(v.phase, Phase::Entered);
    assert_eq!(v.enter(0, true), Err(ErrorCode::InvalidEnterState));
    assert_eq!(v.start_round(), Err(ErrorCode::InvalidStartRoundState));
    v.settle(0, 0).unwrap();
    assert_eq!(v.settle(0, 0), Err(ErrorCode::InvalidSettleState));
    assert_eq!(v.start_round(), Err(ErrorCode::InvalidStartRoundState));
    v.end_round(0).unwrap();
    assert_eq!(v.phase, Phase::Closed);
    assert_eq!(v.end_round(0), Err(ErrorCode::InvalidEndRoundState));
    assert_eq!(v.start_round(), Ok(()));
    assert_eq!(v.round_number, 2);
}

#[test]
fn start_round_needs_withdrawal_fees_taken() {
    let mut v = open_vault(1_000_000, 1_000_000);
    v.start_round().unwrap();
    run_round(&mut v, 0);
    v.have_taken_withdrawal_fees = false;
    assert_eq!(
        v.start_round(),
        Err(ErrorCode::MustTakeWithdrawalFeesBeforeStartingRound)
    );
}

#[test]
fn start_round_at_ceiling_overflows() {
    let mut v = open_vault(1_000_000, 1_000_000);
    v.round_number = u64::MAX;
    v.have_taken_withdrawal_fees = true;
    assert_eq!(v.start_round(), Err(ErrorCode::RoundNumberOverflow));
}

#[test]
fn start_round_records_pre_enter_balance() {
    let mut v = open_vault(1_000_000, 1_000_000);
    v.start_round().unwrap();
    v.queue_deposit(ALICE, 400, true).unwrap();
    run_round(&mut v, 0);
    v.start_round().unwrap();
    assert_eq!(v.round(2).unwrap().underlying_pre_enter, Some(400));
    assert_eq!(v.round(2).unwrap().number, 2);
    assert_eq!(v.round(3), None);
    assert_eq!(v.round(0), None);
}

#[test]
fn prepare_refuses_while_capital_deployed() {
    let mut v = open_vault(1_000_000, 1_000_000);
    v.start_round().unwrap();
    v.deployed = 5;
    assert_eq!(v.prepare(), Err(ErrorCode::NonUnderlyingPoolsHaveAssets));
}

#[test]
fn enter_cannot_take_more_than_the_pool() {
    let mut v = open_vault(1_000_000, 1_000_000);
    v.start_round().unwrap();
    v.prepare().unwrap();
    assert_eq!(v.enter(1, true), Err(ErrorCode::InsufficientLiquidity));
}

#[test]
fn settle_charges_performance_fee() {
    let mut v = open_vault(1_000_000, 1_000_000);
    v.set_instant_transfers(ADMIN, true).unwrap();
    assert_eq!(v.instant_deposit(ALICE, 1000, true), Ok(1000));
    v.start_round().unwrap();
    v.prepare().unwrap();
    v.enter(1000, true).unwrap();
    assert_eq!(v.deployed, 1000);
    assert_eq!(v.deposit_pool, 0);
    assert_eq!(v.settle(100, 200), Err(ErrorCode::InvalidAmount));
    v.settle(1200, 20).unwrap();
    assert_eq!(v.deployed, 0);
    assert_eq!(v.deposit_pool, 1180);
    assert_eq!(v.fees_collected, 20);
    assert_eq!(v.round(1).unwrap().underlying_post_settle, Some(1180));
    assert_eq!(v.round(1).unwrap().performance_accrual, Some(20));
}

#[test]
fn end_round_deducts_withdrawal_fee() {
    let mut v = open_vault(1_000_000, 1_000_000);
    v.set_instant_transfers(ADMIN, true).unwrap();
    v.instant_deposit(ALICE, 1000, true).unwrap();
    v.set_instant_transfers(ADMIN, false).unwrap();
    v.start_round().unwrap();
    v.queue_withdrawal(ALICE, 400, true).unwrap();
    v.prepare().unwrap();
    v.enter(1000, true).unwrap();
    v.settle(1000, 0).unwrap();
    assert_eq!(v.end_round(401), Err(ErrorCode::InvalidAmount));
    v.end_round(40).unwrap();
    assert_eq!(v.withdrawal_reserve, 360);
    assert_eq!(v.deposit_pool, 600);
    assert_eq!(v.fees_collected, 40);
    assert_eq!(v.claim_pending_withdrawal(ALICE), Ok(360));
    assert_eq!(v.withdrawal_reserve, 0);
}

#[test]
fn end_round_refuses_shares_without_equity() {
    let mut v = open_vault(1_000_000, 1_000_000);
    v.set_instant_transfers(ADMIN, true).unwrap();
    v.instant_deposit(ALICE, 1000, true).unwrap();
    v.start_round().unwrap();
    v.queue_deposit(BOB, 10, true).unwrap();
    v.prepare().unwrap();
    v.enter(1000, true).unwrap();
    v.settle(0, 0).unwrap();
    assert_eq!(
        v.end_round(0),
        Err(ErrorCode::VaultMintSupplyMustBeZeroIfEquityIsZero)
    );
    assert_eq!(v.phase, Phase::Settled);
}

#[test]
fn cancel_pending_deposit_refunds_in_open_round_only() {
    let mut v = open_vault(1_000_000, 1_000_000);
    v.start_round().unwrap();
    assert_eq!(v.cancel_pending_deposit(ALICE), Err(ErrorCode::PendingRequestNotFound));
    v.queue_deposit(ALICE, 250, true).unwrap();
    v.queue_deposit(BOB, 100, true).unwrap();
    assert_eq!(v.cancel_pending_deposit(ALICE), Ok(250));
    assert_eq!(v.pending_deposit_pool, 100);
    assert_eq!(v.round(1).unwrap().underlying_from_pending_deposits, 100);
    assert_eq!(v.pending_deposit(ALICE).amount, 0);
    run_round(&mut v, 0);
    assert_eq!(v.cancel_pending_deposit(BOB), Err(ErrorCode::CannotCancelFromOldRound));
}

#[test]
fn cancel_pending_withdrawal_returns_escrowed_shares() {
    let mut v = open_vault(1_000_000, 1_000_000);
    v.set_instant_transfers(ADMIN, true).unwrap();
    v.instant_deposit(ALICE, 500, true).unwrap();
    v.start_round().unwrap();
    v.queue_withdrawal(ALICE, 200, true).unwrap();
    assert_eq!(v.balance_of(ALICE), 300);
    assert_eq!(v.escrowed_shares, 200);
    assert_eq!(v.cancel_pending_withdrawal(ALICE), Ok(200));
    assert_eq!(v.balance_of(ALICE), 500);
    assert_eq!(v.escrowed_shares, 0);
    assert_eq!(v.cancel_pending_withdrawal(ALICE), Err(ErrorCode::PendingRequestNotFound));
    v.queue_withdrawal(ALICE, 100, true).unwrap();
    run_round(&mut v, 500);
    assert_eq!(
        v.cancel_pending_withdrawal(ALICE),
        Err(ErrorCode::CannotCancelFromOldRound)
    );
}

#[test]
fn claims_wait_for_the_round_to_close() {
    let mut v = open_vault(1_000_000, 1_000_000);
    assert_eq!(v.claim_pending(ALICE), Err(ErrorCode::PendingRequestNotFound));
    assert_eq!(
        v.claim_pending_withdrawal(ALICE),
        Err(ErrorCode::PendingRequestNotFound)
    );
    v.start_round().unwrap();
    v.queue_deposit(ALICE, 100, true).unwrap();
    assert_eq!(v.claim_pending(ALICE), Err(ErrorCode::RoundNotYetSettled));
    v.prepare().unwrap();
    v.enter(0, true).unwrap();
    v.settle(0, 0).unwrap();
    assert_eq!(v.claim_pending(ALICE), Err(ErrorCode::RoundNotYetSettled));
    v.end_round(0).unwrap();
    assert_eq!(v.claim_pending(ALICE), Ok(100));
    assert_eq!(v.claim_pending(ALICE), Err(ErrorCode::PendingRequestNotFound));
}

#[test]
fn queueing_needs_an_open_round() {
    let mut v = open_vault(1_000_000, 1_000_000);
    assert_eq!(v.queue_deposit(ALICE, 10, true), Err(ErrorCode::RoundHasNotStarted));
    assert_eq!(v.queue_withdrawal(ALICE, 10, true), Err(ErrorCode::RoundHasNotStarted));
    v.start_round().unwrap();
    run_round(&mut v, 0);
    assert_eq!(v.queue_deposit(ALICE, 10, true), Err(ErrorCode::RoundHasNotStarted));
}

#[test]
fn queueing_checks_amount_and_whitelist() {
    let mut v = VoltVault::new(ADMIN, 7, 1_000_000, 100, true, false);
    v.start_round().unwrap();
    assert_eq!(v.queue_deposit(ALICE, 10, false), Err(ErrorCode::NonWhitelistedUser));
    assert_eq!(v.queue_withdrawal(ALICE, 10, false), Err(ErrorCode::NonWhitelistedUser));
    assert_eq!(v.queue_deposit(ALICE, 0, true), Err(ErrorCode::InvalidAmount));
    assert_eq!(v.queue_withdrawal(ALICE, 0, true), Err(ErrorCode::InvalidAmount));
    assert_eq!(v.queue_withdrawal(ALICE, 1, true), Err(ErrorCode::InsufficientShares));
    v.queue_deposit(ALICE, 60, true).unwrap();
    assert_eq!(
        v.queue_deposit(ALICE, 41, true),
        Err(ErrorCode::IndividualDepositCapacityExceeded)
    );
    assert_eq!(v.queue_deposit(ALICE, 40, true), Ok(()));
}

#[test]
fn instant_transfers_use_the_pool_price() {
    let mut v = open_vault(1_000_000, 1_000_000);
    assert_eq!(v.instant_deposit(ALICE, 10, true), Err(ErrorCode::InstantTransfersDisabled));
    assert_eq!(v.set_instant_transfers(BOB, true), Err(ErrorCode::Unauthorized));
    v.set_instant_transfers(ADMIN, true).unwrap();
    assert_eq!(v.instant_deposit(ALICE, 0, true), Err(ErrorCode::InvalidAmount));
    assert_eq!(v.instant_deposit(ALICE, 1000, true), Ok(1000));
    v.deposit_pool = 2000;
    assert_eq!(v.instant_deposit(BOB, 1000, true), Ok(500));
    assert_eq!(v.total_shares, 1500);
    assert_eq!(v.instant_withdrawal(BOB, 501), Err(ErrorCode::InsufficientShares));
    assert_eq!(v.instant_withdrawal(BOB, 0), Err(ErrorCode::InvalidAmount));
    assert_eq!(v.instant_withdrawal(BOB, 300), Ok(600));
    assert_eq!(v.deposit_pool, 2400);
    assert_eq!(v.balance_of(BOB), 200);
    assert_eq!(v.share_supply(), 1200);
    v.start_round().unwrap();
    v.prepare().unwrap();
    assert_eq!(v.instant_withdrawal(ALICE, 1), Err(ErrorCode::InstantTransfersDisabled));
}

#[test]
fn instant_deposit_checks_caps() {
    let mut v = VoltVault::new(ADMIN, 7, 1_000_000, 50, true, true);
    assert_eq!(v.instant_deposit(ALICE, 10, false), Err(ErrorCode::NonWhitelistedUser));
    assert_eq!(
        v.instant_deposit(ALICE, 51, true),
        Err(ErrorCode::IndividualDepositCapacityExceeded)
    );
    assert_eq!(v.instant_deposit(ALICE, 50, true), Ok(50));
}
