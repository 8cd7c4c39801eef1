//! The vault: its round lifecycle, its pools of underlying and its shares.
use vstd::prelude::*;

use crate::error::ErrorCode;
use crate::key::{check_key, key_of, EntityKey, EntityTag};
use crate::ledger::{sum_balances, ShareLedger};
use crate::pending::{PendingQueue, PendingRequest};
use crate::round::{opened_round, Round};
use crate::owed::{
    claims_at, lemma_claims_change, lemma_claims_frame, lemma_claims_open_round, outstanding_claims,
};
use crate::settlement::{
    has_price, lemma_pro_rata_whole, lemma_settlement_fairness, lemma_withdrawal_bounded, shares_for,
    shares_for_deposit, underlying_for, underlying_for_withdrawal,
};

verus! {

/// Where the current round stands. Phases follow each other in this order
/// and none repeats within a round; `Closed` holds from the end of one round
/// to the start of the next, and before the first.
#[derive(Clone, Copy, Debug, PartialEq, Eq, Structural)]
pub enum Phase {
    AwaitingEnter,
    Prepared,
    Entered,
    Settled,
    Closed,
}

/// A pooled-fund vault.
///
/// Underlying units are held in four places: `deposit_pool` (the liquid
/// capital of the shareholders), `deployed` (capital in the strategy
/// position), `pending_deposit_pool` (deposits queued in the open round) and
/// `withdrawal_reserve` (set aside for settled withdrawals). Shares
/// outstanding (`total_shares`) are those in the ledger, those escrowed by
/// queued withdrawals, and those minted for settled deposits but not yet
/// claimed.
pub struct VoltVault {
    pub admin_key: u64,
    pub vault_id: u64,
    /// Number of the current round; 0 before the first round starts.
    pub round_number: u64,
    pub phase: Phase,
    pub instant_transfers_enabled: bool,
    /// Deposits and withdrawals are restricted to whitelisted users.
    pub is_whitelisted: bool,
    pub have_taken_withdrawal_fees: bool,
    /// Most underlying that the vault may hold for its shareholders.
    pub capacity: u64,
    /// Most underlying that one user may have queued or deposit at once.
    pub individual_capacity: u64,
    pub deposit_pool: u64,
    pub deployed: u64,
    pub pending_deposit_pool: u64,
    pub withdrawal_reserve: u64,
    pub fees_collected: u64,
    pub total_shares: u64,
    pub escrowed_shares: u64,
    pub unclaimed_shares: u64,
    pub shares: ShareLedger,
    /// The record of round `n` stands at index `n - 1`.
    pub rounds: Vec<Round>,
    pub pending_deposits: PendingQueue,
    pub pending_withdrawals: PendingQueue,
}

impl VoltVault {
    /// The record of the current round.
    pub open spec fn current(&self) -> Round {
        self.rounds@[self.round_number - 1]
    }

    /// A round has started and not yet closed.
    pub open spec fn round_open(&self) -> bool {
        self.round_number > 0 && self.phase != Phase::Closed
    }

    /// The records of the rounds are numbered in order; every round before
    /// the current one has been settled.
    pub open spec fn rounds_wf(&self) -> bool {
        &&& self.rounds@.len() == self.round_number
        &&& forall|i: int| 0 <= i < self.rounds@.len() ==> #[trigger] self.rounds@[i].number == i + 1
        &&& forall|i: int| 0 <= i < self.rounds@.len() - 1 ==> (#[trigger] self.rounds@[i]).settled()
    }

    /// The current round's record has written what its phase has reached, and
    /// nothing more.
    pub open spec fn phase_wf(&self) -> bool {
        &&& self.round_number == 0 ==> self.phase == Phase::Closed
        &&& self.round_number > 0 ==> {
            let c = self.current();
            &&& c.underlying_pre_enter is Some
            &&& (self.phase == Phase::AwaitingEnter || self.phase == Phase::Prepared || self.phase
                == Phase::Entered) ==> c.underlying_post_settle is None && c.performance_accrual is None
            &&& self.phase == Phase::Settled ==> c.underlying_post_settle is Some
                && c.performance_accrual is Some
            &&& self.phase != Phase::Closed ==> {
                &&& c.volt_token_supply is None
                &&& c.volt_tokens_for_pending_deposits is None
                &&& c.underlying_for_pending_withdrawals is None
            }
            &&& self.phase == Phase::Closed ==> c.settled() && self.have_taken_withdrawal_fees
        }
    }

    /// Queued requests target rounds that exist; those of the open round add
    /// up to its totals and to what the vault holds for them; those of a
    /// settled round never exceed what the round settled.
    pub open spec fn queues_wf(&self) -> bool {
        &&& self.pending_deposits.wf()
        &&& self.pending_withdrawals.wf()
        &&& forall|user: u64| #[trigger]
            self.pending_deposits.request(user).round_number <= self.round_number
        &&& forall|user: u64| #[trigger]
            self.pending_withdrawals.request(user).round_number <= self.round_number
        &&& self.round_open() ==> {
            &&& self.pending_deposits.total_for(self.round_number)
                == self.current().underlying_from_pending_deposits
            &&& self.current().underlying_from_pending_deposits == self.pending_deposit_pool
            &&& self.pending_withdrawals.total_for(self.round_number)
                == self.current().volt_tokens_from_pending_withdrawals
            &&& self.current().volt_tokens_from_pending_withdrawals == self.escrowed_shares
        }
        &&& !self.round_open() ==> self.pending_deposit_pool == 0 && self.escrowed_shares == 0
        &&& forall|i: int|
            0 <= i < self.rounds@.len() && (#[trigger] self.rounds@[i]).settled() ==> {
                &&& self.pending_deposits.total_for((i + 1) as u64)
                    <= self.rounds@[i].underlying_from_pending_deposits
                &&& self.pending_withdrawals.total_for((i + 1) as u64)
                    <= self.rounds@[i].volt_tokens_from_pending_withdrawals
            }
    }

    /// Every outstanding share is in the ledger, in escrow, or minted and
    /// unclaimed.
    pub open spec fn shares_wf(&self) -> bool {
        &&& self.shares.wf()
        &&& self.total_shares == self.shares.supply() + self.escrowed_shares + self.unclaimed_shares
    }

    /// The unclaimed shares cover what pending deposits of settled rounds
    /// are owed, and the withdrawal reserve what their pending withdrawals
    /// are owed.
    pub open spec fn claims_wf(&self) -> bool {
        &&& self.unclaimed_shares >= outstanding_claims(
            self.rounds@,
            self.pending_deposits,
            true,
            self.round_number as nat,
        )
        &&& self.withdrawal_reserve >= outstanding_claims(
            self.rounds@,
            self.pending_withdrawals,
            false,
            self.round_number as nat,
        )
    }

    /// The vault's invariant.
    pub open spec fn wf(&self) -> bool {
        &&& self.rounds_wf()
        &&& self.phase_wf()
        &&& self.queues_wf()
        &&& self.shares_wf()
        &&& self.claims_wf()
    }

    /// A vault before its first round, holding nothing.
    pub fn new(
        admin_key: u64,
        vault_id: u64,
        capacity: u64,
        individual_capacity: u64,
        is_whitelisted: bool,
        instant_transfers_enabled: bool,
    ) -> (r: Self)
        ensures
            r.wf(),
            r.admin_key == admin_key,
            r.vault_id == vault_id,
            r.capacity == capacity,
            r.individual_capacity == individual_capacity,
            r.is_whitelisted == is_whitelisted,
            r.instant_transfers_enabled == instant_transfers_enabled,
            r.round_number == 0,
            r.phase == Phase::Closed,
            r.deposit_pool == 0,
            r.deployed == 0,
            r.withdrawal_reserve == 0,
            r.fees_collected == 0,
            r.total_shares == 0,
            r.shares.holdings() == Map::<u64, u64>::empty(),
            r.pending_deposits.requests() == Map::<u64, PendingRequest>::empty(),
            r.pending_withdrawals.requests() == Map::<u64, PendingRequest>::empty(),
    {
        VoltVault {
            admin_key,
            vault_id,
            round_number: 0,
            phase: Phase::Closed,
            instant_transfers_enabled,
            is_whitelisted,
            have_taken_withdrawal_fees: false,
            capacity,
            individual_capacity,
            deposit_pool: 0,
            deployed: 0,
            pending_deposit_pool: 0,
            withdrawal_reserve: 0,
            fees_collected: 0,
            total_shares: 0,
            escrowed_shares: 0,
            unclaimed_shares: 0,
            shares: ShareLedger::new(),
            rounds: Vec::new(),
            pending_deposits: PendingQueue::new(),
            pending_withdrawals: PendingQueue::new(),
        }
    }

    /// Opens the next round, recording the liquid underlying as its
    /// pre-enter balance. The previous round must be closed, with its
    /// withdrawal fees taken.
    pub fn start_round(&mut self) -> (r: Result<(), ErrorCode>)
        requires
            old(self).wf(),
        ensures
            final(self).wf(),
            r == (if old(self).phase != Phase::Closed {
                Err(ErrorCode::InvalidStartRoundState)
            } else if old(self).round_number > 0 && !old(self).have_taken_withdrawal_fees {
                Err(ErrorCode::MustTakeWithdrawalFeesBeforeStartingRound)
            } else if old(self).round_number == u64::MAX {
                Err(ErrorCode::RoundNumberOverflow)
            } else {
                Ok(())
            }),
            r is Ok ==> *final(self) == (VoltVault {
                round_number: (old(self).round_number + 1) as u64,
                phase: Phase::AwaitingEnter,
                have_taken_withdrawal_fees: false,
                rounds: final(self).rounds,
                ..*old(self)
            }),
            r is Ok ==> final(self).rounds@ == old(self).rounds@.push(
                (Round {
                    underlying_pre_enter: Some(old(self).deposit_pool),
                    ..opened_round((old(self).round_number + 1) as u64)
                }),
            ),
            r is Err ==> *final(self) == *old(self),
    {
        if self.phase != Phase::Closed {
            return Err(ErrorCode::InvalidStartRoundState);
        }
        if self.round_number > 0 && !self.have_taken_withdrawal_fees {
            return Err(ErrorCode::MustTakeWithdrawalFeesBeforeStartingRound);
        }
        if self.round_number == u64::MAX {
            return Err(ErrorCode::RoundNumberOverflow);
        }
        let number = self.round_number + 1;
        let mut round = Round::open(number);
        let recorded = round.record_pre_enter_balance(self.deposit_pool);
        assert(recorded is Ok);
        proof {
            self.pending_deposits.lemma_untargeted(number);
            self.pending_withdrawals.lemma_untargeted(number);
        }
        self.rounds.push(round);
        self.round_number = number;
        self.phase = Phase::AwaitingEnter;
        self.have_taken_withdrawal_fees = false;
        proof {
            let n = old(self).round_number as nat;
            assert forall|j: nat| 1 <= j <= n implies #[trigger] claims_at(
                old(self).rounds@,
                self.pending_deposits,
                true,
                j,
            ) == claims_at(self.rounds@, self.pending_deposits, true, j) && claims_at(
                old(self).rounds@,
                self.pending_withdrawals,
                false,
                j,
            ) == claims_at(self.rounds@, self.pending_withdrawals, false, j) by {
                assert(old(self).rounds@[j - 1] == self.rounds@[j - 1]);
            }
            lemma_claims_frame(
                old(self).rounds@,
                self.pending_deposits,
                self.rounds@,
                self.pending_deposits,
                true,
                n,
            );
            lemma_claims_frame(
                old(self).rounds@,
                self.pending_withdrawals,
                self.rounds@,
                self.pending_withdrawals,
                false,
                n,
            );
        }
        Ok(())
    }

    /// Moves an awaiting round to the prepared phase. Fails while capital is
    /// still deployed in the strategy.
    pub fn prepare(&mut self) -> (r: Result<(), ErrorCode>)
        requires
            old(self).wf(),
        ensures
            final(self).wf(),
            r == (if old(self).phase != Phase::AwaitingEnter {
                Err(ErrorCode::InvalidPrepareState)
            } else if old(self).deployed > 0 {
                Err(ErrorCode::NonUnderlyingPoolsHaveAssets)
            } else {
                Ok(())
            }),
            r is Ok ==> *final(self) == (VoltVault { phase: Phase::Prepared, ..*old(self) }),
            r is Err ==> *final(self) == *old(self),
    {
        if self.phase != Phase::AwaitingEnter {
            return Err(ErrorCode::InvalidPrepareState);
        }
        if self.deployed > 0 {
            return Err(ErrorCode::NonUnderlyingPoolsHaveAssets);
        }
        self.phase = Phase::Prepared;
        Ok(())
    }

    /// Records that the strategy took `filled` units of the liquid
    /// underlying into its position. The phase becomes `Entered` once the
    /// strategy reports the position `finished`; until then `enter` may be
    /// called again.
    pub fn enter(&mut self, filled: u64, finished: bool) -> (r: Result<(), ErrorCode>)
        requires
            old(self).wf(),
        ensures
            final(self).wf(),
            r == (if old(self).phase != Phase::Prepared {
                Err(ErrorCode::InvalidEnterState)
            } else if filled > old(self).deposit_pool {
                Err(ErrorCode::InsufficientLiquidity)
            } else if old(self).deployed + filled > u64::MAX {
                Err(ErrorCode::NumberOverflow)
            } else {
                Ok(())
            }),
            r is Ok ==> *final(self) == (VoltVault {
                deposit_pool: (old(self).deposit_pool - filled) as u64,
                deployed: (old(self).deployed + filled) as u64,
                phase: if finished {
                    Phase::Entered
                } else {
                    Phase::Prepared
                },
                ..*old(self)
            }),
            r is Err ==> *final(self) == *old(self),
    {
        if self.phase != Phase::Prepared {
            return Err(ErrorCode::InvalidEnterState);
        }
        if filled > self.deposit_pool {
            return Err(ErrorCode::InsufficientLiquidity);
        }
        if filled > u64::MAX - self.deployed {
            return Err(ErrorCode::NumberOverflow);
        }
        self.deposit_pool = self.deposit_pool - filled;
        self.deployed = self.deployed + filled;
        if finished {
            self.phase = Phase::Entered;
        }
        Ok(())
    }

    /// Records that the strategy position was unwound, returning `recovered`
    /// units of which `performance_fee` is charged as the round's
    /// performance fee. The rest joins the liquid underlying, which becomes
    /// the round's post-settle balance.
    pub fn settle(&mut self, recovered: u64, performance_fee: u64) -> (r: Result<(), ErrorCode>)
        requires
            old(self).wf(),
        ensures
            final(self).wf(),
            r == (if old(self).phase != Phase::Entered {
                Err(ErrorCode::InvalidSettleState)
            } else if performance_fee > recovered {
                Err(ErrorCode::InvalidAmount)
            } else if old(self).deposit_pool + (recovered - performance_fee) > u64::MAX
                || old(self).fees_collected + performance_fee > u64::MAX {
                Err(ErrorCode::NumberOverflow)
            } else {
                Ok(())
            }),
            r is Ok ==> *final(self) == (VoltVault {
                deposit_pool: (old(self).deposit_pool + (recovered - performance_fee)) as u64,
                deployed: 0,
                fees_collected: (old(self).fees_collected + performance_fee) as u64,
                phase: Phase::Settled,
                rounds: final(self).rounds,
                ..*old(self)
            }),
            r is Ok ==> final(self).rounds@ == old(self).rounds@.update(
                old(self).round_number - 1,
                (Round {
                    underlying_post_settle: Some(final(self).deposit_pool),
                    performance_accrual: Some(performance_fee),
                    ..old(self).current()
                }),
            ),
            r is Err ==> *final(self) == *old(self),
    {
        if self.phase != Phase::Entered {
            return Err(ErrorCode::InvalidSettleState);
        }
        if performance_fee > recovered {
            return Err(ErrorCode::InvalidAmount);
        }
        let net = recovered - performance_fee;
        if net > u64::MAX - self.deposit_pool || performance_fee > u64::MAX - self.fees_collected {
            return Err(ErrorCode::NumberOverflow);
        }
        let pool = self.deposit_pool + net;
        let idx = self.rounds.len() - 1;
        let mut round = self.rounds[idx];
        let a = round.record_post_settle_balance(pool);
        let b = round.record_performance_accrual(performance_fee);
        assert(a is Ok && b is Ok);
        self.rounds.set(idx, round);
        self.deposit_pool = pool;
        self.deployed = 0;
        self.fees_collected = self.fees_collected + performance_fee;
        self.phase = Phase::Settled;
        proof {
            let n = self.round_number as nat;
            lemma_claims_open_round(
                old(self).rounds@,
                old(self).pending_deposits,
                self.rounds@,
                self.pending_deposits,
                true,
                n,
                n,
            );
            lemma_claims_open_round(
                old(self).rounds@,
                old(self).pending_withdrawals,
                self.rounds@,
                self.pending_withdrawals,
                false,
                n,
                n,
            );
        }
        Ok(())
    }

    /// Shares outstanding when the current round closes.
    pub open spec fn close_supply(&self) -> nat {
        self.total_shares as nat
    }

    /// The current round's post-settle balance.
    pub open spec fn close_equity(&self) -> nat {
        self.current().underlying_post_settle->0 as nat
    }

    /// Shares that the current round's queued deposits convert to at close.
    pub open spec fn close_minted(&self) -> nat {
        shares_for(
            self.current().underlying_from_pending_deposits as nat,
            self.close_supply(),
            self.close_equity(),
        )
    }

    /// Underlying that the current round's queued withdrawals convert to at
    /// close, before fees.
    pub open spec fn close_gross(&self) -> nat {
        underlying_for(
            self.current().volt_tokens_from_pending_withdrawals as nat,
            self.close_supply(),
            self.close_equity(),
        )
    }

    /// Why `end_round` would refuse, if it would.
    pub open spec fn end_round_refusal(&self, withdrawal_fee: u64) -> Option<ErrorCode> {
        let d = self.current().underlying_from_pending_deposits as nat;
        let w = self.current().volt_tokens_from_pending_withdrawals as nat;
        if self.phase != Phase::Settled {
            Some(ErrorCode::InvalidEndRoundState)
        } else if !has_price(self.close_supply(), self.close_equity()) {
            Some(ErrorCode::VaultMintSupplyMustBeZeroIfEquityIsZero)
        } else if self.close_minted() > u64::MAX {
            Some(ErrorCode::NumberOverflow)
        } else if withdrawal_fee > self.close_gross() {
            Some(ErrorCode::InvalidAmount)
        } else if self.close_gross() > self.deposit_pool {
            Some(ErrorCode::InsufficientLiquidity)
        } else if self.close_supply() - w + self.close_minted() > u64::MAX
            || self.deposit_pool - self.close_gross() + d > u64::MAX
            || self.withdrawal_reserve + (self.close_gross() - withdrawal_fee) > u64::MAX
            || self.fees_collected + withdrawal_fee > u64::MAX {
            Some(ErrorCode::NumberOverflow)
        } else {
            None
        }
    }

    /// Closes the settled round. Its queued deposits are converted to shares
    /// and its queued withdrawals to underlying, both at the round's price
    /// (`close_equity / close_supply`, or one unit per share where no shares
    /// are outstanding). The deposits' underlying joins the liquid pool; the
    /// withdrawals' underlying, less `withdrawal_fee`, is set aside for their
    /// claims; the escrowed shares are burned.
    pub fn end_round(&mut self, withdrawal_fee: u64) -> (r: Result<(), ErrorCode>)
        requires
            old(self).wf(),
        ensures
            final(self).wf(),
            r == (match old(self).end_round_refusal(withdrawal_fee) {
                Some(e) => Err(e),
                None => Ok(()),
            }),
            r is Ok ==> old(self).close_gross() <= old(self).close_equity(),
            r is Ok ==> *final(self) == (VoltVault {
                deposit_pool: (old(self).deposit_pool - old(self).close_gross()
                    + old(self).current().underlying_from_pending_deposits) as u64,
                pending_deposit_pool: 0,
                withdrawal_reserve: (old(self).withdrawal_reserve + (old(self).close_gross()
                    - withdrawal_fee)) as u64,
                fees_collected: (old(self).fees_collected + withdrawal_fee) as u64,
                total_shares: (old(self).close_supply()
                    - old(self).current().volt_tokens_from_pending_withdrawals
                    + old(self).close_minted()) as u64,
                escrowed_shares: 0,
                unclaimed_shares: (old(self).unclaimed_shares + old(self).close_minted()) as u64,
                have_taken_withdrawal_fees: true,
                phase: Phase::Closed,
                rounds: final(self).rounds,
                ..*old(self)
            }),
            r is Ok ==> final(self).rounds@ == old(self).rounds@.update(
                old(self).round_number - 1,
                (Round {
                    volt_token_supply: Some(old(self).total_shares),
                    volt_tokens_for_pending_deposits: Some(old(self).close_minted() as u64),
                    underlying_for_pending_withdrawals: Some(
                        (old(self).close_gross() - withdrawal_fee) as u64,
                    ),
                    ..old(self).current()
                }),
            ),
            r is Err ==> *final(self) == *old(self),
    {
        if self.phase != Phase::Settled {
            return Err(ErrorCode::InvalidEndRoundState);
        }
        let idx = self.rounds.len() - 1;
        let mut round = self.rounds[idx];
        let supply = self.total_shares;
        let equity = match round.underlying_post_settle {
            Some(u) => u,
            None => 0,
        };
        let deposits = round.underlying_from_pending_deposits;
        let withdrawals = round.volt_tokens_from_pending_withdrawals;
        let minted = shares_for_deposit(deposits, supply, equity)?;
        let gross = match underlying_for_withdrawal(withdrawals, supply, equity) {
            Ok(g) => g,
            Err(e) => {
                return Err(e);
            },
        };
        if withdrawal_fee > gross {
            return Err(ErrorCode::InvalidAmount);
        }
        if gross > self.deposit_pool {
            return Err(ErrorCode::InsufficientLiquidity);
        }
        let remaining = supply - withdrawals;
        let liquid = self.deposit_pool - gross;
        let net = gross - withdrawal_fee;
        if minted > u64::MAX - remaining || deposits > u64::MAX - liquid || net > u64::MAX
            - self.withdrawal_reserve || withdrawal_fee > u64::MAX - self.fees_collected {
            return Err(ErrorCode::NumberOverflow);
        }
        let recorded = round.record_settlement(supply, minted, net);
        assert(recorded is Ok);
        self.rounds.set(idx, round);
        self.deposit_pool = liquid + deposits;
        self.pending_deposit_pool = 0;
        self.withdrawal_reserve = self.withdrawal_reserve + net;
        self.fees_collected = self.fees_collected + withdrawal_fee;
        self.total_shares = remaining + minted;
        self.escrowed_shares = 0;
        self.unclaimed_shares = self.unclaimed_shares + minted;
        self.have_taken_withdrawal_fees = true;
        self.phase = Phase::Closed;
        proof {
            let n = self.round_number as nat;
            lemma_claims_change(
                old(self).rounds@,
                self.pending_deposits,
                self.rounds@,
                self.pending_deposits,
                true,
                n,
                n,
            );
            lemma_claims_change(
                old(self).rounds@,
                self.pending_withdrawals,
                self.rounds@,
                self.pending_withdrawals,
                false,
                n,
                n,
            );
            lemma_withdrawal_bounded(withdrawals as nat, supply as nat, equity as nat);
            if deposits > 0 {
                lemma_pro_rata_whole(minted as nat, deposits as nat);
            }
            if withdrawals > 0 {
                lemma_pro_rata_whole(net as nat, withdrawals as nat);
            }
        }
        Ok(())
    }

    /// The pending deposit of `user`.
    pub fn pending_deposit(&self, user: u64) -> (r: PendingRequest)
        requires
            self.wf(),
        ensures
            r == self.pending_deposits.request(user),
    {
        self.pending_deposits.get(user)
    }

    /// The pending withdrawal of `user`.
    pub fn pending_withdrawal(&self, user: u64) -> (r: PendingRequest)
        requires
            self.wf(),
        ensures
            r == self.pending_withdrawals.request(user),
    {
        self.pending_withdrawals.get(user)
    }

    /// The shares held by `user`.
    pub fn balance_of(&self, user: u64) -> (r: u64)
        requires
            self.wf(),
        ensures
            r == self.shares.balance(user),
    {
        self.shares.balance_of(user)
    }

    /// The shares held in the ledger, all holders together.
    pub fn share_supply(&self) -> (r: u64)
        ensures
            r == self.shares.supply(),
    {
        self.shares.total_supply()
    }

    /// The record of round `number`, if that round has started.
    pub fn round(&self, number: u64) -> (r: Option<Round>)
        requires
            self.wf(),
        ensures
            r == (if 1 <= number <= self.round_number {
                Some(self.rounds@[number - 1])
            } else {
                None::<Round>
            }),
    {
        let len = self.rounds.len();
        if number == 0 || number > self.round_number {
            None
        } else {
            assert(number <= len);
            Some(self.rounds[(number - 1) as usize])
        }
    }

    /// Accepts `key` only where it is the key of this vault's entity of kind
    /// `tag` for `index`.
    pub fn check_entity_key(&self, key: &EntityKey, tag: EntityTag, index: u64) -> (r: Result<
        (),
        ErrorCode,
    >)
        ensures
            r == (if *key == key_of(self.vault_id, tag, index) {
                Ok(())
            } else {
                Err(ErrorCode::InvalidEntityKey)
            }),
    {
        check_key(key, self.vault_id, tag, index)
    }

    /// Shares are conserved: the ledger's supply is the sum of the balances
    /// of its holders, each counted once, and every outstanding share is in
    /// the ledger, in escrow or minted and unclaimed.
    pub proof fn lemma_share_conservation(&self)
        requires
            self.wf(),
        ensures
            self.shares.supply() == sum_balances(self.shares.accounts()),
            self.total_shares == self.shares.supply() + self.escrowed_shares + self.unclaimed_shares,
    {
        self.shares.lemma_conservation();
    }

    /// A user has one pending request of each kind: while a request of the
    /// user's targets another round than the open one, queueing a new one
    /// fails with `UnclaimedPendingRequestExists`.
    pub proof fn lemma_one_pending_request(&self, user: u64, amount: u64, authorized: bool)
        requires
            self.wf(),
            self.round_open(),
            !self.is_whitelisted || authorized,
            amount > 0,
        ensures
            ({
                let p = self.pending_deposits.request(user);
                p.round_number != 0 && p.round_number != self.round_number
                    ==> self.queue_deposit_refusal(user, amount, authorized) == Some(
                    ErrorCode::UnclaimedPendingRequestExists,
                )
            }),
            ({
                let p = self.pending_withdrawals.request(user);
                p.round_number != 0 && p.round_number != self.round_number
                    ==> self.queue_withdrawal_refusal(user, amount, authorized) == Some(
                    ErrorCode::UnclaimedPendingRequestExists,
                )
            }),
    {
    }

    /// Claims on deposits of one round are fair: users `a` and `b` who
    /// queued `x` and `y` units receive shares in the ratio `x : y` up to
    /// one share of truncation, and the larger deposit never receives fewer.
    pub proof fn lemma_claims_fair(&self, a: u64, b: u64)
        requires
            self.wf(),
            self.pending_deposits.request(a).round_number != 0,
            self.pending_deposits.request(a).round_number == self.pending_deposits.request(
                b,
            ).round_number,
        ensures
            ({
                let x = self.pending_deposits.request(a).amount as nat;
                let y = self.pending_deposits.request(b).amount as nat;
                &&& self.deposit_claim(a) * y <= (self.deposit_claim(b) + 1) * x
                &&& x <= y ==> self.deposit_claim(a) <= self.deposit_claim(b)
            }),
    {
        let p = self.pending_deposits.request(a);
        self.pending_deposits.lemma_request(a);
        let i = p.round_number - 1;
        let round = self.rounds@[i];
        if round.settled() {
            assert((i + 1) as u64 == p.round_number);
        } else {
            assert(i == self.round_number - 1);
        }
        lemma_settlement_fairness(
            p.amount as nat,
            self.pending_deposits.request(b).amount as nat,
            round.volt_tokens_for_pending_deposits->0 as nat,
            round.underlying_from_pending_deposits as nat,
        );
    }
}

} // verus!
