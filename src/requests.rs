//! Queued deposits and withdrawals: queueing, cancelling and claiming.
use vstd::prelude::*;

use crate::error::ErrorCode;
use crate::owed::{
    lemma_claims_change, lemma_claims_open_round, lemma_claims_within, lemma_requests_within,
};
use crate::pending::{no_request, PendingRequest};
use crate::round::Round;
use crate::settlement::{lemma_settlement_fairness, pro_rata, pro_rata_part};
use crate::vault::{Phase, VoltVault};

verus! {

impl VoltVault {
    /// Underlying that counts toward the capacity: the liquid pool, the
    /// deployed capital and the deposits queued in the open round.
    pub open spec fn vault_value(&self) -> nat {
        self.deposit_pool as nat + self.deployed as nat + self.pending_deposit_pool as nat
    }

    /// Why `queue_deposit` would refuse, if it would.
    pub open spec fn queue_deposit_refusal(&self, user: u64, amount: u64, authorized: bool) -> Option<
        ErrorCode,
    > {
        let p = self.pending_deposits.request(user);
        if !self.round_open() {
            Some(ErrorCode::RoundHasNotStarted)
        } else if self.is_whitelisted && !authorized {
            Some(ErrorCode::NonWhitelistedUser)
        } else if amount == 0 {
            Some(ErrorCode::InvalidAmount)
        } else if p.round_number != 0 && p.round_number != self.round_number {
            Some(ErrorCode::UnclaimedPendingRequestExists)
        } else if self.vault_value() + amount > self.capacity {
            Some(ErrorCode::VaultCapacityExceeded)
        } else if p.amount + amount > self.individual_capacity {
            Some(ErrorCode::IndividualDepositCapacityExceeded)
        } else {
            None
        }
    }

    /// Queues a deposit of `amount` underlying units by `user` into the open
    /// round; it is converted to shares when the round closes. A user has
    /// one pending deposit at a time: deposits in the same round add up, and
    /// one into a later round is refused while an earlier one is unclaimed.
    /// `authorized` is the whitelist's answer for `user`.
    pub fn queue_deposit(&mut self, user: u64, amount: u64, authorized: bool) -> (r: Result<
        (),
        ErrorCode,
    >)
        requires
            old(self).wf(),
        ensures
            final(self).wf(),
            r == (match old(self).queue_deposit_refusal(user, amount, authorized) {
                Some(e) => Err(e),
                None => Ok(()),
            }),
            r is Ok ==> *final(self) == (VoltVault {
                pending_deposit_pool: (old(self).pending_deposit_pool + amount) as u64,
                rounds: final(self).rounds,
                pending_deposits: final(self).pending_deposits,
                ..*old(self)
            }),
            r is Ok ==> final(self).rounds@ == old(self).rounds@.update(
                old(self).round_number - 1,
                (Round {
                    underlying_from_pending_deposits: (old(
                        self,
                    ).current().underlying_from_pending_deposits + amount) as u64,
                    ..old(self).current()
                }),
            ),
            r is Ok ==> final(self).pending_deposits.requests() == old(
                self,
            ).pending_deposits.requests().insert(
                user,
                PendingRequest {
                    round_number: old(self).round_number,
                    amount: (old(self).pending_deposits.request(user).amount + amount) as u64,
                },
            ),
            r is Err ==> *final(self) == *old(self),
    {
        if self.round_number == 0 || self.phase == Phase::Closed {
            return Err(ErrorCode::RoundHasNotStarted);
        }
        if self.is_whitelisted && !authorized {
            return Err(ErrorCode::NonWhitelistedUser);
        }
        if amount == 0 {
            return Err(ErrorCode::InvalidAmount);
        }
        let p = self.pending_deposits.get(user);
        if p.round_number != 0 && p.round_number != self.round_number {
            return Err(ErrorCode::UnclaimedPendingRequestExists);
        }
        let value: u128 = self.deposit_pool as u128 + self.deployed as u128
            + self.pending_deposit_pool as u128;
        if value + amount as u128 > self.capacity as u128 {
            return Err(ErrorCode::VaultCapacityExceeded);
        }
        if p.amount as u128 + amount as u128 > self.individual_capacity as u128 {
            return Err(ErrorCode::IndividualDepositCapacityExceeded);
        }
        let idx = self.rounds.len() - 1;
        let mut round = self.rounds[idx];
        round.underlying_from_pending_deposits = round.underlying_from_pending_deposits + amount;
        self.rounds.set(idx, round);
        self.pending_deposit_pool = self.pending_deposit_pool + amount;
        let number = self.round_number;
        let ghost before = self.pending_deposits;
        self.pending_deposits.add(user, number, amount);
        proof {
            lemma_requests_within(
                &before,
                &self.pending_deposits,
                user,
                self.pending_deposits.request(user),
                number,
            );
        }
        proof {
            let n = self.round_number as nat;
            lemma_claims_open_round(
                old(self).rounds@,
                old(self).pending_deposits,
                self.rounds@,
                self.pending_deposits,
                true,
                n,
                n,
            );
            lemma_claims_open_round(
                old(self).rounds@,
                old(self).pending_withdrawals,
                self.rounds@,
                self.pending_withdrawals,
                false,
                n,
                n,
            );
        }
        Ok(())
    }

    /// Why `queue_withdrawal` would refuse, if it would.
    pub open spec fn queue_withdrawal_refusal(&self, user: u64, amount: u64, authorized: bool) -> Option<
        ErrorCode,
    > {
        let p = self.pending_withdrawals.request(user);
        if !self.round_open() {
            Some(ErrorCode::RoundHasNotStarted)
        } else if self.is_whitelisted && !authorized {
            Some(ErrorCode::NonWhitelistedUser)
        } else if amount == 0 {
            Some(ErrorCode::InvalidAmount)
        } else if p.round_number != 0 && p.round_number != self.round_number {
            Some(ErrorCode::UnclaimedPendingRequestExists)
        } else if amount > self.shares.balance(user) {
            Some(ErrorCode::InsufficientShares)
        } else {
            None
        }
    }

    /// Queues a withdrawal of `amount` shares by `user` from the open round.
    /// The shares leave the user's balance at once and are held in escrow;
    /// they are converted to underlying when the round closes. One pending
    /// withdrawal per user, as for deposits.
    pub fn queue_withdrawal(&mut self, user: u64, amount: u64, authorized: bool) -> (r: Result<
        (),
        ErrorCode,
    >)
        requires
            old(self).wf(),
        ensures
            final(self).wf(),
            r == (match old(self).queue_withdrawal_refusal(user, amount, authorized) {
                Some(e) => Err(e),
                None => Ok(()),
            }),
            r is Ok ==> *final(self) == (VoltVault {
                escrowed_shares: (old(self).escrowed_shares + amount) as u64,
                shares: final(self).shares,
                rounds: final(self).rounds,
                pending_withdrawals: final(self).pending_withdrawals,
                ..*old(self)
            }),
            r is Ok ==> final(self).shares.holdings() == old(self).shares.holdings().insert(
                user,
                (old(self).shares.balance(user) - amount) as u64,
            ),
            r is Ok ==> final(self).shares.supply() == old(self).shares.supply() - amount,
            r is Ok ==> final(self).rounds@ == old(self).rounds@.update(
                old(self).round_number - 1,
                (Round {
                    volt_tokens_from_pending_withdrawals: (old(
                        self,
                    ).current().volt_tokens_from_pending_withdrawals + amount) as u64,
                    ..old(self).current()
                }),
            ),
            r is Ok ==> final(self).pending_withdrawals.requests() == old(
                self,
            ).pending_withdrawals.requests().insert(
                user,
                PendingRequest {
                    round_number: old(self).round_number,
                    amount: (old(self).pending_withdrawals.request(user).amount + amount) as u64,
                },
            ),
            r is Err ==> *final(self) == *old(self),
    {
        if self.round_number == 0 || self.phase == Phase::Closed {
            return Err(ErrorCode::RoundHasNotStarted);
        }
        if self.is_whitelisted && !authorized {
            return Err(ErrorCode::NonWhitelistedUser);
        }
        if amount == 0 {
            return Err(ErrorCode::InvalidAmount);
        }
        let p = self.pending_withdrawals.get(user);
        if p.round_number != 0 && p.round_number != self.round_number {
            return Err(ErrorCode::UnclaimedPendingRequestExists);
        }
        proof {
            self.pending_withdrawals.lemma_request(user);
            self.shares.lemma_balance_within_supply(user);
        }
        match self.shares.debit(user, amount) {
            Ok(()) => {},
            Err(e) => {
                return Err(e);
            },
        }
        let idx = self.rounds.len() - 1;
        let mut round = self.rounds[idx];
        round.volt_tokens_from_pending_withdrawals = round.volt_tokens_from_pending_withdrawals
            + amount;
        self.rounds.set(idx, round);
        self.escrowed_shares = self.escrowed_shares + amount;
        let number = self.round_number;
        let ghost before = self.pending_withdrawals;
        self.pending_withdrawals.add(user, number, amount);
        proof {
            lemma_requests_within(
                &before,
                &self.pending_withdrawals,
                user,
                self.pending_withdrawals.request(user),
                number,
            );
        }
        proof {
            let n = self.round_number as nat;
            lemma_claims_open_round(
                old(self).rounds@,
                old(self).pending_deposits,
                self.rounds@,
                self.pending_deposits,
                true,
                n,
                n,
            );
            lemma_claims_open_round(
                old(self).rounds@,
                old(self).pending_withdrawals,
                self.rounds@,
                self.pending_withdrawals,
                false,
                n,
                n,
            );
        }
        Ok(())
    }

    /// Why a cancellation of `p`, the record of some user, would be refused.
    pub open spec fn cancel_refusal(&self, p: PendingRequest) -> Option<ErrorCode> {
        if p.round_number == 0 {
            Some(ErrorCode::PendingRequestNotFound)
        } else if p.round_number != self.round_number || self.phase == Phase::Closed {
            Some(ErrorCode::CannotCancelFromOldRound)
        } else {
            None
        }
    }

    /// Cancels the pending deposit of `user`, which must target the round
    /// that is still open, and returns the underlying to refund.
    pub fn cancel_pending_deposit(&mut self, user: u64) -> (r: Result<u64, ErrorCode>)
        requires
            old(self).wf(),
        ensures
            final(self).wf(),
            r == (match old(self).cancel_refusal(old(self).pending_deposits.request(user)) {
                Some(e) => Err(e),
                None => Ok(old(self).pending_deposits.request(user).amount),
            }),
            r is Ok ==> *final(self) == (VoltVault {
                pending_deposit_pool: (old(self).pending_deposit_pool - r->Ok_0) as u64,
                rounds: final(self).rounds,
                pending_deposits: final(self).pending_deposits,
                ..*old(self)
            }),
            r is Ok ==> final(self).rounds@ == old(self).rounds@.update(
                old(self).round_number - 1,
                (Round {
                    underlying_from_pending_deposits: (old(
                        self,
                    ).current().underlying_from_pending_deposits - r->Ok_0) as u64,
                    ..old(self).current()
                }),
            ),
            r is Ok ==> final(self).pending_deposits.requests() == old(
                self,
            ).pending_deposits.requests().insert(user, no_request()),
            r is Err ==> *final(self) == *old(self),
    {
        let p = self.pending_deposits.get(user);
        if p.round_number == 0 {
            return Err(ErrorCode::PendingRequestNotFound);
        }
        if p.round_number != self.round_number || self.phase == Phase::Closed {
            return Err(ErrorCode::CannotCancelFromOldRound);
        }
        proof {
            self.pending_deposits.lemma_request(user);
        }
        let idx = self.rounds.len() - 1;
        let mut round = self.rounds[idx];
        round.underlying_from_pending_deposits = round.underlying_from_pending_deposits - p.amount;
        self.rounds.set(idx, round);
        self.pending_deposit_pool = self.pending_deposit_pool - p.amount;
        let ghost before = self.pending_deposits;
        let cleared = self.pending_deposits.clear(user);
        proof {
            lemma_requests_within(&before, &self.pending_deposits, user, no_request(), self.round_number);
        }
        proof {
            let n = self.round_number as nat;
            lemma_claims_open_round(
                old(self).rounds@,
                old(self).pending_deposits,
                self.rounds@,
                self.pending_deposits,
                true,
                n,
                n,
            );
            lemma_claims_open_round(
                old(self).rounds@,
                old(self).pending_withdrawals,
                self.rounds@,
                self.pending_withdrawals,
                false,
                n,
                n,
            );
        }
        Ok(cleared.amount)
    }

    /// Cancels the pending withdrawal of `user`, which must target the round
    /// that is still open, and gives the escrowed shares back.
    pub fn cancel_pending_withdrawal(&mut self, user: u64) -> (r: Result<u64, ErrorCode>)
        requires
            old(self).wf(),
        ensures
            final(self).wf(),
            r == (match old(self).cancel_refusal(old(self).pending_withdrawals.request(user)) {
                Some(e) => Err(e),
                None => Ok(old(self).pending_withdrawals.request(user).amount),
            }),
            r is Ok ==> *final(self) == (VoltVault {
                escrowed_shares: (old(self).escrowed_shares - r->Ok_0) as u64,
                shares: final(self).shares,
                rounds: final(self).rounds,
                pending_withdrawals: final(self).pending_withdrawals,
                ..*old(self)
            }),
            r is Ok ==> final(self).shares.holdings() == old(self).shares.holdings().insert(
                user,
                (old(self).shares.balance(user) + r->Ok_0) as u64,
            ),
            r is Ok ==> final(self).shares.supply() == old(self).shares.supply() + r->Ok_0,
            r is Ok ==> final(self).rounds@ == old(self).rounds@.update(
                old(self).round_number - 1,
                (Round {
                    volt_tokens_from_pending_withdrawals: (old(
                        self,
                    ).current().volt_tokens_from_pending_withdrawals - r->Ok_0) as u64,
                    ..old(self).current()
                }),
            ),
            r is Ok ==> final(self).pending_withdrawals.requests() == old(
                self,
            ).pending_withdrawals.requests().insert(user, no_request()),
            r is Err ==> *final(self) == *old(self),
    {
        let p = self.pending_withdrawals.get(user);
        if p.round_number == 0 {
            return Err(ErrorCode::PendingRequestNotFound);
        }
        if p.round_number != self.round_number || self.phase == Phase::Closed {
            return Err(ErrorCode::CannotCancelFromOldRound);
        }
        proof {
            self.pending_withdrawals.lemma_request(user);
        }
        let credited = self.shares.credit(user, p.amount);
        assert(credited is Ok);
        let idx = self.rounds.len() - 1;
        let mut round = self.rounds[idx];
        round.volt_tokens_from_pending_withdrawals = round.volt_tokens_from_pending_withdrawals
            - p.amount;
        self.rounds.set(idx, round);
        self.escrowed_shares = self.escrowed_shares - p.amount;
        let ghost before = self.pending_withdrawals;
        let cleared = self.pending_withdrawals.clear(user);
        proof {
            lemma_requests_within(
                &before,
                &self.pending_withdrawals,
                user,
                no_request(),
                self.round_number,
            );
        }
        proof {
            let n = self.round_number as nat;
            lemma_claims_open_round(
                old(self).rounds@,
                old(self).pending_deposits,
                self.rounds@,
                self.pending_deposits,
                true,
                n,
                n,
            );
            lemma_claims_open_round(
                old(self).rounds@,
                old(self).pending_withdrawals,
                self.rounds@,
                self.pending_withdrawals,
                false,
                n,
                n,
            );
        }
        Ok(cleared.amount)
    }

    /// The record of the round that `p` targets.
    pub open spec fn target(&self, p: PendingRequest) -> Round {
        self.rounds@[p.round_number - 1]
    }

    /// Shares owed on the pending deposit of `user`: its part of the shares
    /// that its round minted for all of the round's deposits.
    pub open spec fn deposit_claim(&self, user: u64) -> nat {
        let p = self.pending_deposits.request(user);
        pro_rata(
            p.amount as nat,
            self.target(p).volt_tokens_for_pending_deposits->0 as nat,
            self.target(p).underlying_from_pending_deposits as nat,
        )
    }

    /// Underlying owed on the pending withdrawal of `user`: its part of what
    /// its round set aside for all of the round's withdrawals.
    pub open spec fn withdrawal_claim(&self, user: u64) -> nat {
        let p = self.pending_withdrawals.request(user);
        pro_rata(
            p.amount as nat,
            self.target(p).underlying_for_pending_withdrawals->0 as nat,
            self.target(p).volt_tokens_from_pending_withdrawals as nat,
        )
    }

    /// Why `claim_pending` would refuse, if it would.
    pub open spec fn claim_deposit_refusal(&self, user: u64) -> Option<ErrorCode> {
        let p = self.pending_deposits.request(user);
        if p.round_number == 0 {
            Some(ErrorCode::PendingRequestNotFound)
        } else if !self.target(p).settled() {
            Some(ErrorCode::RoundNotYetSettled)
        } else {
            None
        }
    }

    /// Claims the pending deposit of `user`, whose round must have closed:
    /// credits the shares owed on it and returns their number.
    pub fn claim_pending(&mut self, user: u64) -> (r: Result<u64, ErrorCode>)
        requires
            old(self).wf(),
        ensures
            final(self).wf(),
            r == (match old(self).claim_deposit_refusal(user) {
                Some(e) => Err(e),
                None => Ok(old(self).deposit_claim(user) as u64),
            }),
            r is Ok ==> *final(self) == (VoltVault {
                unclaimed_shares: (old(self).unclaimed_shares - r->Ok_0) as u64,
                shares: final(self).shares,
                pending_deposits: final(self).pending_deposits,
                ..*old(self)
            }),
            r is Ok ==> final(self).shares.holdings() == old(self).shares.holdings().insert(
                user,
                (old(self).shares.balance(user) + r->Ok_0) as u64,
            ),
            r is Ok ==> final(self).shares.supply() == old(self).shares.supply() + r->Ok_0,
            r is Ok ==> final(self).pending_deposits.requests() == old(
                self,
            ).pending_deposits.requests().insert(user, no_request()),
            r is Err ==> *final(self) == *old(self),
    {
        let p = self.pending_deposits.get(user);
        if p.round_number == 0 {
            return Err(ErrorCode::PendingRequestNotFound);
        }
        proof {
            self.pending_deposits.lemma_request(user);
        }
        let len = self.rounds.len();
        assert(p.round_number <= len);
        let round = self.rounds[(p.round_number - 1) as usize];
        proof {
            let i = p.round_number - 1;
            if self.rounds@[i].settled() {
                assert((i + 1) as u64 == p.round_number);
                assert(p.amount <= self.rounds@[i].underlying_from_pending_deposits);
            }
        }
        let minted = match round.volt_tokens_for_pending_deposits {
            Some(m) => m,
            None => {
                return Err(ErrorCode::RoundNotYetSettled);
            },
        };
        if round.volt_token_supply.is_none() || round.underlying_for_pending_withdrawals.is_none() {
            return Err(ErrorCode::RoundNotYetSettled);
        }
        let owed = pro_rata_part(p.amount, minted, round.underlying_from_pending_deposits);
        proof {
            let t = self.pending_deposits.total_for(p.round_number);
            lemma_settlement_fairness(p.amount as nat, t, minted as nat, round.underlying_from_pending_deposits as nat);
            lemma_claims_within(
                self.rounds@,
                self.pending_deposits,
                true,
                self.round_number as nat,
                p.round_number as nat,
            );
        }
        proof {
            self.shares.lemma_balance_within_supply(user);
        }
        let credited = self.shares.credit(user, owed);
        assert(credited is Ok);
        self.unclaimed_shares = self.unclaimed_shares - owed;
        let ghost before = self.pending_deposits;
        self.pending_deposits.clear(user);
        proof {
            lemma_requests_within(&before, &self.pending_deposits, user, no_request(), self.round_number);
        }
        proof {
            let n = self.round_number as nat;
            let k = p.round_number as nat;
            let t = old(self).pending_deposits.total_for(p.round_number);
            lemma_claims_change(
                self.rounds@,
                old(self).pending_deposits,
                self.rounds@,
                self.pending_deposits,
                true,
                n,
                k,
            );
            lemma_settlement_fairness(
                p.amount as nat,
                (t - p.amount) as nat,
                minted as nat,
                round.underlying_from_pending_deposits as nat,
            );
            lemma_claims_within(self.rounds@, old(self).pending_deposits, true, n, k);
        }
        Ok(owed)
    }

    /// Why `claim_pending_withdrawal` would refuse, if it would.
    pub open spec fn claim_withdrawal_refusal(&self, user: u64) -> Option<ErrorCode> {
        let p = self.pending_withdrawals.request(user);
        if p.round_number == 0 {
            Some(ErrorCode::PendingRequestNotFound)
        } else if !self.target(p).settled() {
            Some(ErrorCode::RoundNotYetSettled)
        } else {
            None
        }
    }

    /// Claims the pending withdrawal of `user`, whose round must have closed:
    /// releases the underlying owed on it from the reserve and returns it.
    pub fn claim_pending_withdrawal(&mut self, user: u64) -> (r: Result<u64, ErrorCode>)
        requires
            old(self).wf(),
        ensures
            final(self).wf(),
            r == (match old(self).claim_withdrawal_refusal(user) {
                Some(e) => Err(e),
                None => Ok(old(self).withdrawal_claim(user) as u64),
            }),
            r is Ok ==> *final(self) == (VoltVault {
                withdrawal_reserve: (old(self).withdrawal_reserve - r->Ok_0) as u64,
                pending_withdrawals: final(self).pending_withdrawals,
                ..*old(self)
            }),
            r is Ok ==> final(self).pending_withdrawals.requests() == old(
                self,
            ).pending_withdrawals.requests().insert(user, no_request()),
            r is Err ==> *final(self) == *old(self),
    {
        let p = self.pending_withdrawals.get(user);
        if p.round_number == 0 {
            return Err(ErrorCode::PendingRequestNotFound);
        }
        proof {
            self.pending_withdrawals.lemma_request(user);
        }
        let len = self.rounds.len();
        assert(p.round_number <= len);
        let round = self.rounds[(p.round_number - 1) as usize];
        proof {
            let i = p.round_number - 1;
            if self.rounds@[i].settled() {
                assert((i + 1) as u64 == p.round_number);
                assert(p.amount <= self.rounds@[i].volt_tokens_from_pending_withdrawals);
            }
        }
        let reserved = match round.underlying_for_pending_withdrawals {
            Some(w) => w,
            None => {
                return Err(ErrorCode::RoundNotYetSettled);
            },
        };
        if round.volt_token_supply.is_none() || round.volt_tokens_for_pending_deposits.is_none() {
            return Err(ErrorCode::RoundNotYetSettled);
        }
        let owed = pro_rata_part(p.amount, reserved, round.volt_tokens_from_pending_withdrawals);
        proof {
            let t = self.pending_withdrawals.total_for(p.round_number);
            lemma_settlement_fairness(p.amount as nat, t, reserved as nat, round.volt_tokens_from_pending_withdrawals as nat);
            lemma_claims_within(
                self.rounds@,
                self.pending_withdrawals,
                false,
                self.round_number as nat,
                p.round_number as nat,
            );
        }
        self.withdrawal_reserve = self.withdrawal_reserve - owed;
        let ghost before = self.pending_withdrawals;
        self.pending_withdrawals.clear(user);
        proof {
            lemma_requests_within(
                &before,
                &self.pending_withdrawals,
                user,
                no_request(),
                self.round_number,
            );
        }
        proof {
            let n = self.round_number as nat;
            let k = p.round_number as nat;
            let t = old(self).pending_withdrawals.total_for(p.round_number);
            lemma_claims_change(
                self.rounds@,
                old(self).pending_withdrawals,
                self.rounds@,
                self.pending_withdrawals,
                false,
                n,
                k,
            );
            lemma_settlement_fairness(
                p.amount as nat,
                (t - p.amount) as nat,
                reserved as nat,
                round.volt_tokens_from_pending_withdrawals as nat,
            );
            lemma_claims_within(self.rounds@, old(self).pending_withdrawals, false, n, k);
        }
        Ok(owed)
    }
}

} // verus!
