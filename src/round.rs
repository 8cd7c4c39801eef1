//! The record that each round keeps of its capital and its queued requests.
use vstd::prelude::*;

use crate::error::ErrorCode;

verus! {

/// What one round recorded. The totals of queued requests move while the
/// round is open; each balance is written once, when its phase is reached.
#[derive(Clone, Copy, Debug, PartialEq, Eq, Structural)]
pub struct Round {
    /// Rounds are numbered from 1.
    pub number: u64,
    /// Underlying units queued for deposit during this round.
    pub underlying_from_pending_deposits: u64,
    /// Shares queued for withdrawal during this round.
    pub volt_tokens_from_pending_withdrawals: u64,
    /// Liquid underlying when the round started.
    pub underlying_pre_enter: Option<u64>,
    /// Underlying held once the strategy position was unwound, after fees.
    pub underlying_post_settle: Option<u64>,
    /// Performance fee accrued on the round's result.
    pub performance_accrual: Option<u64>,
    /// Shares outstanding when the round closed, before its deposits were minted.
    pub volt_token_supply: Option<u64>,
    /// Shares minted at close for the round's queued deposits.
    pub volt_tokens_for_pending_deposits: Option<u64>,
    /// Underlying set aside at close for the round's queued withdrawals, net of fees.
    pub underlying_for_pending_withdrawals: Option<u64>,
}

/// A freshly opened round.
pub open spec fn opened_round(number: u64) -> Round {
    Round {
        number,
        underlying_from_pending_deposits: 0,
        volt_tokens_from_pending_withdrawals: 0,
        underlying_pre_enter: None,
        underlying_post_settle: None,
        performance_accrual: None,
        volt_token_supply: None,
        volt_tokens_for_pending_deposits: None,
        underlying_for_pending_withdrawals: None,
    }
}

/// Writes a field that may be written once: a second write is an error.
fn write_once(field: Option<u64>, value: u64) -> (r: Result<Option<u64>, ErrorCode>)
    ensures
        r == (if field is Some {
            Err(ErrorCode::ShouldBeUnreachable)
        } else {
            Ok(Some(value))
        }),
{
    match field {
        Some(_) => Err(ErrorCode::ShouldBeUnreachable),
        None => Ok(Some(value)),
    }
}

impl Round {
    /// A zeroed record for round `number`.
    pub fn open(number: u64) -> (r: Round)
        ensures
            r == opened_round(number),
    {
        Round {
            number,
            underlying_from_pending_deposits: 0,
            volt_tokens_from_pending_withdrawals: 0,
            underlying_pre_enter: None,
            underlying_post_settle: None,
            performance_accrual: None,
            volt_token_supply: None,
            volt_tokens_for_pending_deposits: None,
            underlying_for_pending_withdrawals: None,
        }
    }

    /// The round was closed and its requests can be claimed.
    pub open spec fn settled(&self) -> bool {
        &&& self.volt_token_supply is Some
        &&& self.volt_tokens_for_pending_deposits is Some
        &&& self.underlying_for_pending_withdrawals is Some
    }

    /// Records the liquid underlying at the start of the round.
    pub fn record_pre_enter_balance(&mut self, balance: u64) -> (r: Result<(), ErrorCode>)
        ensures
            r == (if old(self).underlying_pre_enter is Some {
                Err(ErrorCode::ShouldBeUnreachable)
            } else {
                Ok(())
            }),
            r is Ok ==> *final(self) == (Round { underlying_pre_enter: Some(balance), ..*old(self) }),
            r is Err ==> *final(self) == *old(self),
    {
        self.underlying_pre_enter = write_once(self.underlying_pre_enter, balance)?;
        Ok(())
    }

    /// Records the underlying recovered from the strategy, after fees.
    pub fn record_post_settle_balance(&mut self, balance: u64) -> (r: Result<(), ErrorCode>)
        ensures
            r == (if old(self).underlying_post_settle is Some {
                Err(ErrorCode::ShouldBeUnreachable)
            } else {
                Ok(())
            }),
            r is Ok ==> *final(self) == (Round {
                underlying_post_settle: Some(balance),
                ..*old(self)
            }),
            r is Err ==> *final(self) == *old(self),
    {
        self.underlying_post_settle = write_once(self.underlying_post_settle, balance)?;
        Ok(())
    }

    /// Records the performance fee accrued on the round.
    pub fn record_performance_accrual(&mut self, fee: u64) -> (r: Result<(), ErrorCode>)
        ensures
            r == (if old(self).performance_accrual is Some {
                Err(ErrorCode::ShouldBeUnreachable)
            } else {
                Ok(())
            }),
            r is Ok ==> *final(self) == (Round { performance_accrual: Some(fee), ..*old(self) }),
            r is Err ==> *final(self) == *old(self),
    {
        self.performance_accrual = write_once(self.performance_accrual, fee)?;
        Ok(())
    }

    /// Records the settlement of the round: the supply it was priced at, the
    /// shares minted for its deposits and the underlying set aside for its
    /// withdrawals.
    pub fn record_settlement(&mut self, supply: u64, minted: u64, reserved: u64) -> (r: Result<
        (),
        ErrorCode,
    >)
        ensures
            r == (if old(self).volt_token_supply is Some
                || old(self).volt_tokens_for_pending_deposits is Some
                || old(self).underlying_for_pending_withdrawals is Some {
                Err(ErrorCode::ShouldBeUnreachable)
            } else {
                Ok(())
            }),
            r is Ok ==> *final(self) == (Round {
                volt_token_supply: Some(supply),
                volt_tokens_for_pending_deposits: Some(minted),
                underlying_for_pending_withdrawals: Some(reserved),
                ..*old(self)
            }),
            r is Err ==> *final(self) == *old(self),
    {
        let s = write_once(self.volt_token_supply, supply)?;
        let m = write_once(self.volt_tokens_for_pending_deposits, minted)?;
        let w = write_once(self.underlying_for_pending_withdrawals, reserved)?;
        self.volt_token_supply = s;
        self.volt_tokens_for_pending_deposits = m;
        self.underlying_for_pending_withdrawals = w;
        Ok(())
    }
}

} // verus!
