//! Deposits and withdrawals settled at once, while no capital is deployed.
use vstd::prelude::*;

use crate::error::ErrorCode;
use crate::settlement::{
    has_price, shares_for, shares_for_deposit, underlying_for, underlying_for_withdrawal,
};
use crate::vault::{Phase, VoltVault};

verus! {

impl VoltVault {
    /// Instant deposits and withdrawals are possible: they are turned on, no
    /// capital is deployed and the round, if any, has not been prepared.
    pub open spec fn instant_open(&self) -> bool {
        &&& self.instant_transfers_enabled
        &&& self.deployed == 0
        &&& (self.phase == Phase::Closed || self.phase == Phase::AwaitingEnter)
    }

    /// Turns instant deposits and withdrawals on or off; for the admin only.
    pub fn set_instant_transfers(&mut self, caller: u64, enabled: bool) -> (r: Result<(), ErrorCode>)
        requires
            old(self).wf(),
        ensures
            final(self).wf(),
            r == (if caller != old(self).admin_key {
                Err(ErrorCode::Unauthorized)
            } else {
                Ok(())
            }),
            r is Ok ==> *final(self) == (VoltVault {
                instant_transfers_enabled: enabled,
                ..*old(self)
            }),
            r is Err ==> *final(self) == *old(self),
    {
        if caller != self.admin_key {
            return Err(ErrorCode::Unauthorized);
        }
        self.instant_transfers_enabled = enabled;
        Ok(())
    }

    /// Why `instant_deposit` would refuse, if it would.
    pub open spec fn instant_deposit_refusal(&self, amount: u64, authorized: bool) -> Option<
        ErrorCode,
    > {
        let minted = shares_for(amount as nat, self.total_shares as nat, self.deposit_pool as nat);
        if !self.instant_open() {
            Some(ErrorCode::InstantTransfersDisabled)
        } else if self.is_whitelisted && !authorized {
            Some(ErrorCode::NonWhitelistedUser)
        } else if amount == 0 {
            Some(ErrorCode::InvalidAmount)
        } else if self.vault_value() + amount > self.capacity {
            Some(ErrorCode::VaultCapacityExceeded)
        } else if amount > self.individual_capacity {
            Some(ErrorCode::IndividualDepositCapacityExceeded)
        } else if !has_price(self.total_shares as nat, self.deposit_pool as nat) {
            Some(ErrorCode::VaultMintSupplyMustBeZeroIfEquityIsZero)
        } else if minted > u64::MAX || self.total_shares + minted > u64::MAX {
            Some(ErrorCode::NumberOverflow)
        } else {
            None
        }
    }

    /// Deposits `amount` underlying units for `user` at once, at the price of
    /// the liquid pool (`deposit_pool / total_shares`, or one unit per share
    /// where no shares are outstanding), and returns the shares credited.
    pub fn instant_deposit(&mut self, user: u64, amount: u64, authorized: bool) -> (r: Result<
        u64,
        ErrorCode,
    >)
        requires
            old(self).wf(),
        ensures
            final(self).wf(),
            r == (match old(self).instant_deposit_refusal(amount, authorized) {
                Some(e) => Err(e),
                None => Ok(
                    shares_for(
                        amount as nat,
                        old(self).total_shares as nat,
                        old(self).deposit_pool as nat,
                    ) as u64,
                ),
            }),
            r is Ok ==> *final(self) == (VoltVault {
                deposit_pool: (old(self).deposit_pool + amount) as u64,
                total_shares: (old(self).total_shares + r->Ok_0) as u64,
                shares: final(self).shares,
                ..*old(self)
            }),
            r is Ok ==> final(self).shares.holdings() == old(self).shares.holdings().insert(
                user,
                (old(self).shares.balance(user) + r->Ok_0) as u64,
            ),
            r is Ok ==> final(self).shares.supply() == old(self).shares.supply() + r->Ok_0,
            r is Err ==> *final(self) == *old(self),
    {
        if !(self.instant_transfers_enabled && self.deployed == 0 && (self.phase == Phase::Closed
            || self.phase == Phase::AwaitingEnter)) {
            return Err(ErrorCode::InstantTransfersDisabled);
        }
        if self.is_whitelisted && !authorized {
            return Err(ErrorCode::NonWhitelistedUser);
        }
        if amount == 0 {
            return Err(ErrorCode::InvalidAmount);
        }
        let value: u128 = self.deposit_pool as u128 + self.deployed as u128
            + self.pending_deposit_pool as u128;
        if value + amount as u128 > self.capacity as u128 {
            return Err(ErrorCode::VaultCapacityExceeded);
        }
        if amount > self.individual_capacity {
            return Err(ErrorCode::IndividualDepositCapacityExceeded);
        }
        let minted = shares_for_deposit(amount, self.total_shares, self.deposit_pool)?;
        if minted > u64::MAX - self.total_shares {
            return Err(ErrorCode::NumberOverflow);
        }
        proof {
            self.shares.lemma_balance_within_supply(user);
        }
        let credited = self.shares.credit(user, minted);
        assert(credited is Ok);
        self.total_shares = self.total_shares + minted;
        self.deposit_pool = self.deposit_pool + amount;
        Ok(minted)
    }

    /// Why `instant_withdrawal` would refuse, if it would.
    pub open spec fn instant_withdrawal_refusal(&self, user: u64, amount: u64) -> Option<ErrorCode> {
        if !self.instant_open() {
            Some(ErrorCode::InstantTransfersDisabled)
        } else if amount == 0 {
            Some(ErrorCode::InvalidAmount)
        } else if amount > self.shares.balance(user) {
            Some(ErrorCode::InsufficientShares)
        } else {
            None
        }
    }

    /// Redeems `amount` shares of `user` at once, at the price of the liquid
    /// pool, and returns the underlying paid out.
    pub fn instant_withdrawal(&mut self, user: u64, amount: u64) -> (r: Result<u64, ErrorCode>)
        requires
            old(self).wf(),
        ensures
            final(self).wf(),
            r == (match old(self).instant_withdrawal_refusal(user, amount) {
                Some(e) => Err(e),
                None => Ok(
                    underlying_for(
                        amount as nat,
                        old(self).total_shares as nat,
                        old(self).deposit_pool as nat,
                    ) as u64,
                ),
            }),
            r is Ok ==> *final(self) == (VoltVault {
                deposit_pool: (old(self).deposit_pool - r->Ok_0) as u64,
                total_shares: (old(self).total_shares - amount) as u64,
                shares: final(self).shares,
                ..*old(self)
            }),
            r is Ok ==> final(self).shares.holdings() == old(self).shares.holdings().insert(
                user,
                (old(self).shares.balance(user) - amount) as u64,
            ),
            r is Ok ==> final(self).shares.supply() == old(self).shares.supply() - amount,
            r is Err ==> *final(self) == *old(self),
    {
        if !(self.instant_transfers_enabled && self.deployed == 0 && (self.phase == Phase::Closed
            || self.phase == Phase::AwaitingEnter)) {
            return Err(ErrorCode::InstantTransfersDisabled);
        }
        if amount == 0 {
            return Err(ErrorCode::InvalidAmount);
        }
        proof {
            self.shares.lemma_balance_within_supply(user);
        }
        let paid = underlying_for_withdrawal(amount, self.total_shares, self.deposit_pool)?;
        match self.shares.debit(user, amount) {
            Ok(()) => {},
            Err(e) => {
                return Err(e);
            },
        }
        self.total_shares = self.total_shares - amount;
        self.deposit_pool = self.deposit_pool - paid;
        Ok(paid)
    }
}

} // verus!
