//! Share balances of the holders of one vault, and the total supply.
use vstd::prelude::*;

use crate::error::ErrorCode;
use crate::table::{entries_map, has_key, keys_unique, lemma_entry_value, KeyedTable};

verus! {

/// Sum of the balances in a list of accounts.
pub open spec fn sum_balances(s: Seq<(u64, u64)>) -> nat
    decreases s.len(),
{
    if s.len() == 0 {
        0
    } else {
        sum_balances(s.drop_last()) + s.last().1 as nat
    }
}

/// Changing one balance changes the sum by the difference.
proof fn lemma_sum_update(s: Seq<(u64, u64)>, i: int, v: u64)
    requires
        0 <= i < s.len(),
    ensures
        sum_balances(s.update(i, (s[i].0, v))) == sum_balances(s) - s[i].1 + v,
    decreases s.len(),
{
    let t = s.update(i, (s[i].0, v));
    if i == s.len() - 1 {
        assert(t.drop_last() =~= s.drop_last());
    } else {
        assert(t.drop_last() =~= s.drop_last().update(i, (s[i].0, v)));
        lemma_sum_update(s.drop_last(), i, v);
    }
}

/// No single balance exceeds the sum.
proof fn lemma_entry_within_sum(s: Seq<(u64, u64)>, i: int)
    requires
        0 <= i < s.len(),
    ensures
        s[i].1 <= sum_balances(s),
    decreases s.len(),
{
    if i < s.len() - 1 {
        lemma_entry_within_sum(s.drop_last(), i);
    }
}

/// Share balances per holder, with the total supply of shares.
pub struct ShareLedger {
    balances: KeyedTable<u64>,
    total_supply: u64,
}

impl ShareLedger {
    /// Balance per holder that has ever held shares.
    pub closed spec fn holdings(&self) -> Map<u64, u64> {
        self.balances@
    }

    /// The holders' accounts, each holder once.
    pub closed spec fn accounts(&self) -> Seq<(u64, u64)> {
        self.balances.entries()
    }

    /// Total supply of shares as recorded.
    pub closed spec fn supply(&self) -> nat {
        self.total_supply as nat
    }

    /// Shares held by `holder`; zero for one never seen.
    pub open spec fn balance(&self, holder: u64) -> nat {
        if self.holdings().contains_key(holder) {
            self.holdings()[holder] as nat
        } else {
            0
        }
    }

    /// The accounts list each holder once and add up to the supply.
    pub closed spec fn wf(&self) -> bool {
        &&& self.balances.wf()
        &&& self.total_supply == sum_balances(self.balances.entries())
    }

    /// Shares are conserved: in a well-formed ledger the total supply is the
    /// sum of the balances of all holders, each holder counted once.
    pub proof fn lemma_conservation(&self)
        requires
            self.wf(),
        ensures
            self.supply() == sum_balances(self.accounts()),
            keys_unique(self.accounts()),
            entries_map(self.accounts()) == self.holdings(),
    {
        self.balances.lemma_view();
    }

    /// No holder has more than the total supply.
    pub proof fn lemma_balance_within_supply(&self, holder: u64)
        requires
            self.wf(),
        ensures
            self.balance(holder) <= self.supply(),
    {
        self.balances.lemma_view();
        let s = self.balances.entries();
        if has_key(s, holder) {
            let i = choose|i: int| 0 <= i < s.len() && #[trigger] s[i].0 == holder;
            lemma_entry_value(s, i);
            lemma_entry_within_sum(s, i);
        }
    }

    /// A ledger with no holders and no shares.
    pub fn new() -> (r: Self)
        ensures
            r.wf(),
            r.holdings() == Map::<u64, u64>::empty(),
            r.supply() == 0,
    {
        ShareLedger { balances: KeyedTable::new(), total_supply: 0 }
    }

    /// The total supply of shares.
    pub fn total_supply(&self) -> (r: u64)
        ensures
            r == self.supply(),
    {
        self.total_supply
    }

    /// The shares held by `holder`.
    pub fn balance_of(&self, holder: u64) -> (r: u64)
        requires
            self.wf(),
        ensures
            r == self.balance(holder),
    {
        match self.balances.get(holder) {
            Some(b) => b,
            None => 0,
        }
    }

    /// Sets the balance of `holder`, moving the supply by the difference.
    fn put(&mut self, holder: u64, old_balance: u64, new_balance: u64, new_supply: u64)
        requires
            old(self).wf(),
            old_balance == old(self).balance(holder),
            new_supply == old(self).supply() - old_balance + new_balance,
        ensures
            final(self).wf(),
            final(self).holdings() == old(self).holdings().insert(holder, new_balance),
            final(self).supply() == new_supply,
    {
        let ghost before = self.balances.entries();
        proof {
            self.balances.lemma_view();
        }
        self.balances.set(holder, new_balance);
        proof {
            let after = self.balances.entries();
            if has_key(before, holder) {
                let i = choose|i: int|
                    0 <= i < before.len() && #[trigger] before[i].0 == holder && after
                        == before.update(i, (holder, new_balance));
                lemma_entry_value(before, i);
                lemma_sum_update(before, i, new_balance);
            } else {
                assert(after.drop_last() =~= before);
            }
        }
        self.total_supply = new_supply;
    }

    /// Adds `shares` to the balance of `holder`, minting them.
    pub fn credit(&mut self, holder: u64, shares: u64) -> (r: Result<(), ErrorCode>)
        requires
            old(self).wf(),
        ensures
            final(self).wf(),
            r == (if old(self).supply() + shares > u64::MAX {
                Err(ErrorCode::NumberOverflow)
            } else {
                Ok(())
            }),
            r is Ok ==> final(self).holdings() == old(self).holdings().insert(
                holder,
                (old(self).balance(holder) + shares) as u64,
            ),
            r is Ok ==> final(self).supply() == old(self).supply() + shares,
            r is Err ==> *final(self) == *old(self),
    {
        if shares > u64::MAX - self.total_supply {
            return Err(ErrorCode::NumberOverflow);
        }
        let b = self.balance_of(holder);
        proof {
            self.lemma_balance_within_supply(holder);
        }
        let supply = self.total_supply + shares;
        self.put(holder, b, b + shares, supply);
        Ok(())
    }

    /// Takes `shares` from the balance of `holder`, burning them. Fails,
    /// changing nothing, where the holder has fewer: no balance goes below zero.
    pub fn debit(&mut self, holder: u64, shares: u64) -> (r: Result<(), ErrorCode>)
        requires
            old(self).wf(),
        ensures
            final(self).wf(),
            r == (if shares > old(self).balance(holder) {
                Err(ErrorCode::InsufficientShares)
            } else {
                Ok(())
            }),
            r is Ok ==> final(self).holdings() == old(self).holdings().insert(
                holder,
                (old(self).balance(holder) - shares) as u64,
            ),
            r is Ok ==> final(self).supply() == old(self).supply() - shares,
            r is Err ==> *final(self) == *old(self),
    {
        let b = self.balance_of(holder);
        if shares > b {
            return Err(ErrorCode::InsufficientShares);
        }
        proof {
            self.lemma_balance_within_supply(holder);
        }
        let supply = self.total_supply - shares;
        self.put(holder, b, b - shares, supply);
        Ok(())
    }
}

} // verus!
