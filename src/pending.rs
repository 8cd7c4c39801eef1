//! Requests that wait for their round to close: one record per user, and
//! the total queued for each round.
use vstd::prelude::*;

use crate::table::{has_key, lemma_entry_value, KeyedTable};

verus! {

/// A user's outstanding request: the round it targets (0 when there is none)
/// and the amount queued, which accumulates over top-ups within that round.
#[derive(Clone, Copy, Debug, PartialEq, Eq, Structural)]
pub struct PendingRequest {
    pub round_number: u64,
    pub amount: u64,
}

/// A queued deposit, in underlying units.
pub type PendingDeposit = PendingRequest;

/// A queued withdrawal, in shares.
pub type PendingWithdrawal = PendingRequest;

/// The record of a user with nothing outstanding.
pub open spec fn no_request() -> PendingRequest {
    PendingRequest { round_number: 0, amount: 0 }
}

/// What a record adds to the total of `round`.
pub open spec fn share_of(p: PendingRequest, round: u64) -> nat {
    if p.round_number == round {
        p.amount as nat
    } else {
        0
    }
}

/// Total queued for `round` over a list of records.
pub open spec fn queued_for(s: Seq<(u64, PendingRequest)>, round: u64) -> nat
    decreases s.len(),
{
    if s.len() == 0 {
        0
    } else {
        queued_for(s.drop_last(), round) + share_of(s.last().1, round)
    }
}

proof fn lemma_queued_update(s: Seq<(u64, PendingRequest)>, i: int, p: PendingRequest, round: u64)
    requires
        0 <= i < s.len(),
    ensures
        queued_for(s.update(i, (s[i].0, p)), round) == queued_for(s, round) - share_of(s[i].1, round)
            + share_of(p, round),
    decreases s.len(),
{
    let t = s.update(i, (s[i].0, p));
    if i == s.len() - 1 {
        assert(t.drop_last() =~= s.drop_last());
    } else {
        assert(t.drop_last() =~= s.drop_last().update(i, (s[i].0, p)));
        lemma_queued_update(s.drop_last(), i, p, round);
    }
}

proof fn lemma_queued_absent(s: Seq<(u64, PendingRequest)>, round: u64)
    requires
        forall|i: int| 0 <= i < s.len() ==> (#[trigger] s[i]).1.round_number != round,
    ensures
        queued_for(s, round) == 0,
    decreases s.len(),
{
    if s.len() > 0 {
        assert(s.last() == s[s.len() - 1]);
        lemma_queued_absent(s.drop_last(), round);
    }
}

proof fn lemma_entry_within_queued(s: Seq<(u64, PendingRequest)>, i: int, round: u64)
    requires
        0 <= i < s.len(),
    ensures
        share_of(s[i].1, round) <= queued_for(s, round),
    decreases s.len(),
{
    if i < s.len() - 1 {
        lemma_entry_within_queued(s.drop_last(), i, round);
    }
}

/// The outstanding requests of one kind, by user.
pub struct PendingQueue {
    records: KeyedTable<PendingRequest>,
}

impl PendingQueue {
    /// Record per user that ever queued a request.
    pub closed spec fn requests(&self) -> Map<u64, PendingRequest> {
        self.records@
    }

    /// The record of `user`; an empty one for a user never seen.
    pub open spec fn request(&self, user: u64) -> PendingRequest {
        if self.requests().contains_key(user) {
            self.requests()[user]
        } else {
            no_request()
        }
    }

    /// Total of the records that target `round`.
    pub closed spec fn total_for(&self, round: u64) -> nat {
        queued_for(self.records.entries(), round)
    }

    /// Each user has one record, and a record is empty exactly where it
    /// targets no round.
    pub closed spec fn wf(&self) -> bool {
        &&& self.records.wf()
        &&& forall|i: int|
            0 <= i < self.records.entries().len() ==> ((#[trigger] self.records.entries()[i]).1.round_number
                == 0) == (self.records.entries()[i].1.amount == 0)
    }

    /// A user's record is empty where it targets no round, and counts toward
    /// the total of the round that it targets.
    pub proof fn lemma_request(&self, user: u64)
        requires
            self.wf(),
        ensures
            (self.request(user).round_number == 0) == (self.request(user).amount == 0),
            self.request(user).amount <= self.total_for(self.request(user).round_number),
    {
        self.records.lemma_view();
        let s = self.records.entries();
        if has_key(s, user) {
            let i = choose|i: int| 0 <= i < s.len() && #[trigger] s[i].0 == user;
            lemma_entry_value(s, i);
            lemma_entry_within_queued(s, i, s[i].1.round_number);
        }
    }

    /// A round that no record targets has nothing queued.
    pub proof fn lemma_untargeted(&self, round: u64)
        requires
            self.wf(),
            forall|user: u64| #[trigger] self.request(user).round_number != round,
        ensures
            self.total_for(round) == 0,
    {
        self.records.lemma_view();
        let s = self.records.entries();
        assert forall|i: int| 0 <= i < s.len() implies (#[trigger] s[i]).1.round_number != round by {
            lemma_entry_value(s, i);
            assert(self.request(s[i].0).round_number != round);
        }
        lemma_queued_absent(s, round);
    }

    /// No requests at all.
    pub fn new() -> (r: Self)
        ensures
            r.wf(),
            r.requests() == Map::<u64, PendingRequest>::empty(),
            forall|round: u64| #[trigger] r.total_for(round) == 0,
    {
        PendingQueue { records: KeyedTable::new() }
    }

    /// The record of `user`.
    pub fn get(&self, user: u64) -> (r: PendingRequest)
        requires
            self.wf(),
        ensures
            r == self.request(user),
    {
        match self.records.get(user) {
            Some(p) => p,
            None => PendingRequest { round_number: 0, amount: 0 },
        }
    }

    /// Replaces the record of `user` by `p`, moving the round totals.
    fn put(&mut self, user: u64, p: PendingRequest)
        requires
            old(self).wf(),
            (p.round_number == 0) == (p.amount == 0),
        ensures
            final(self).wf(),
            final(self).requests() == old(self).requests().insert(user, p),
            forall|round: u64|
                #[trigger] final(self).total_for(round) == old(self).total_for(round) - share_of(
                    old(self).request(user),
                    round,
                ) + share_of(p, round),
    {
        let ghost before = self.records.entries();
        proof {
            self.records.lemma_view();
        }
        self.records.set(user, p);
        proof {
            let after = self.records.entries();
            if has_key(before, user) {
                let i = choose|i: int|
                    0 <= i < before.len() && #[trigger] before[i].0 == user && after == before.update(
                        i,
                        (user, p),
                    );
                lemma_entry_value(before, i);
                assert forall|round: u64|
                    #[trigger] queued_for(after, round) == queued_for(before, round) - share_of(
                        before[i].1,
                        round,
                    ) + share_of(p, round) by {
                    lemma_queued_update(before, i, p, round);
                }
                assert forall|j: int|
                    0 <= j < after.len() implies ((#[trigger] after[j]).1.round_number == 0) == (
                    after[j].1.amount == 0) by {
                    if j != i {
                        assert(after[j] == before[j]);
                    }
                }
            } else {
                assert(after.drop_last() =~= before);
                assert forall|j: int|
                    0 <= j < after.len() implies ((#[trigger] after[j]).1.round_number == 0) == (
                    after[j].1.amount == 0) by {
                    if j < before.len() {
                        assert(after[j] == before[j]);
                    }
                }
            }
        }
    }

    /// Adds `amount` to the request of `user` for `round`.
    pub fn add(&mut self, user: u64, round: u64, amount: u64)
        requires
            old(self).wf(),
            round > 0,
            amount > 0,
            old(self).request(user).round_number == 0 || old(self).request(user).round_number
                == round,
            old(self).request(user).amount + amount <= u64::MAX,
        ensures
            final(self).wf(),
            final(self).requests() == old(self).requests().insert(
                user,
                PendingRequest {
                    round_number: round,
                    amount: (old(self).request(user).amount + amount) as u64,
                },
            ),
            final(self).total_for(round) == old(self).total_for(round) + amount,
            forall|other: u64|
                other != round ==> #[trigger] final(self).total_for(other) == old(self).total_for(
                    other,
                ),
    {
        let p = self.get(user);
        proof {
            self.lemma_request(user);
        }
        self.put(user, PendingRequest { round_number: round, amount: p.amount + amount });
    }

    /// Empties the record of `user` and returns what it held.
    pub fn clear(&mut self, user: u64) -> (r: PendingRequest)
        requires
            old(self).wf(),
        ensures
            r == old(self).request(user),
            final(self).wf(),
            final(self).requests() == old(self).requests().insert(user, no_request()),
            forall|round: u64|
                #[trigger] final(self).total_for(round) == old(self).total_for(round) - share_of(
                    r,
                    round,
                ),
    {
        let p = self.get(user);
        self.put(user, PendingRequest { round_number: 0, amount: 0 });
        p
    }
}

} // verus!
