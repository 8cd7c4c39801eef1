//! What the pending requests of settled rounds are owed, summed over rounds,
//! and how that sum moves when requests or rounds change.
use vstd::prelude::*;

use crate::pending::{PendingQueue, PendingRequest};
use crate::round::Round;
use crate::settlement::pro_rata;

verus! {

/// What the records targeting round `j` are owed together, where that round
/// has been settled: their part of the shares minted for the round's
/// deposits (`deposits`), or of the underlying set aside for its withdrawals.
pub open spec fn claims_at(rounds: Seq<Round>, q: PendingQueue, deposits: bool, j: nat) -> nat {
    let r = rounds[j - 1];
    if !r.settled() {
        0
    } else if deposits {
        pro_rata(
            q.total_for(j as u64),
            r.volt_tokens_for_pending_deposits->0 as nat,
            r.underlying_from_pending_deposits as nat,
        )
    } else {
        pro_rata(
            q.total_for(j as u64),
            r.underlying_for_pending_withdrawals->0 as nat,
            r.volt_tokens_from_pending_withdrawals as nat,
        )
    }
}

/// What the records are owed over rounds `1..=n`.
pub open spec fn outstanding_claims(rounds: Seq<Round>, q: PendingQueue, deposits: bool, n: nat) -> nat
    decreases n,
{
    if n == 0 {
        0
    } else {
        outstanding_claims(rounds, q, deposits, (n - 1) as nat) + claims_at(rounds, q, deposits, n)
    }
}

/// Sums over rounds that owe the same each are the same.
pub(crate) proof fn lemma_claims_frame(
    r1: Seq<Round>,
    q1: PendingQueue,
    r2: Seq<Round>,
    q2: PendingQueue,
    deposits: bool,
    n: nat,
)
    requires
        forall|j: nat|
            1 <= j <= n ==> #[trigger] claims_at(r1, q1, deposits, j) == claims_at(
                r2,
                q2,
                deposits,
                j,
            ),
    ensures
        outstanding_claims(r1, q1, deposits, n) == outstanding_claims(r2, q2, deposits, n),
    decreases n,
{
    if n > 0 {
        lemma_claims_frame(r1, q1, r2, q2, deposits, (n - 1) as nat);
        assert(claims_at(r1, q1, deposits, n) == claims_at(r2, q2, deposits, n));
    }
}

/// Where one round owes something else, the sum moves by the difference.
pub(crate) proof fn lemma_claims_change(
    r1: Seq<Round>,
    q1: PendingQueue,
    r2: Seq<Round>,
    q2: PendingQueue,
    deposits: bool,
    n: nat,
    k: nat,
)
    requires
        1 <= k <= n,
        forall|j: nat|
            1 <= j <= n && j != k ==> #[trigger] claims_at(r1, q1, deposits, j) == claims_at(
                r2,
                q2,
                deposits,
                j,
            ),
    ensures
        outstanding_claims(r2, q2, deposits, n) + claims_at(r1, q1, deposits, k)
            == outstanding_claims(r1, q1, deposits, n) + claims_at(r2, q2, deposits, k),
    decreases n,
{
    if n == k {
        lemma_claims_frame(r1, q1, r2, q2, deposits, (n - 1) as nat);
    } else {
        lemma_claims_change(r1, q1, r2, q2, deposits, (n - 1) as nat, k);
        assert(claims_at(r1, q1, deposits, n) == claims_at(r2, q2, deposits, n));
    }
}

/// One round owes no more than all of them.
pub(crate) proof fn lemma_claims_within(rounds: Seq<Round>, q: PendingQueue, deposits: bool, n: nat, k: nat)
    requires
        1 <= k <= n,
    ensures
        claims_at(rounds, q, deposits, k) <= outstanding_claims(rounds, q, deposits, n),
    decreases n,
{
    if k < n {
        lemma_claims_within(rounds, q, deposits, (n - 1) as nat, k);
    }
}

/// Where only the open round `cur` changed, in its record and in what its
/// requests total, nothing owed changed: an open round owes nothing.
pub(crate) proof fn lemma_claims_open_round(
    r1: Seq<Round>,
    q1: PendingQueue,
    r2: Seq<Round>,
    q2: PendingQueue,
    deposits: bool,
    n: nat,
    cur: nat,
)
    requires
        1 <= cur <= n <= u64::MAX,
        n <= r1.len(),
        n <= r2.len(),
        !r1[cur - 1].settled(),
        !r2[cur - 1].settled(),
        forall|i: int| 0 <= i < n && i != cur - 1 ==> r1[i] == r2[i],
        forall|j: u64| j != cur ==> #[trigger] q2.total_for(j) == q1.total_for(j),
    ensures
        outstanding_claims(r1, q1, deposits, n) == outstanding_claims(r2, q2, deposits, n),
{
    assert forall|j: nat| 1 <= j <= n implies #[trigger] claims_at(r1, q1, deposits, j) == claims_at(
        r2,
        q2,
        deposits,
        j,
    ) by {
        if j != cur {
            assert(r1[j - 1] == r2[j - 1]);
            assert((j as u64) as nat == j);
            assert(q2.total_for(j as u64) == q1.total_for(j as u64));
        }
    }
    lemma_claims_frame(r1, q1, r2, q2, deposits, n);
}

/// Replacing one record by one that targets no later round than `bound`
/// keeps every record within `bound`.
pub(crate) proof fn lemma_requests_within(
    before: &PendingQueue,
    after: &PendingQueue,
    user: u64,
    p: PendingRequest,
    bound: u64,
)
    requires
        forall|u: u64| #[trigger] before.request(u).round_number <= bound,
        after.requests() == before.requests().insert(user, p),
        p.round_number <= bound,
    ensures
        forall|u: u64| #[trigger] after.request(u).round_number <= bound,
{
    assert forall|u: u64| #[trigger] after.request(u).round_number <= bound by {
        if u != user {
            assert(after.request(u) == before.request(u));
        }
    }
}

} // verus!
