//! Read-only views of a vault's unbonding log: the pending batch and the unbondings still in progress.
use vstd::prelude::*;

use super::{
    batch_claim, claim_outcome, claim_ok, claim_start, iter_measure, next_within, pending_batch_id, pending_batch_ok,
    spec_pending_batch_id, walk_claim, walk_ok, BatchId, ClaimableBatchIter, Hint, Instant, Now, Strategy, UnbondingLog,
};

verus! {

/// An unbonding that has not ended yet: the value unbonding and its epoch.
#[derive(Debug, Clone, Copy, PartialEq, Eq, Structural)]
pub struct UnbondingStatus {
    pub amount: u128,
    pub start: Instant,
    pub end: Instant,
}

/// The value waiting in the pending batch, and when that batch may start unbonding, if known.
#[derive(Debug, Clone, Copy, PartialEq, Eq, Structural)]
pub struct PendingUnbonding {
    pub amount: u128,
    pub start_hint: Option<Hint>,
}

/// The pending unbonding of `recipient` when given, otherwise of the whole vault.
pub open spec fn spec_pending_unbonding<U: UnbondingLog>(log: &U, recipient: Option<Seq<char>>) -> PendingUnbonding {
    let batch = spec_pending_batch_id(log) as BatchId;
    let value = match recipient {
        Some(r) => log.spec_unbonded_value_in_batch(r, batch),
        None => log.spec_batch_unbond_value(batch),
    };
    PendingUnbonding {
        amount: match value {
            Some(v) => v,
            None => 0,
        },
        start_hint: log.spec_pending_batch_hint(batch),
    }
}

/// The value waiting in the pending batch (for `recipient`, or in total) and the batch's start hint.
pub fn pending_unbonding<U: UnbondingLog>(unbonding_log: &U, recipient: Option<&str>) -> (r: PendingUnbonding)
    requires
        pending_batch_ok(unbonding_log),
    ensures
        r == spec_pending_unbonding(
            unbonding_log,
            match recipient {
                Some(s) => Some(s@),
                None => None,
            },
        ),
{
    let batch = pending_batch_id(unbonding_log);
    let value = match recipient {
        Some(recipient) => unbonding_log.unbonded_value_in_batch(recipient, batch),
        None => unbonding_log.batch_unbond_value(batch),
    };
    let amount = match value {
        Some(v) => v.0,
        None => 0,
    };
    PendingUnbonding { amount, start_hint: unbonding_log.pending_batch_hint(batch) }
}

/// A listing of `len` entries holds as many as `limit` allows.
pub open spec fn limit_reached(len: nat, limit: Option<u32>) -> bool {
    match limit {
        Some(n) => len >= n as nat,
        None => false,
    }
}

/// A listing holds at most `limit` entries, when one is given.
pub open spec fn within_limit(len: nat, limit: Option<u32>) -> bool {
    match limit {
        Some(n) => len <= n as nat,
        None => true,
    }
}

/// The unbondings of the whole vault from committed `batch` down to batch zero, newest first, stopping at the first
/// batch whose unbonding has ended, with `taken` entries listed before.
pub open spec fn all_unbondings_from<U: UnbondingLog>(log: &U, now: Now, batch: int, limit: Option<u32>, taken: nat) -> Seq<
    UnbondingStatus,
>
    decreases batch + 1,
{
    if batch < 0 || limit_reached(taken, limit) {
        Seq::empty()
    } else {
        let epoch = log.spec_committed_batch_epoch(batch as BatchId).unwrap();
        if epoch.end < now {
            Seq::empty()
        } else {
            let status = UnbondingStatus {
                amount: log.spec_batch_unbond_value(batch as BatchId).unwrap(),
                start: epoch.start,
                end: epoch.end,
            };
            seq![status] + all_unbondings_from(log, now, batch - 1, limit, taken + 1)
        }
    }
}

/// Every batch that the listing from `batch` down visits has an epoch, and every one of them still unbonding has a value.
pub open spec fn all_unbondings_ok<U: UnbondingLog>(log: &U, now: Now, batch: int, limit: Option<u32>, taken: nat) -> bool
    decreases batch + 1,
{
    if batch < 0 || limit_reached(taken, limit) {
        true
    } else {
        match log.spec_committed_batch_epoch(batch as BatchId) {
            None => false,
            Some(epoch) => epoch.end < now || {
                &&& log.spec_batch_unbond_value(batch as BatchId) is Some
                &&& all_unbondings_ok(log, now, batch - 1, limit, taken + 1)
            },
        }
    }
}

/// The listing from `batch` adds no more entries than the limit leaves room for.
pub proof fn lemma_all_unbondings_within_limit<U: UnbondingLog>(log: &U, now: Now, batch: int, limit: Option<u32>, taken: nat)
    requires
        within_limit(taken, limit),
    ensures
        within_limit(taken + all_unbondings_from(log, now, batch, limit, taken).len(), limit),
    decreases batch + 1,
{
    if batch >= 0 && !limit_reached(taken, limit) {
        lemma_all_unbondings_within_limit(log, now, batch - 1, limit, taken + 1);
    }
}

/// The vault's unbondings that have not ended at `now`, newest first, at most `limit` of them.
pub open spec fn spec_all_active_unbondings<U: UnbondingLog>(log: &U, now: Now, limit: Option<u32>) -> Seq<UnbondingStatus> {
    match log.spec_last_committed_batch_id() {
        None => Seq::empty(),
        Some(last) => all_unbondings_from(log, now, last as int, limit, 0),
    }
}

/// Every committed batch the listing visits is recorded in full.
pub open spec fn all_active_unbondings_ok<U: UnbondingLog>(log: &U, now: Now, limit: Option<u32>) -> bool {
    match log.spec_last_committed_batch_id() {
        None => true,
        Some(last) => all_unbondings_ok(log, now, last as int, limit, 0),
    }
}

/// Lists the vault's committed batches that are still unbonding at `now`, newest first.
pub fn all_active_unbondings<U: UnbondingLog>(unbonding_log: &U, now: Now, limit: Option<u32>) -> (r: Vec<
    UnbondingStatus,
>)
    requires
        all_active_unbondings_ok(unbonding_log, now, limit),
    ensures
        r@ == spec_all_active_unbondings(unbonding_log, now, limit),
        within_limit(r@.len(), limit),
{
    proof {
        if let Some(last) = unbonding_log.spec_last_committed_batch_id() {
            lemma_all_unbondings_within_limit(unbonding_log, now, last as int, limit, 0);
        }
    }
    let last = match unbonding_log.last_committed_batch_id() {
        Some(last) => last,
        None => {
            return Vec::new();
        },
    };
    let mut unbondings: Vec<UnbondingStatus> = Vec::new();
    let mut batch: BatchId = last;
    loop
        invariant_except_break
            all_unbondings_ok(unbonding_log, now, batch as int, limit, unbondings@.len()),
            unbondings@ + all_unbondings_from(unbonding_log, now, batch as int, limit, unbondings@.len())
                == all_unbondings_from(unbonding_log, now, last as int, limit, 0),
        ensures
            unbondings@ == all_unbondings_from(unbonding_log, now, last as int, limit, 0),
        decreases batch,
    {
        let ghost before = unbondings@;
        if let Some(limit) = limit {
            if unbondings.len() >= limit as usize {
                assert(unbondings@ + Seq::<UnbondingStatus>::empty() == unbondings@);
                break;
            }
        }
        let epoch = unbonding_log.committed_batch_epoch(batch).unwrap();
        if epoch.end < now {
            assert(unbondings@ + Seq::<UnbondingStatus>::empty() == unbondings@);
            break;
        }
        let amount = unbonding_log.batch_unbond_value(batch).unwrap().0;
        let status = UnbondingStatus { amount, start: epoch.start, end: epoch.end };
        unbondings.push(status);
        proof {
            assert(before.push(status) == before + seq![status]);
        }
        if batch == 0 {
            assert(all_unbondings_from(unbonding_log, now, -1, limit, unbondings@.len()) == Seq::<UnbondingStatus>::empty());
            assert(unbondings@ + Seq::<UnbondingStatus>::empty() == unbondings@);
            break;
        }
        proof {
            assert(before + (seq![status] + all_unbondings_from(unbonding_log, now, batch - 1, limit, unbondings@.len()))
                == unbondings@ + all_unbondings_from(unbonding_log, now, batch - 1, limit, unbondings@.len()));
        }
        batch = batch - 1;
    }
    unbondings
}

/// Each entry started no earlier than the entries after it.
pub open spec fn starts_descending(s: Seq<UnbondingStatus>) -> bool {
    forall|i: int, j: int| 0 <= i < j < s.len() ==> #[trigger] s[i].start >= #[trigger] s[j].start
}

/// Every entry started no later than `bound`.
pub open spec fn starts_at_most(s: Seq<UnbondingStatus>, bound: Instant) -> bool {
    forall|k: int| 0 <= k < s.len() ==> #[trigger] s[k].start <= bound
}

/// Committed batches up to `last` start their epochs in the order of their ids.
pub open spec fn epochs_in_order<U: UnbondingLog>(log: &U, last: BatchId) -> bool {
    forall|b1: BatchId, b2: BatchId|
        #![trigger log.spec_committed_batch_epoch(b1), log.spec_committed_batch_epoch(b2)]
        b1 < b2 <= last ==> match (log.spec_committed_batch_epoch(b1), log.spec_committed_batch_epoch(b2)) {
            (Some(e1), Some(e2)) => e1.start <= e2.start,
            _ => true,
        }
}

/// The listing from `batch` down is ordered by epoch start, newest first, and starts no later than `batch` does.
proof fn lemma_all_unbondings_descending<U: UnbondingLog>(
    log: &U,
    now: Now,
    batch: int,
    limit: Option<u32>,
    taken: nat,
    last: BatchId,
)
    requires
        batch <= last,
        all_unbondings_ok(log, now, batch, limit, taken),
        epochs_in_order(log, last),
    ensures
        starts_descending(all_unbondings_from(log, now, batch, limit, taken)),
        batch >= 0 && log.spec_committed_batch_epoch(batch as BatchId) is Some ==> starts_at_most(
            all_unbondings_from(log, now, batch, limit, taken),
            log.spec_committed_batch_epoch(batch as BatchId).unwrap().start,
        ),
    decreases batch + 1,
{
    if batch >= 0 && !limit_reached(taken, limit) {
        let epoch = log.spec_committed_batch_epoch(batch as BatchId).unwrap();
        if epoch.end >= now {
            lemma_all_unbondings_descending(log, now, batch - 1, limit, taken + 1, last);
            let rest = all_unbondings_from(log, now, batch - 1, limit, taken + 1);
            let all = all_unbondings_from(log, now, batch, limit, taken);
            if rest.len() > 0 {
                assert(batch - 1 >= 0 && !limit_reached(taken + 1, limit));
                assert(all_unbondings_ok(log, now, batch - 1, limit, taken + 1));
                let e_prev = log.spec_committed_batch_epoch((batch - 1) as BatchId);
                assert(e_prev is Some);
                assert(match (e_prev, log.spec_committed_batch_epoch(batch as BatchId)) {
                    (Some(e1), Some(e2)) => e1.start <= e2.start,
                    _ => true,
                });
            }
            assert forall|k: int| 0 <= k < all.len() implies #[trigger] all[k].start <= epoch.start by {
                if k > 0 {
                    assert(all[k] == rest[k - 1]);
                }
            }
            assert forall|i: int, j: int| 0 <= i < j < all.len() implies #[trigger] all[i].start >= #[trigger] all[j].start by {
                assert(all[j] == rest[j - 1]);
                if i > 0 {
                    assert(all[i] == rest[i - 1]);
                }
            }
        }
    }
}

/// The vault's active unbondings come newest first: in descending order of epoch start, wherever committed batches
/// start their epochs in the order of their ids.
pub proof fn law_all_active_unbondings_newest_first<U: UnbondingLog>(log: &U, now: Now, limit: Option<u32>)
    requires
        all_active_unbondings_ok(log, now, limit),
        log.spec_last_committed_batch_id() matches Some(last) ==> epochs_in_order(log, last),
    ensures
        starts_descending(spec_all_active_unbondings(log, now, limit)),
{
    if let Some(last) = log.spec_last_committed_batch_id() {
        lemma_all_unbondings_descending(log, now, last as int, limit, 0, last);
    }
}

/// The batch `previously_entered_batch` reports for `batch`.
pub open spec fn previous_of<F: Fn(BatchId) -> Option<BatchId>>(previously_entered_batch: F, batch: BatchId) -> Option<
    BatchId,
> {
    choose|r: Option<BatchId>| call_ensures(previously_entered_batch, (batch,), r)
}

/// The lookup of an account's previously entered batch can be called on any batch, answers the same for the same
/// batch, and leads back to earlier batches only.
pub open spec fn previous_links_ok<F: Fn(BatchId) -> Option<BatchId>>(previously_entered_batch: F) -> bool {
    &&& forall|b: BatchId| call_requires(previously_entered_batch, (b,))
    &&& forall|b: BatchId, r1: Option<BatchId>, r2: Option<BatchId>|
        #![trigger call_ensures(previously_entered_batch, (b,), r1), call_ensures(previously_entered_batch, (b,), r2)]
        call_ensures(previously_entered_batch, (b,), r1) && call_ensures(previously_entered_batch, (b,), r2) ==> r1 == r2
    &&& forall|b: BatchId, p: BatchId|
        #[trigger] call_ensures(previously_entered_batch, (b,), Some(p)) ==> p < b
}

/// What the lookup returned is what `previous_of` names.
pub proof fn lemma_previous_of<F: Fn(BatchId) -> Option<BatchId>>(previously_entered_batch: F, batch: BatchId, r: Option<BatchId>)
    requires
        previous_links_ok(previously_entered_batch),
        call_ensures(previously_entered_batch, (batch,), r),
    ensures
        previous_of(previously_entered_batch, batch) == r,
{
    let c = previous_of(previously_entered_batch, batch);
    assert(call_ensures(previously_entered_batch, (batch,), c));
}

/// The unbondings of `account` from its entered `batch` back through the batches it entered before, newest first,
/// stopping at the first batch whose unbonding has ended, with `taken` entries listed before.
pub open spec fn account_unbondings_from<U: UnbondingLog, F: Fn(BatchId) -> Option<BatchId>>(
    log: &U,
    previously_entered_batch: F,
    account: Seq<char>,
    now: Now,
    batch: BatchId,
    limit: Option<u32>,
    taken: nat,
) -> Seq<UnbondingStatus>
    decreases batch,
{
    let epoch = log.spec_committed_batch_epoch(batch).unwrap();
    if limit_reached(taken, limit) || epoch.end < now {
        Seq::empty()
    } else {
        let status = UnbondingStatus {
            amount: log.spec_unbonded_value_in_batch(account, batch).unwrap(),
            start: epoch.start,
            end: epoch.end,
        };
        match previous_of(previously_entered_batch, batch) {
            Some(p) => if p < batch {
                seq![status] + account_unbondings_from(log, previously_entered_batch, account, now, p, limit, taken + 1)
            } else {
                seq![status]
            },
            None => seq![status],
        }
    }
}

/// Every batch that the listing from `batch` back visits has an epoch, and the account's value is recorded in every
/// one of them still unbonding.
pub open spec fn account_unbondings_ok<U: UnbondingLog, F: Fn(BatchId) -> Option<BatchId>>(
    log: &U,
    previously_entered_batch: F,
    account: Seq<char>,
    now: Now,
    batch: BatchId,
    limit: Option<u32>,
    taken: nat,
) -> bool
    decreases batch,
{
    limit_reached(taken, limit) || match log.spec_committed_batch_epoch(batch) {
        None => false,
        Some(epoch) => epoch.end < now || {
            &&& log.spec_unbonded_value_in_batch(account, batch) is Some
            &&& match previous_of(previously_entered_batch, batch) {
                Some(p) => p < batch ==> account_unbondings_ok(
                    log,
                    previously_entered_batch,
                    account,
                    now,
                    p,
                    limit,
                    taken + 1,
                ),
                None => true,
            }
        },
    }
}

/// The account's listing from `batch` adds no more entries than the limit leaves room for.
pub proof fn lemma_account_unbondings_within_limit<U: UnbondingLog, F: Fn(BatchId) -> Option<BatchId>>(
    log: &U,
    previously_entered_batch: F,
    account: Seq<char>,
    now: Now,
    batch: BatchId,
    limit: Option<u32>,
    taken: nat,
)
    requires
        within_limit(taken, limit),
    ensures
        within_limit(
            taken + account_unbondings_from(log, previously_entered_batch, account, now, batch, limit, taken).len(),
            limit,
        ),
    decreases batch,
{
    if !limit_reached(taken, limit) {
        match previous_of(previously_entered_batch, batch) {
            Some(p) => if p < batch {
                lemma_account_unbondings_within_limit(log, previously_entered_batch, account, now, p, limit, taken + 1);
            },
            None => {},
        }
    }
}

/// The latest committed batch that `account` entered, where its listing starts.
pub open spec fn account_start<U: UnbondingLog, F: Fn(BatchId) -> Option<BatchId>>(
    log: &U,
    previously_entered_batch: F,
    account: Seq<char>,
) -> Option<BatchId> {
    match (log.spec_last_entered_batch(account), log.spec_last_committed_batch_id()) {
        (Some(last_entered), Some(last_committed)) => if last_entered <= last_committed {
            Some(last_entered)
        } else {
            previous_of(previously_entered_batch, last_entered)
        },
        _ => None,
    }
}

/// The unbondings of `account` that have not ended at `now`, newest first, at most `limit` of them.
pub open spec fn spec_account_active_unbondings<U: UnbondingLog, F: Fn(BatchId) -> Option<BatchId>>(
    log: &U,
    previously_entered_batch: F,
    account: Seq<char>,
    now: Now,
    limit: Option<u32>,
) -> Seq<UnbondingStatus> {
    match account_start(log, previously_entered_batch, account) {
        None => Seq::empty(),
        Some(b) => account_unbondings_from(log, previously_entered_batch, account, now, b, limit, 0),
    }
}

/// Every batch the account's listing visits is recorded in full.
pub open spec fn account_active_unbondings_ok<U: UnbondingLog, F: Fn(BatchId) -> Option<BatchId>>(
    log: &U,
    previously_entered_batch: F,
    account: Seq<char>,
    now: Now,
    limit: Option<u32>,
) -> bool {
    match account_start(log, previously_entered_batch, account) {
        None => true,
        Some(b) => account_unbondings_ok(log, previously_entered_batch, account, now, b, limit, 0),
    }
}

/// The account's listing from `batch` back is ordered by epoch start, newest first, and starts no later than `batch`
/// does.
proof fn lemma_account_unbondings_descending<U: UnbondingLog, F: Fn(BatchId) -> Option<BatchId>>(
    log: &U,
    previously_entered_batch: F,
    account: Seq<char>,
    now: Now,
    batch: BatchId,
    limit: Option<u32>,
    taken: nat,
)
    requires
        account_unbondings_ok(log, previously_entered_batch, account, now, batch, limit, taken),
        epochs_in_order(log, u64::MAX),
    ensures
        starts_descending(account_unbondings_from(log, previously_entered_batch, account, now, batch, limit, taken)),
        log.spec_committed_batch_epoch(batch) is Some ==> starts_at_most(
            account_unbondings_from(log, previously_entered_batch, account, now, batch, limit, taken),
            log.spec_committed_batch_epoch(batch).unwrap().start,
        ),
    decreases batch,
{
    let all = account_unbondings_from(log, previously_entered_batch, account, now, batch, limit, taken);
    if !limit_reached(taken, limit) {
        let epoch = log.spec_committed_batch_epoch(batch).unwrap();
        if epoch.end >= now {
            match previous_of(previously_entered_batch, batch) {
                Some(p) => if p < batch {
                    lemma_account_unbondings_descending(log, previously_entered_batch, account, now, p, limit, taken + 1);
                    let rest = account_unbondings_from(log, previously_entered_batch, account, now, p, limit, taken + 1);
                    if rest.len() > 0 {
                        assert(!limit_reached(taken + 1, limit));
                        assert(account_unbondings_ok(log, previously_entered_batch, account, now, p, limit, taken + 1));
                        assert(log.spec_committed_batch_epoch(p) is Some);
                        assert(match (log.spec_committed_batch_epoch(p), log.spec_committed_batch_epoch(batch)) {
                            (Some(e1), Some(e2)) => e1.start <= e2.start,
                            _ => true,
                        });
                    }
                    assert forall|k: int| 0 <= k < all.len() implies #[trigger] all[k].start <= epoch.start by {
                        if k > 0 {
                            assert(all[k] == rest[k - 1]);
                        }
                    }
                    assert forall|i: int, j: int| 0 <= i < j < all.len() implies #[trigger] all[i].start
                        >= #[trigger] all[j].start by {
                        assert(all[j] == rest[j - 1]);
                        if i > 0 {
                            assert(all[i] == rest[i - 1]);
                        }
                    }
                },
                None => {},
            }
        }
    }
}

/// An account's active unbondings come newest first: in descending order of epoch start, wherever batches start their
/// epochs in the order of their ids.
pub proof fn law_account_active_unbondings_newest_first<U: UnbondingLog, F: Fn(BatchId) -> Option<BatchId>>(
    log: &U,
    previously_entered_batch: F,
    account: Seq<char>,
    now: Now,
    limit: Option<u32>,
)
    requires
        account_active_unbondings_ok(log, previously_entered_batch, account, now, limit),
        epochs_in_order(log, u64::MAX),
    ensures
        starts_descending(spec_account_active_unbondings(log, previously_entered_batch, account, now, limit)),
{
    if let Some(b) = account_start(log, previously_entered_batch, account) {
        lemma_account_unbondings_descending(log, previously_entered_batch, account, now, b, limit, 0);
    }
}

/// Lists the committed batches that `account` entered and that are still unbonding at `now`, newest first, following
/// `previously_entered_batch` back from the latest one.
pub fn account_active_unbondings<U: UnbondingLog, F: Fn(BatchId) -> Option<BatchId>>(
    previously_entered_batch: F,
    unbonding_log: &U,
    now: Now,
    account: &str,
    limit: Option<u32>,
) -> (r: Vec<UnbondingStatus>)
    requires
        previous_links_ok(previously_entered_batch),
        account_active_unbondings_ok(unbonding_log, previously_entered_batch, account@, now, limit),
    ensures
        r@ == spec_account_active_unbondings(unbonding_log, previously_entered_batch, account@, now, limit),
        within_limit(r@.len(), limit),
{
    proof {
        if let Some(b) = account_start(unbonding_log, previously_entered_batch, account@) {
            lemma_account_unbondings_within_limit(unbonding_log, previously_entered_batch, account@, now, b, limit, 0);
        }
    }
    let last_entered = match unbonding_log.last_entered_batch(account) {
        Some(b) => b,
        None => {
            return Vec::new();
        },
    };
    let last_committed = match unbonding_log.last_committed_batch_id() {
        Some(b) => b,
        None => {
            return Vec::new();
        },
    };
    let first = if last_entered <= last_committed {
        last_entered
    } else {
        // the last entered batch is the pending one: start from the one entered before it
        let previous = previously_entered_batch(last_entered);
        proof {
            lemma_previous_of(previously_entered_batch, last_entered, previous);
        }
        match previous {
            Some(b) => b,
            None => {
                return Vec::new();
            },
        }
    };
    let ghost acc = account@;
    let mut unbondings: Vec<UnbondingStatus> = Vec::new();
    let mut batch: BatchId = first;
    loop
        invariant_except_break
            previous_links_ok(previously_entered_batch),
            account@ == acc,
            account_unbondings_ok(unbonding_log, previously_entered_batch, acc, now, batch, limit, unbondings@.len()),
            unbondings@ + account_unbondings_from(
                unbonding_log,
                previously_entered_batch,
                acc,
                now,
                batch,
                limit,
                unbondings@.len(),
            ) == account_unbondings_from(unbonding_log, previously_entered_batch, acc, now, first, limit, 0),
        ensures
            unbondings@ == account_unbondings_from(unbonding_log, previously_entered_batch, acc, now, first, limit, 0),
        decreases batch,
    {
        let ghost before = unbondings@;
        if let Some(limit) = limit {
            if unbondings.len() >= limit as usize {
                assert(unbondings@ + Seq::<UnbondingStatus>::empty() == unbondings@);
                break;
            }
        }
        let epoch = unbonding_log.committed_batch_epoch(batch).unwrap();
        if epoch.end < now {
            assert(unbondings@ + Seq::<UnbondingStatus>::empty() == unbondings@);
            break;
        }
        let amount = unbonding_log.unbonded_value_in_batch(account, batch).unwrap().0;
        let status = UnbondingStatus { amount, start: epoch.start, end: epoch.end };
        unbondings.push(status);
        proof {
            assert(before.push(status) == before + seq![status]);
        }
        let previous = previously_entered_batch(batch);
        proof {
            lemma_previous_of(previously_entered_batch, batch, previous);
        }
        match previous {
            Some(p) => {
                proof {
                    assert(before + (seq![status] + account_unbondings_from(
                        unbonding_log,
                        previously_entered_batch,
                        acc,
                        now,
                        p,
                        limit,
                        unbondings@.len(),
                    )) == unbondings@ + account_unbondings_from(
                        unbonding_log,
                        previously_entered_batch,
                        acc,
                        now,
                        p,
                        limit,
                        unbondings@.len(),
                    ));
                }
                batch = p;
            },
            None => {
                assert(unbondings@ + Seq::<UnbondingStatus>::empty() == unbondings@);
                break;
            },
        }
    }
    unbondings
}

/// The running total after walking the claimable batches from `batch` on, as a claim walks them but without a cap.
pub open spec fn walk_total<U: UnbondingLog>(
    log: &U,
    recipient: Seq<char>,
    now: Now,
    highest: BatchId,
    batch: BatchId,
    total: nat,
) -> nat
    decreases highest - batch,
{
    match log.spec_committed_batch_epoch(batch) {
        None => total,
        Some(epoch) => if epoch.end > now {
            total
        } else {
            let t = total + batch_claim(log, recipient, batch);
            match next_within(log, recipient, batch, highest) {
                Some(n) => if n > batch {
                    walk_total(log, recipient, now, highest, n, t)
                } else {
                    t
                },
                None => t,
            }
        },
    }
}

/// The total that `recipient` can claim at `now`: the sum over its ended batches not yet claimed.
pub open spec fn claimable_total<U: UnbondingLog>(log: &U, recipient: Seq<char>, now: Now) -> nat {
    match claim_start(log, recipient) {
        None => 0,
        Some((h, f)) => walk_total(log, recipient, now, h, f, 0),
    }
}

/// What is left of the sum for an iterator in the given state, with `total` summed so far.
pub open spec fn iter_total<U: UnbondingLog>(
    log: &U,
    recipient: Seq<char>,
    now: Now,
    highest: Option<BatchId>,
    next: Option<BatchId>,
    total: nat,
) -> nat {
    match highest {
        None => match claim_start(log, recipient) {
            None => total,
            Some((h, f)) => walk_total(log, recipient, now, h, f, total),
        },
        Some(h) => match next {
            None => total,
            Some(n) => walk_total(log, recipient, now, h, n, total),
        },
    }
}

/// The walk only adds to the total.
pub proof fn lemma_walk_total_grows<U: UnbondingLog>(
    log: &U,
    recipient: Seq<char>,
    now: Now,
    highest: BatchId,
    batch: BatchId,
    total: nat,
)
    ensures
        walk_total(log, recipient, now, highest, batch, total) >= total,
    decreases highest - batch,
{
    match log.spec_committed_batch_epoch(batch) {
        None => {},
        Some(epoch) => if epoch.end <= now {
            let t = total + batch_claim(log, recipient, batch);
            match next_within(log, recipient, batch, highest) {
                Some(n) => if n > batch {
                    lemma_walk_total_grows(log, recipient, now, highest, n, t);
                },
                None => {},
            }
        },
    }
}

/// Where the uncapped total fits a `u128`, a claim walks the same batches and reaches the same total, and it names a
/// last batch unless it claimed nothing.
pub proof fn lemma_walk_claim_uncapped<U: UnbondingLog>(
    log: &U,
    recipient: Seq<char>,
    now: Now,
    highest: BatchId,
    batch: BatchId,
    total: nat,
    last: Option<BatchId>,
)
    requires
        walk_total(log, recipient, now, highest, batch, total) <= u128::MAX,
    ensures
        walk_claim(log, recipient, now, highest, batch, total, last).0 == walk_total(log, recipient, now, highest, batch, total),
        walk_claim(log, recipient, now, highest, batch, total, last).1 is None ==> last is None
            && walk_total(log, recipient, now, highest, batch, total) == total,
    decreases highest - batch,
{
    match log.spec_committed_batch_epoch(batch) {
        None => {},
        Some(epoch) => if epoch.end <= now {
            let t = total + batch_claim(log, recipient, batch);
            match next_within(log, recipient, batch, highest) {
                Some(n) => if n > batch {
                    lemma_walk_total_grows(log, recipient, now, highest, n, t);
                    lemma_walk_claim_uncapped(log, recipient, now, highest, n, t, Some(batch));
                },
                None => {},
            }
        },
    }
}

/// What the vault reports as claimable is what a claim sends at the same moment, wherever that total fits a `u128`;
/// nothing is claimable exactly when a claim finds nothing to claim.
pub proof fn law_claimable_is_claimed<U: UnbondingLog>(log: &U, recipient: Seq<char>, now: Now)
    requires
        claimable_total(log, recipient, now) <= u128::MAX,
    ensures
        match claim_outcome(log, recipient, now) {
            Some((total, _)) => total == claimable_total(log, recipient, now),
            None => claimable_total(log, recipient, now) == 0,
        },
{
    match claim_start(log, recipient) {
        None => {},
        Some((h, f)) => {
            lemma_walk_claim_uncapped(log, recipient, now, h, f, 0, None);
        },
    }
}

/// The total that `recipient` can claim now from the vault's unbonded batches.
pub fn claimable<U: UnbondingLog, S: Strategy>(recipient: &str, unbonding_log: &U, strategy: &S) -> (r: u128)
    requires
        claim_ok(unbonding_log, recipient@, strategy.spec_now()),
        claimable_total(unbonding_log, recipient@, strategy.spec_now()) <= u128::MAX,
    ensures
        r == claimable_total(unbonding_log, recipient@, strategy.spec_now()),
{
    let ghost rec = recipient@;
    let ghost now = strategy.spec_now();
    let mut total: u128 = 0;
    let mut iter = ClaimableBatchIter::new(recipient, unbonding_log, strategy);
    loop
        invariant_except_break
            iter.recipient() == rec,
            iter.log() == unbonding_log,
            iter.now() == now,
            claim_ok(unbonding_log, rec, now),
            iter.highest() is None ==> total == 0 && iter.next_id() is None,
            iter.highest() matches Some(h) ==> (iter.next_id() matches Some(n) ==> n <= h && walk_ok(
                unbonding_log,
                rec,
                now,
                h,
                n,
            )),
            iter_total(unbonding_log, rec, now, iter.highest(), iter.next_id(), total as nat) == claimable_total(
                unbonding_log,
                rec,
                now,
            ),
            claimable_total(unbonding_log, rec, now) <= u128::MAX,
        ensures
            total == claimable_total(unbonding_log, rec, now),
        decreases iter_measure(iter.highest(), iter.next_id()),
    {
        let ghost prev = iter;
        match iter.next() {
            None => {
                break;
            },
            Some((amount, id)) => {
                proof {
                    let h = iter.highest().unwrap();
                    let b = if prev.highest() is None {
                        claim_start(unbonding_log, rec).unwrap().1
                    } else {
                        prev.next_id().unwrap()
                    };
                    match iter.next_id() {
                        Some(n) => lemma_walk_total_grows(unbonding_log, rec, now, h, n, (total + amount.0) as nat),
                        None => {},
                    }
                    assert(walk_total(unbonding_log, rec, now, h, b, total as nat) >= total + amount.0);
                }
                total = total + amount.0;
            },
        }
    }
    total
}

} // verus!
