//! Dispatch: the broker's lease step. One call picks the admissible queued
//! rows under each tenant's token budget (and up to a fixed cap of
//! untenanted rows), leases them with `lock_nonce = now`, and debits each
//! tenant by the number of rows it was granted.
//!
//! Admission prefers the caller's region: a row is admissible there up to
//! three seconds early, and anywhere once it is five seconds overdue (the
//! spillover rule). Candidates are taken in `(scheduled_at, id)` order, so
//! dispatch is monotone per tenant.

use vstd::prelude::*;

use crate::store::sj_ok;
use crate::store::sj_queued;
use crate::store::tenant_ok;
use crate::store::ScheduledJob;
use crate::store::Store;
use crate::store::Tenant;
use crate::store::MAX_TS;

verus! {

/// How many untenanted rows one dispatch call may lease.
pub const ANONYMOUS_DISPATCH_CAP: usize = 100;

/// How early a row may be handed to a drone of its own region, in seconds.
pub const REGION_EARLY_SECS: i64 = 3;

/// How overdue a row must be before any region may take it, in seconds.
pub const SPILLOVER_SECS: i64 = 5;

/// A row is admissible for a dispatch call from `region` at `now`: queued,
/// and either due (within three seconds) in its own region or five seconds
/// overdue anywhere.
pub open spec fn admissible(j: ScheduledJob, region: Seq<char>, now: i64) -> bool {
    &&& sj_queued(j)
    &&& ((j.region@ == region && j.scheduled_at <= now + REGION_EARLY_SECS) || j.scheduled_at
        <= now - SPILLOVER_SECS)
}

/// A row is a candidate for the owner `tid` in this call.
pub open spec fn cand(j: ScheduledJob, tid: Option<u64>, region: Seq<char>, now: i64) -> bool {
    j.tenant_id == tid && admissible(j, region, now)
}

/// 1 where `j` is a candidate for `tid`, else 0.
pub open spec fn cand_contrib(j: ScheduledJob, tid: Option<u64>, region: Seq<char>, now: i64) -> nat {
    if cand(j, tid, region, now) {
        1nat
    } else {
        0nat
    }
}

/// Number of candidate rows for `tid`.
pub open spec fn admissible_count(sched: Seq<ScheduledJob>, tid: Option<u64>, region: Seq<char>, now: i64) -> nat
    decreases sched.len(),
{
    if sched.len() == 0 {
        0
    } else {
        admissible_count(sched.drop_last(), tid, region, now) + cand_contrib(
            sched.last(),
            tid,
            region,
            now,
        )
    }
}

/// Number of rows of owner `tid` that differ between two same-length tables.
pub open spec fn count_diff(a: Seq<ScheduledJob>, b: Seq<ScheduledJob>, tid: Option<u64>) -> nat
    decreases a.len(),
{
    if a.len() == 0 || a.len() != b.len() {
        0
    } else {
        count_diff(a.drop_last(), b.drop_last(), tid) + if a.last().tenant_id == tid && b.last()
            != a.last() {
            1nat
        } else {
            0nat
        }
    }
}

/// A table differs from itself nowhere.
pub proof fn lemma_count_diff_refl(a: Seq<ScheduledJob>, tid: Option<u64>)
    ensures
        count_diff(a, a, tid) == 0,
    decreases a.len(),
{
    if a.len() > 0 {
        lemma_count_diff_refl(a.drop_last(), tid);
    }
}

/// Changing one yet-unchanged row adds one difference for its owner and
/// none for any other owner.
pub proof fn lemma_count_diff_update(a: Seq<ScheduledJob>, b: Seq<ScheduledJob>, i: int, r: ScheduledJob, tid: Option<u64>)
    requires
        a.len() == b.len(),
        0 <= i < a.len(),
        b[i] == a[i],
    ensures
        count_diff(a, b.update(i, r), tid) == count_diff(a, b, tid) + if a[i].tenant_id == tid && r
            != a[i] {
            1nat
        } else {
            0nat
        },
    decreases a.len(),
{
    let bu = b.update(i, r);
    if i == a.len() - 1 {
        assert(bu.drop_last() =~= b.drop_last());
        assert(bu.last() == r);
        assert(b.last() == a.last());
    } else {
        assert(bu.drop_last() =~= b.drop_last().update(i, r));
        assert(bu.last() == b.last());
        lemma_count_diff_update(a.drop_last(), b.drop_last(), i, r, tid);
    }
}

/// Replacing one row shifts the candidate count by the contributions'
/// difference.
pub proof fn lemma_admissible_count_update(sched: Seq<ScheduledJob>, i: int, r: ScheduledJob, tid: Option<u64>, region: Seq<char>, now: i64)
    requires
        0 <= i < sched.len(),
    ensures
        admissible_count(sched.update(i, r), tid, region, now) + cand_contrib(
            sched[i],
            tid,
            region,
            now,
        ) == admissible_count(sched, tid, region, now) + cand_contrib(r, tid, region, now),
    decreases sched.len(),
{
    let su = sched.update(i, r);
    if i == sched.len() - 1 {
        assert(su.drop_last() =~= sched.drop_last());
        assert(su.last() == r);
    } else {
        assert(su.drop_last() =~= sched.drop_last().update(i, r));
        assert(su.last() == sched.last());
        lemma_admissible_count_update(sched.drop_last(), i, r, tid, region, now);
    }
}

/// With no candidate row, the candidate count is zero.
pub proof fn lemma_admissible_count_zero(sched: Seq<ScheduledJob>, tid: Option<u64>, region: Seq<char>, now: i64)
    requires
        forall|i: int| 0 <= i < sched.len() ==> !cand(#[trigger] sched[i], tid, region, now),
    ensures
        admissible_count(sched, tid, region, now) == 0,
    decreases sched.len(),
{
    if sched.len() > 0 {
        assert(sched.last() == sched[sched.len() - 1]);
        lemma_admissible_count_zero(sched.drop_last(), tid, region, now);
    }
}

/// A lease granted by one dispatch call.
pub struct LeasedJob {
    pub job_id: u64,
    pub lock_nonce: i64,
    pub scheduled_at: i64,
    pub tenant_id: Option<u64>,
    pub request_id: u64,
}

/// A scheduled row after its lease is taken at `now`.
pub open spec fn leased_row(j: ScheduledJob, now: i64) -> ScheduledJob {
    ScheduledJob {
        lock_nonce: Some(now),
        times_locked: if j.times_locked < u32::MAX {
            (j.times_locked + 1) as u32
        } else {
            j.times_locked
        },
        ..j
    }
}

/// Grant order: `(scheduled_at, job_id)`, the order dispatch hands rows out
/// in within one owner.
pub open spec fn grant_le(a: LeasedJob, b: LeasedJob) -> bool {
    a.scheduled_at < b.scheduled_at || (a.scheduled_at == b.scheduled_at && a.job_id <= b.job_id)
}

/// A granted lease precedes-or-equals a row in `(scheduled_at, id)` order.
pub open spec fn grant_le_job(g: LeasedJob, j: ScheduledJob) -> bool {
    g.scheduled_at < j.scheduled_at || (g.scheduled_at == j.scheduled_at && g.job_id <= j.id)
}

/// Strict dispatch order between two rows: `(scheduled_at, id)`.
pub open spec fn row_lt(a: ScheduledJob, b: ScheduledJob) -> bool {
    a.scheduled_at < b.scheduled_at || (a.scheduled_at == b.scheduled_at && a.id < b.id)
}

/// Effective response-size cap of a dispatched job: its own, else its
/// tenant's, else none.
pub open spec fn effective_response_bytes_spec(job: Option<i64>, tenant: Option<i64>) -> Option<i64> {
    match job {
        Some(x) => Some(x),
        None => tenant,
    }
}

/// Effective response-size cap of a dispatched job.
pub fn effective_response_bytes(job: Option<i64>, tenant: Option<i64>) -> (r: Option<i64>)
    ensures
        r == effective_response_bytes_spec(job, tenant),
{
    match job {
        Some(x) => Some(x),
        None => tenant,
    }
}

/// The headers a dispatched request goes out with: the caller's headers with
/// every reserved `Rocktick-` header dropped (so none can be forged), then
/// `Rocktick-Job-Id`, then `Rocktick-Signature` when the request is signed.
pub fn outgoing_headers(headers: &Vec<(String, String)>, job_id: String, signature: Option<String>) -> (r: Vec<(String, String)>)
    ensures
        ({
            let base = crate::recorder::filter_headers(headers@);
            &&& r@.len() == base.len() + 1 + (match signature {
                Some(_) => 1int,
                None => 0int,
            })
            &&& r@.subrange(0, base.len() as int) == base
            &&& r@[base.len() as int].0@ == "Rocktick-Job-Id"@
            &&& r@[base.len() as int].1 == job_id
            &&& (signature matches Some(sig) ==> r@.last().0@ == "Rocktick-Signature"@
                && r@.last().1 == sig)
        }),
{
    proof {
        reveal_strlit("Rocktick-Job-Id");
        reveal_strlit("Rocktick-Signature");
    }
    let mut out = crate::recorder::filter_rocktick_headers(headers);
    let ghost base = out@;
    out.push((String::from_str("Rocktick-Job-Id"), job_id));
    match signature {
        Some(sig) => {
            out.push((String::from_str("Rocktick-Signature"), sig));
        },
        None => {},
    }
    proof {
        assert(out@.subrange(0, base.len() as int) =~= base);
    }
    out
}

/// The budget a dispatch call grants an owner: its token budget (or the
/// anonymous cap), but never more than its candidate count.
pub open spec fn granted_count(s: Store, tid: Option<u64>, budget: int, region: Seq<char>, now: i64) -> int {
    let avail = admissible_count(s.scheduled@, tid, region, now) as int;
    if budget <= 0 {
        0
    } else if avail < budget {
        avail
    } else {
        budget
    }
}

/// Differences compose when no row is ever changed twice and changes keep
/// the owner.
pub proof fn lemma_count_diff_compose(a: Seq<ScheduledJob>, b: Seq<ScheduledJob>, c: Seq<ScheduledJob>, o: Option<u64>)
    requires
        a.len() == b.len() == c.len(),
        forall|i: int| 0 <= i < a.len() && #[trigger] b[i] != a[i] ==> c[i] == b[i],
        forall|i: int| 0 <= i < a.len() ==> (#[trigger] b[i]).tenant_id == a[i].tenant_id,
    ensures
        count_diff(a, c, o) == count_diff(a, b, o) + count_diff(b, c, o),
    decreases a.len(),
{
    if a.len() > 0 {
        assert(a.last() == a[a.len() - 1]);
        assert(b.last() == b[a.len() - 1]);
        assert(c.last() == c[a.len() - 1]);
        lemma_count_diff_compose(a.drop_last(), b.drop_last(), c.drop_last(), o);
    }
}

/// A step that only changes rows of owner `tid` leaves every other owner's
/// difference count at zero.
pub proof fn lemma_count_diff_zero_other(a: Seq<ScheduledJob>, b: Seq<ScheduledJob>, tid: Option<u64>, o: Option<u64>)
    requires
        a.len() == b.len(),
        forall|i: int| 0 <= i < a.len() ==> #[trigger] b[i] == a[i] || a[i].tenant_id == tid,
        o != tid,
    ensures
        count_diff(a, b, o) == 0,
    decreases a.len(),
{
    if a.len() > 0 {
        assert(a.last() == a[a.len() - 1]);
        assert(b.last() == b[a.len() - 1]);
        lemma_count_diff_zero_other(a.drop_last(), b.drop_last(), tid, o);
    }
}

/// A step that only changes rows of owner `tid` keeps every other owner's
/// candidate count, when the changes keep the owner.
pub proof fn lemma_admissible_count_stable(a: Seq<ScheduledJob>, b: Seq<ScheduledJob>, tid: Option<u64>, o: Option<u64>, region: Seq<char>, now: i64)
    requires
        a.len() == b.len(),
        forall|i: int| 0 <= i < a.len() ==> #[trigger] b[i] == a[i] || (a[i].tenant_id == tid
            && b[i].tenant_id == tid),
        o != tid,
    ensures
        admissible_count(b, o, region, now) == admissible_count(a, o, region, now),
    decreases a.len(),
{
    if a.len() > 0 {
        assert(a.last() == a[a.len() - 1]);
        assert(b.last() == b[a.len() - 1]);
        lemma_admissible_count_stable(a.drop_last(), b.drop_last(), tid, o, region, now);
    }
}

/// The index of the least admissible queued row owned by `tid`, in
/// `(scheduled_at, id)` order.
fn find_candidate(store: &Store, tid: Option<u64>, region: &String, now: i64) -> (r: Option<usize>)
    requires
        0 <= now <= MAX_TS,
    ensures
        match r {
            Some(i) => i < store.scheduled@.len() && cand(
                store.scheduled@[i as int],
                tid,
                region@,
                now,
            ) && forall|k: int| 0 <= k < store.scheduled@.len() && cand(
                #[trigger] store.scheduled@[k],
                tid,
                region@,
                now,
            ) ==> (store.scheduled@[i as int].scheduled_at < store.scheduled@[k].scheduled_at || (
            store.scheduled@[i as int].scheduled_at == store.scheduled@[k].scheduled_at
                && store.scheduled@[i as int].id <= store.scheduled@[k].id)),
            None => forall|k: int| 0 <= k < store.scheduled@.len() ==> !cand(
                #[trigger] store.scheduled@[k],
                tid,
                region@,
                now,
            ),
        },
{
    let mut best: Option<usize> = None;
    let mut k: usize = 0;
    while k < store.scheduled.len()
        invariant
            0 <= now <= MAX_TS,
            k <= store.scheduled@.len(),
            match best {
                Some(b) => b < k && cand(store.scheduled@[b as int], tid, region@, now)
                    && forall|i: int| 0 <= i < k && cand(
                    #[trigger] store.scheduled@[i],
                    tid,
                    region@,
                    now,
                ) ==> (store.scheduled@[b as int].scheduled_at < store.scheduled@[i].scheduled_at
                    || (store.scheduled@[b as int].scheduled_at
                    == store.scheduled@[i].scheduled_at && store.scheduled@[b as int].id
                    <= store.scheduled@[i].id)),
                None => forall|i: int| 0 <= i < k ==> !cand(
                    #[trigger] store.scheduled@[i],
                    tid,
                    region@,
                    now,
                ),
            },
        decreases store.scheduled@.len() - k,
    {
        let j = &store.scheduled[k];
        let owner_match = match (j.tenant_id, tid) {
            (Some(a), Some(b)) => a == b,
            (None, None) => true,
            _ => false,
        };
        let queued = j.lock_nonce.is_none() && j.execution_id.is_none();
        let due_here = j.region == *region && j.scheduled_at <= now + REGION_EARLY_SECS;
        let overdue = j.scheduled_at <= now - SPILLOVER_SECS;
        let is_cand = owner_match && queued && (due_here || overdue);
        assert(is_cand == cand(store.scheduled@[k as int], tid, region@, now));
        if is_cand {
            let replace = match best {
                None => true,
                Some(b) => store.scheduled[k].scheduled_at < store.scheduled[b].scheduled_at || (
                store.scheduled[k].scheduled_at == store.scheduled[b].scheduled_at
                    && store.scheduled[k].id < store.scheduled[b].id),
            };
            if replace {
                best = Some(k);
            }
        }
        k = k + 1;
    }
    best
}

/// Leases up to `budget` candidate rows of one owner, least first, appending
/// one grant per leased row.
fn lease_for_owner(store: &mut Store, tid: Option<u64>, budget: usize, region: &String, now: i64, out: &mut Vec<LeasedJob>) -> (n: usize)
    requires
        old(store).wf(),
        0 <= now <= MAX_TS,
    ensures
        final(store).wf(),
        final(store).scheduled@.len() == old(store).scheduled@.len(),
        // Rows are untouched, or were candidates and are now leased.
        forall|i: int| 0 <= i < old(store).scheduled@.len() ==> #[trigger] final(store).scheduled@[i]
            == old(store).scheduled@[i] || (cand(old(store).scheduled@[i], tid, region@, now)
            && final(store).scheduled@[i] == leased_row(old(store).scheduled@[i], now)),
        // Exactly min(budget, candidates) rows were leased.
        n <= budget,
        n == count_diff(old(store).scheduled@, final(store).scheduled@, tid),
        n == granted_count(*old(store), tid, budget as int, region@, now),
        // One grant per leased row, in `(scheduled_at, id)` order.
        final(out)@.len() == old(out)@.len() + n,
        forall|x: int| 0 <= x < old(out)@.len() ==> #[trigger] final(out)@[x] == old(out)@[x],
        forall|x: int| old(out)@.len() <= x < final(out)@.len() ==> (#[trigger] final(out)@[x]).tenant_id == tid
            && final(out)@[x].lock_nonce == now,
        forall|x: int| old(out)@.len() <= x < final(out)@.len() ==> exists|i: int|
            0 <= i < old(store).scheduled@.len() && cand(
                #[trigger] old(store).scheduled@[i],
                tid,
                region@,
                now,
            ) && (#[trigger] final(out)@[x]).job_id == old(store).scheduled@[i].id && final(out)@[x].scheduled_at
                == old(store).scheduled@[i].scheduled_at && final(out)@[x].request_id
                == old(store).scheduled@[i].request_id && final(store).scheduled@[i] == leased_row(
                old(store).scheduled@[i],
                now,
            ),
        forall|x: int, y: int| old(out)@.len() <= x < y < final(out)@.len() ==> grant_le(
            #[trigger] final(out)@[x],
            #[trigger] final(out)@[y],
        ),
        // Least first: a row this call leased precedes every candidate it
        // left queued.
        forall|i: int, j: int| 0 <= i < old(store).scheduled@.len() && 0 <= j < old(
            store,
        ).scheduled@.len() && #[trigger] final(store).scheduled@[i] != old(store).scheduled@[i]
            && #[trigger] final(store).scheduled@[j] == old(store).scheduled@[j] && cand(
            old(store).scheduled@[j],
            tid,
            region@,
            now,
        ) ==> row_lt(old(store).scheduled@[i], old(store).scheduled@[j]),
        // Every leased row is named by exactly one of this call's grants.
        forall|i: int| 0 <= i < old(store).scheduled@.len() && #[trigger] final(store).scheduled@[i]
            != old(store).scheduled@[i] ==> exists|x: int|
            old(out)@.len() <= x < final(out)@.len() && (#[trigger] final(out)@[x]).job_id == old(
                store,
            ).scheduled@[i].id,
        forall|x: int, y: int| old(out)@.len() <= x < y < final(out)@.len() ==> (
        #[trigger] final(out)@[x]).job_id != (#[trigger] final(out)@[y]).job_id,
        final(store).tenants == old(store).tenants,
        final(store).one_offs == old(store).one_offs,
        final(store).cron_jobs == old(store).cron_jobs,
        final(store).requests == old(store).requests,
        final(store).responses == old(store).responses,
        final(store).executions == old(store).executions,
        final(store).workflows == old(store).workflows,
        final(store).workflow_executions == old(store).workflow_executions,
        final(store).workflow_dependencies == old(store).workflow_dependencies,
        final(store).next_id == old(store).next_id,
{
    let ghost s0 = *old(store);
    let ghost out0 = out@;
    proof {
        lemma_count_diff_refl(s0.scheduled@, tid);
    }
    let mut n: usize = 0;
    loop
        invariant
            s0.wf(),
            0 <= now <= MAX_TS,
            store.scheduled@.len() == s0.scheduled@.len(),
            forall|i: int| 0 <= i < s0.scheduled@.len() ==> #[trigger] store.scheduled@[i]
                == s0.scheduled@[i] || (cand(s0.scheduled@[i], tid, region@, now)
                && store.scheduled@[i] == leased_row(s0.scheduled@[i], now)),
            n <= budget,
            n == count_diff(s0.scheduled@, store.scheduled@, tid),
            admissible_count(store.scheduled@, tid, region@, now) + n == admissible_count(
                s0.scheduled@,
                tid,
                region@,
                now,
            ),
            out@.len() == out0.len() + n,
            forall|x: int| 0 <= x < out0.len() ==> #[trigger] out@[x] == out0[x],
            forall|x: int| out0.len() <= x < out@.len() ==> (#[trigger] out@[x]).tenant_id == tid
                && out@[x].lock_nonce == now,
            forall|x: int| out0.len() <= x < out@.len() ==> exists|i: int|
                0 <= i < s0.scheduled@.len() && cand(
                    #[trigger] s0.scheduled@[i],
                    tid,
                    region@,
                    now,
                ) && (#[trigger] out@[x]).job_id == s0.scheduled@[i].id && out@[x].scheduled_at
                    == s0.scheduled@[i].scheduled_at && out@[x].request_id
                    == s0.scheduled@[i].request_id && store.scheduled@[i] == leased_row(
                    s0.scheduled@[i],
                    now,
                ),
            forall|x: int, y: int| out0.len() <= x < y < out@.len() ==> grant_le(
                #[trigger] out@[x],
                #[trigger] out@[y],
            ),
            forall|x: int| out0.len() <= x < out@.len() ==> forall|i: int|
                0 <= i < store.scheduled@.len() && cand(
                    #[trigger] store.scheduled@[i],
                    tid,
                    region@,
                    now,
                ) ==> grant_le_job(#[trigger] out@[x], store.scheduled@[i]),
            forall|i: int, j: int| 0 <= i < s0.scheduled@.len() && 0 <= j < s0.scheduled@.len()
                && #[trigger] store.scheduled@[i] != s0.scheduled@[i]
                && #[trigger] store.scheduled@[j] == s0.scheduled@[j] && cand(
                s0.scheduled@[j],
                tid,
                region@,
                now,
            ) ==> row_lt(s0.scheduled@[i], s0.scheduled@[j]),
            forall|i: int| 0 <= i < s0.scheduled@.len() && #[trigger] store.scheduled@[i]
                != s0.scheduled@[i] ==> exists|x: int|
                out0.len() <= x < out@.len() && (#[trigger] out@[x]).job_id == s0.scheduled@[i].id,
            forall|x: int, y: int| out0.len() <= x < y < out@.len() ==> (
            #[trigger] out@[x]).job_id != (#[trigger] out@[y]).job_id,
            store.tenants == s0.tenants,
            store.one_offs == s0.one_offs,
            store.cron_jobs == s0.cron_jobs,
            store.requests == s0.requests,
            store.responses == s0.responses,
            store.executions == s0.executions,
            store.workflows == s0.workflows,
            store.workflow_executions == s0.workflow_executions,
            store.workflow_dependencies == s0.workflow_dependencies,
            store.next_id == s0.next_id,
        ensures
            n <= budget,
            n == budget || admissible_count(store.scheduled@, tid, region@, now) == 0,
        decreases budget - n,
    {
        if n >= budget {
            break;
        }
        match find_candidate(store, tid, region, now) {
            None => {
                proof {
                    lemma_admissible_count_zero(store.scheduled@, tid, region@, now);
                }
                break;
            },
            Some(i) => {
                let ghost pre = store.scheduled@;
                // A candidate is queued, so this row is still as it started.
                assert(pre[i as int] == s0.scheduled@[i as int]);
                let g = LeasedJob {
                    job_id: store.scheduled[i].id,
                    lock_nonce: now,
                    scheduled_at: store.scheduled[i].scheduled_at,
                    tenant_id: store.scheduled[i].tenant_id,
                    request_id: store.scheduled[i].request_id,
                };
                let mut row = store.scheduled.remove(i);
                row.lock_nonce = Some(now);
                if row.times_locked < u32::MAX {
                    row.times_locked = row.times_locked + 1;
                }
                assert(row == leased_row(pre[i as int], now));
                store.scheduled.insert(i, row);
                assert(store.scheduled@ =~= pre.update(i as int, row));
                proof {
                    assert(row != pre[i as int]);
                    lemma_count_diff_update(s0.scheduled@, pre, i as int, row, tid);
                    lemma_admissible_count_update(pre, i as int, row, tid, region@, now);
                    assert(cand_contrib(pre[i as int], tid, region@, now) == 1);
                    assert(cand_contrib(row, tid, region@, now) == 0);
                }
                let ghost old_out = out@;
                out.push(g);
                proof {
                    // The new grant is least among what was available, so it
                    // follows every earlier grant and precedes what remains.
                    assert forall|x: int, y: int|
                        out0.len() <= x < y < out@.len() implies grant_le(
                        #[trigger] out@[x],
                        #[trigger] out@[y],
                    ) by {
                        if y == out@.len() - 1 {
                            assert(out@[x] == old_out[x]);
                            assert(grant_le_job(old_out[x], pre[i as int]));
                        } else {
                            assert(out@[x] == old_out[x] && out@[y] == old_out[y]);
                        }
                    }
                    assert forall|x: int|
                        out0.len() <= x < out@.len() implies forall|k: int|
                        0 <= k < store.scheduled@.len() && cand(
                            #[trigger] store.scheduled@[k],
                            tid,
                            region@,
                            now,
                        ) ==> grant_le_job(#[trigger] out@[x], store.scheduled@[k]) by {
                        assert forall|k: int|
                            0 <= k < store.scheduled@.len() && cand(
                                #[trigger] store.scheduled@[k],
                                tid,
                                region@,
                                now,
                            ) implies grant_le_job(out@[x], store.scheduled@[k]) by {
                            assert(store.scheduled@[k] == pre[k]);
                            if x < out@.len() - 1 {
                                assert(out@[x] == old_out[x]);
                            }
                        }
                    }
                    assert forall|x: int|
                        out0.len() <= x < out@.len() implies exists|w: int|
                        0 <= w < s0.scheduled@.len() && cand(
                            #[trigger] s0.scheduled@[w],
                            tid,
                            region@,
                            now,
                        ) && (#[trigger] out@[x]).job_id == s0.scheduled@[w].id
                            && out@[x].scheduled_at == s0.scheduled@[w].scheduled_at
                            && out@[x].request_id == s0.scheduled@[w].request_id
                            && store.scheduled@[w] == leased_row(s0.scheduled@[w], now) by {
                        if x == out@.len() - 1 {
                            assert(0 <= (i as int) < s0.scheduled@.len() && cand(
                                s0.scheduled@[i as int],
                                tid,
                                region@,
                                now,
                            ) && out@[x].job_id == s0.scheduled@[i as int].id
                                && out@[x].scheduled_at == s0.scheduled@[i as int].scheduled_at
                                && out@[x].request_id == s0.scheduled@[i as int].request_id
                                && store.scheduled@[i as int] == leased_row(
                                s0.scheduled@[i as int],
                                now,
                            ));
                        } else {
                            assert(out@[x] == old_out[x]);
                            let w = choose|w: int|
                                0 <= w < s0.scheduled@.len() && cand(
                                    #[trigger] s0.scheduled@[w],
                                    tid,
                                    region@,
                                    now,
                                ) && old_out[x].job_id == s0.scheduled@[w].id
                                    && old_out[x].scheduled_at == s0.scheduled@[w].scheduled_at
                                    && old_out[x].request_id == s0.scheduled@[w].request_id
                                    && pre[w] == leased_row(s0.scheduled@[w], now);
                            assert(w != i as int);
                            assert(store.scheduled@[w] == pre[w]);
                        }
                    }
                }
                proof {
                    // The picked row was the least remaining candidate, so
                    // least-first selection is preserved.
                    assert forall|a: int, b: int|
                        0 <= a < s0.scheduled@.len() && 0 <= b < s0.scheduled@.len()
                            && #[trigger] store.scheduled@[a] != s0.scheduled@[a]
                            && #[trigger] store.scheduled@[b] == s0.scheduled@[b] && cand(
                            s0.scheduled@[b],
                            tid,
                            region@,
                            now,
                        ) implies row_lt(s0.scheduled@[a], s0.scheduled@[b]) by {
                        if a == i as int {
                            // b was a candidate when i was picked, and i was
                            // least; distinct ids make the order strict.
                            assert(pre[b] == s0.scheduled@[b]);
                            assert(cand(pre[b], tid, region@, now));
                            let f = |j: ScheduledJob| j.id;
                            assert(f(s0.scheduled@[a]) != f(s0.scheduled@[b]));
                        } else {
                            assert(pre[a] != s0.scheduled@[a]);
                            assert(pre[b] == s0.scheduled@[b]);
                        }
                    }
                    // The new grant names the newly leased row; earlier
                    // grants name rows leased earlier, so names stay
                    // pairwise distinct and every leased row is named.
                    assert forall|a: int|
                        0 <= a < s0.scheduled@.len() && #[trigger] store.scheduled@[a]
                            != s0.scheduled@[a] implies exists|x: int|
                        out0.len() <= x < out@.len() && (#[trigger] out@[x]).job_id
                            == s0.scheduled@[a].id by {
                        if a == i as int {
                            assert(out@[out@.len() - 1].job_id == s0.scheduled@[i as int].id);
                        } else {
                            assert(pre[a] != s0.scheduled@[a]);
                            let x = choose|x: int|
                                out0.len() <= x < old_out.len() && (#[trigger] old_out[x]).job_id
                                    == s0.scheduled@[a].id;
                            assert(out@[x].job_id == s0.scheduled@[a].id);
                        }
                    }
                    assert forall|x: int, y: int|
                        out0.len() <= x < y < out@.len() implies (#[trigger] out@[x]).job_id != (
                        #[trigger] out@[y]).job_id by {
                        if y == out@.len() - 1 {
                            // The earlier grant's row was already leased,
                            // the new one's was not: different rows,
                            // distinct ids.
                            assert(out@[x] == old_out[x]);
                            let w = choose|w: int|
                                0 <= w < s0.scheduled@.len() && cand(
                                    #[trigger] s0.scheduled@[w],
                                    tid,
                                    region@,
                                    now,
                                ) && old_out[x].job_id == s0.scheduled@[w].id
                                    && old_out[x].scheduled_at == s0.scheduled@[w].scheduled_at
                                    && old_out[x].request_id == s0.scheduled@[w].request_id
                                    && pre[w] == leased_row(s0.scheduled@[w], now);
                            assert(!sj_queued(pre[w]));
                            assert(w != i as int);
                            let f = |j: ScheduledJob| j.id;
                            assert(f(s0.scheduled@[w]) != f(s0.scheduled@[i as int]));
                        } else {
                            assert(out@[x] == old_out[x] && out@[y] == old_out[y]);
                        }
                    }
                }
                n = n + 1;
            },
        }
    }
    proof {
        // Exactly min(budget, candidates) rows were leased.
        if n == budget {
            assert(granted_count(s0, tid, budget as int, region@, now) == n);
        } else {
            assert(admissible_count(s0.scheduled@, tid, region@, now) == n);
        }
        // The invariant is preserved: leased rows keep their id and satisfy
        // the row invariant.
        let f = |j: ScheduledJob| j.id;
        assert forall|i: int| 0 <= i < store.scheduled@.len() implies #[trigger] f(
            store.scheduled@[i],
        ) == f(s0.scheduled@[i]) by {
            assert(f(s0.scheduled@[i]) == s0.scheduled@[i].id);
        }
        assert(crate::store::distinct_ids(store.scheduled@, f));
        assert(crate::store::ids_below(store.scheduled@, f, store.next_id));
        assert forall|i: int| 0 <= i < store.scheduled@.len() implies sj_ok(
            #[trigger] store.scheduled@[i],
        ) by {
            assert(sj_ok(s0.scheduled@[i]));
        }
    }
    n
}

/// One dispatch call from `region` at `now`.
///
/// Atomically: selects each tenant's admissible queued rows (least
/// `(scheduled_at, id)` first, up to its token budget), up to the anonymous
/// cap of untenanted rows, leases them all with `lock_nonce = now`, and
/// debits every tenant by the number of rows it was granted. Grants to one
/// owner come out in dispatch order, so dispatch is monotone per tenant.
#[verifier::rlimit(100)]
#[verifier::spinoff_prover]
pub fn get_jobs(store: &mut Store, region: &String, now: i64) -> (r: Vec<LeasedJob>)
    requires
        old(store).wf(),
        0 <= now <= MAX_TS,
    ensures
        final(store).wf(),
        final(store).scheduled@.len() == old(store).scheduled@.len(),
        // Rows are untouched, or were admissible and are now leased.
        forall|i: int| 0 <= i < old(store).scheduled@.len() ==> #[trigger] final(store).scheduled@[i]
            == old(store).scheduled@[i] || (admissible(old(store).scheduled@[i], region@, now)
            && final(store).scheduled@[i] == leased_row(old(store).scheduled@[i], now)),
        // Every tenant is granted exactly min(tokens, candidates) leases and
        // pays one token per grant.
        final(store).tenants@.len() == old(store).tenants@.len(),
        forall|k: int| 0 <= k < old(store).tenants@.len() ==> {
            let t0 = #[trigger] old(store).tenants@[k];
            let g = granted_count(*old(store), Some(t0.id), t0.tokens as int, region@, now);
            count_diff(old(store).scheduled@, final(store).scheduled@, Some(t0.id)) == g
                && final(store).tenants@[k] == Tenant { tokens: (t0.tokens - g) as i32, ..t0 }
        },
        // Untenanted rows are leased up to the anonymous cap.
        count_diff(old(store).scheduled@, final(store).scheduled@, None) == granted_count(
            *old(store),
            None,
            ANONYMOUS_DISPATCH_CAP as int,
            region@,
            now,
        ),
        // Dispatch is monotone: grants of one owner come out in
        // `(scheduled_at, id)` order.
        forall|x: int, y: int| 0 <= x < y < r@.len() && (#[trigger] r@[x]).tenant_id == (
        #[trigger] r@[y]).tenant_id ==> grant_le(r@[x], r@[y]),
        // Every grant names a row that was admissible and is now leased.
        forall|x: int| 0 <= x < r@.len() ==> (#[trigger] r@[x]).lock_nonce == now && exists|i: int|
            0 <= i < old(store).scheduled@.len() && cand(
                #[trigger] old(store).scheduled@[i],
                r@[x].tenant_id,
                region@,
                now,
            ) && r@[x].job_id == old(store).scheduled@[i].id && r@[x].scheduled_at == old(
                store,
            ).scheduled@[i].scheduled_at && r@[x].request_id == old(store).scheduled@[i].request_id
                && final(store).scheduled@[i] == leased_row(old(store).scheduled@[i], now),
        // Least first: a leased row precedes, in `(scheduled_at, id)` order,
        // every admissible row of the same owner left queued.
        forall|i: int, j: int| 0 <= i < old(store).scheduled@.len() && 0 <= j < old(
            store,
        ).scheduled@.len() && #[trigger] final(store).scheduled@[i] != old(store).scheduled@[i]
            && #[trigger] final(store).scheduled@[j] == old(store).scheduled@[j]
            && old(store).scheduled@[i].tenant_id == old(store).scheduled@[j].tenant_id
            && admissible(old(store).scheduled@[j], region@, now) ==> row_lt(
            old(store).scheduled@[i],
            old(store).scheduled@[j],
        ),
        // One grant per leased row: names are pairwise distinct and every
        // leased row is named.
        forall|x: int, y: int| 0 <= x < y < r@.len() ==> (#[trigger] r@[x]).job_id != (
        #[trigger] r@[y]).job_id,
        forall|i: int| 0 <= i < old(store).scheduled@.len() && #[trigger] final(store).scheduled@[i]
            != old(store).scheduled@[i] ==> exists|x: int|
            0 <= x < r@.len() && (#[trigger] r@[x]).job_id == old(store).scheduled@[i].id,
        final(store).one_offs == old(store).one_offs,
        final(store).cron_jobs == old(store).cron_jobs,
        final(store).requests == old(store).requests,
        final(store).responses == old(store).responses,
        final(store).executions == old(store).executions,
        final(store).workflows == old(store).workflows,
        final(store).workflow_executions == old(store).workflow_executions,
        final(store).workflow_dependencies == old(store).workflow_dependencies,
        final(store).next_id == old(store).next_id,
{
    let ghost s0 = *old(store);
    proof {
        assert forall|k: int| 0 <= k < s0.tenants@.len() implies count_diff(
            s0.scheduled@,
            s0.scheduled@,
            Some((#[trigger] s0.tenants@[k]).id),
        ) == 0 by {
            lemma_count_diff_refl(s0.scheduled@, Some(s0.tenants@[k].id));
        }
        lemma_count_diff_refl(s0.scheduled@, None);
    }
    let mut out: Vec<LeasedJob> = Vec::new();
    let mut ti: usize = 0;
    let nt = store.tenants.len();
    while ti < nt
        invariant
            s0.wf(),
            0 <= now <= MAX_TS,
            nt == s0.tenants@.len(),
            ti <= nt,
            store.scheduled@.len() == s0.scheduled@.len(),
            store.tenants@.len() == s0.tenants@.len(),
            // Global shape so far.
            forall|i: int| 0 <= i < s0.scheduled@.len() ==> #[trigger] store.scheduled@[i]
                == s0.scheduled@[i] || (admissible(s0.scheduled@[i], region@, now)
                && store.scheduled@[i] == leased_row(s0.scheduled@[i], now)
                && s0.scheduled@[i].tenant_id is Some),
            // Processed tenants are granted and debited; the rest untouched.
            forall|k: int| 0 <= k < ti ==> {
                let t0 = #[trigger] s0.tenants@[k];
                let g = granted_count(s0, Some(t0.id), t0.tokens as int, region@, now);
                count_diff(s0.scheduled@, store.scheduled@, Some(t0.id)) == g
                    && store.tenants@[k] == Tenant { tokens: (t0.tokens - g) as i32, ..t0 }
            },
            forall|k: int| ti <= k < nt ==> #[trigger] store.tenants@[k] == s0.tenants@[k],
            forall|k: int| ti <= k < nt ==> count_diff(
                s0.scheduled@,
                store.scheduled@,
                Some((#[trigger] s0.tenants@[k]).id),
            ) == 0 && admissible_count(
                store.scheduled@,
                Some(s0.tenants@[k].id),
                region@,
                now,
            ) == admissible_count(s0.scheduled@, Some(s0.tenants@[k].id), region@, now),
            count_diff(s0.scheduled@, store.scheduled@, None) == 0,
            admissible_count(store.scheduled@, None, region@, now) == admissible_count(
                s0.scheduled@,
                None,
                region@,
                now,
            ),
            // Grants so far: monotone per owner, all owned by processed
            // tenants, all linked to their rows.
            forall|x: int, y: int| 0 <= x < y < out@.len() && (#[trigger] out@[x]).tenant_id == (
            #[trigger] out@[y]).tenant_id ==> grant_le(out@[x], out@[y]),
            forall|x: int| 0 <= x < out@.len() ==> (#[trigger] out@[x]).tenant_id is Some
                && out@[x].lock_nonce == now,
            forall|x: int| 0 <= x < out@.len() ==> forall|k: int| ti <= k < nt ==> (
            #[trigger] out@[x]).tenant_id != Some((#[trigger] s0.tenants@[k]).id),
            forall|x: int| 0 <= x < out@.len() ==> exists|i: int|
                0 <= i < s0.scheduled@.len() && cand(
                    #[trigger] s0.scheduled@[i],
                    (#[trigger] out@[x]).tenant_id,
                    region@,
                    now,
                ) && out@[x].job_id == s0.scheduled@[i].id && out@[x].scheduled_at
                    == s0.scheduled@[i].scheduled_at && out@[x].request_id
                    == s0.scheduled@[i].request_id && store.scheduled@[i] == leased_row(
                    s0.scheduled@[i],
                    now,
                ),
            forall|i: int, j: int| 0 <= i < s0.scheduled@.len() && 0 <= j < s0.scheduled@.len()
                && #[trigger] store.scheduled@[i] != s0.scheduled@[i]
                && #[trigger] store.scheduled@[j] == s0.scheduled@[j]
                && s0.scheduled@[i].tenant_id == s0.scheduled@[j].tenant_id && admissible(
                s0.scheduled@[j],
                region@,
                now,
            ) ==> row_lt(s0.scheduled@[i], s0.scheduled@[j]),
            forall|x: int, y: int| 0 <= x < y < out@.len() ==> (#[trigger] out@[x]).job_id != (
            #[trigger] out@[y]).job_id,
            forall|i: int| 0 <= i < s0.scheduled@.len() && #[trigger] store.scheduled@[i]
                != s0.scheduled@[i] ==> exists|x: int|
                0 <= x < out@.len() && (#[trigger] out@[x]).job_id == s0.scheduled@[i].id,
            store.wf(),
            store.one_offs == s0.one_offs,
            store.cron_jobs == s0.cron_jobs,
            store.requests == s0.requests,
            store.responses == s0.responses,
            store.executions == s0.executions,
            store.workflows == s0.workflows,
            store.workflow_executions == s0.workflow_executions,
            store.workflow_dependencies == s0.workflow_dependencies,
            store.next_id == s0.next_id,
        decreases nt - ti,
    {
        let tokens = store.tenants[ti].tokens;
        let tid = store.tenants[ti].id;
        let ghost pre = *store;
        let ghost out_pre = out@;
        if tokens > 0 {
            let n = lease_for_owner(store, Some(tid), tokens as usize, region, now, &mut out);
            let mut t = store.tenants[ti];
            t.tokens = t.tokens - n as i32;
            store.tenants.set(ti, t);
            proof {
                let a = s0.scheduled@;
                let b = pre.scheduled@;
                let c = store.scheduled@;
                let o = Some(tid);
                // A row the block changed was still untouched, so changes
                // never stack and the global shape carries over.
                assert forall|i: int| 0 <= i < a.len() && #[trigger] b[i] != a[i] implies c[i]
                    == b[i] by {
                    assert(!sj_queued(b[i]));
                    assert(!cand(b[i], o, region@, now));
                }
                assert forall|i: int| 0 <= i < a.len() implies (#[trigger] b[i]).tenant_id
                    == a[i].tenant_id by {}
                assert forall|i: int| 0 <= i < a.len() implies #[trigger] c[i] == a[i] || (
                admissible(a[i], region@, now) && c[i] == leased_row(a[i], now)
                    && a[i].tenant_id is Some) by {
                    if c[i] != b[i] {
                        assert(cand(b[i], o, region@, now));
                        assert(b[i] == a[i]);
                    }
                }
                // Difference counts per owner.
                assert forall|k: int| 0 <= k < nt implies count_diff(
                    a,
                    c,
                    Some((#[trigger] s0.tenants@[k]).id),
                ) == count_diff(a, b, Some(s0.tenants@[k].id)) + count_diff(
                    b,
                    c,
                    Some(s0.tenants@[k].id),
                ) by {
                    lemma_count_diff_compose(a, b, c, Some(s0.tenants@[k].id));
                }
                lemma_count_diff_compose(a, b, c, None);
                assert forall|i: int| 0 <= i < b.len() implies #[trigger] c[i] == b[i] || (
                b[i].tenant_id == o && c[i].tenant_id == o) by {
                    if c[i] != b[i] {
                        assert(cand(b[i], o, region@, now));
                    }
                }
                assert forall|k: int| 0 <= k < nt && Some((#[trigger] s0.tenants@[k]).id)
                    != o implies count_diff(b, c, Some(s0.tenants@[k].id)) == 0
                    && admissible_count(c, Some(s0.tenants@[k].id), region@, now)
                    == admissible_count(b, Some(s0.tenants@[k].id), region@, now) by {
                    lemma_count_diff_zero_other(b, c, o, Some(s0.tenants@[k].id));
                    lemma_admissible_count_stable(b, c, o, Some(s0.tenants@[k].id), region@, now);
                }
                lemma_count_diff_zero_other(b, c, o, None);
                lemma_admissible_count_stable(b, c, o, None, region@, now);
                // Tenant ids are distinct, so other tenants' budgets and
                // rows are untouched.
                let f = |x: Tenant| x.id;
                assert forall|k: int| 0 <= k < nt && k != ti implies Some(
                    (#[trigger] s0.tenants@[k]).id,
                ) != o by {
                    assert(f(s0.tenants@[k]) != f(s0.tenants@[ti as int]));
                }
                assert(count_diff(a, c, o) == n);
                assert(granted_count(pre, o, tokens as int, region@, now) == granted_count(
                    s0,
                    o,
                    tokens as int,
                    region@,
                    now,
                ));
                assert(store.tenants@[ti as int] == Tenant {
                    tokens: (s0.tenants@[ti as int].tokens - granted_count(
                        s0,
                        o,
                        s0.tenants@[ti as int].tokens as int,
                        region@,
                        now,
                    )) as i32,
                    ..s0.tenants@[ti as int]
                });
                // Grants: the block's grants belong to this tenant, earlier
                // grants to earlier ones.
                assert forall|x: int| 0 <= x < out@.len() implies (#[trigger] out@[x]).tenant_id is Some
                    && out@[x].lock_nonce == now by {
                    if x < out_pre.len() {
                        assert(out@[x] == out_pre[x]);
                    }
                }
                assert forall|x: int, y: int|
                    0 <= x < y < out@.len() && (#[trigger] out@[x]).tenant_id == (
                #[trigger] out@[y]).tenant_id implies grant_le(out@[x], out@[y]) by {
                    if y < out_pre.len() {
                        assert(out@[x] == out_pre[x] && out@[y] == out_pre[y]);
                    } else if x >= out_pre.len() {
                    } else {
                        assert(out@[x] == out_pre[x]);
                        assert(out@[x].tenant_id != o);
                        assert(out@[y].tenant_id == o);
                        assert(false);
                    }
                }
                assert forall|x: int| 0 <= x < out@.len() implies exists|i: int|
                    0 <= i < a.len() && cand(
                        #[trigger] a[i],
                        (#[trigger] out@[x]).tenant_id,
                        region@,
                        now,
                    ) && out@[x].job_id == a[i].id && out@[x].scheduled_at == a[i].scheduled_at
                        && out@[x].request_id == a[i].request_id && c[i] == leased_row(
                        a[i],
                        now,
                    ) by {
                    if x < out_pre.len() {
                        assert(out@[x] == out_pre[x]);
                        let w = choose|w: int|
                            0 <= w < a.len() && cand(
                                #[trigger] a[w],
                                out_pre[x].tenant_id,
                                region@,
                                now,
                            ) && out_pre[x].job_id == a[w].id && out_pre[x].scheduled_at
                                == a[w].scheduled_at && out_pre[x].request_id == a[w].request_id
                                && b[w] == leased_row(a[w], now);
                        assert(!sj_queued(b[w]));
                        assert(c[w] == b[w]);
                    } else {
                        let w = choose|w: int|
                            0 <= w < b.len() && cand(#[trigger] b[w], o, region@, now)
                                && out@[x].job_id == b[w].id && out@[x].scheduled_at
                                == b[w].scheduled_at && out@[x].request_id == b[w].request_id
                                && c[w] == leased_row(b[w], now);
                        assert(b[w] == a[w]);
                    }
                }

                // Least-first selection carries across the block.
                assert forall|i2: int, j2: int|
                    0 <= i2 < a.len() && 0 <= j2 < a.len() && #[trigger] c[i2] != a[i2]
                        && #[trigger] c[j2] == a[j2] && a[i2].tenant_id == a[j2].tenant_id
                        && admissible(a[j2], region@, now) implies row_lt(a[i2], a[j2]) by {
                    assert(c[j2] == b[j2] && b[j2] == a[j2]);
                    if b[i2] != a[i2] {
                    } else {
                        assert(c[i2] != b[i2]);
                        assert(cand(b[i2], o, region@, now));
                        assert(a[i2].tenant_id == o);
                        assert(cand(b[j2], o, region@, now));
                    }
                }
                // Every leased row keeps a grant naming it.
                assert forall|i2: int|
                    0 <= i2 < a.len() && #[trigger] c[i2] != a[i2] implies exists|x: int|
                    0 <= x < out@.len() && (#[trigger] out@[x]).job_id == a[i2].id by {
                    if b[i2] != a[i2] {
                        let x = choose|x: int|
                            0 <= x < out_pre.len() && (#[trigger] out_pre[x]).job_id == a[i2].id;
                        assert(out@[x].job_id == a[i2].id);
                    } else {
                        assert(c[i2] != b[i2]);
                        let x = choose|x: int|
                            out_pre.len() <= x < out@.len() && (#[trigger] out@[x]).job_id
                                == b[i2].id;
                        assert(out@[x].job_id == a[i2].id);
                    }
                }
                // Grant names stay pairwise distinct across blocks.
                assert forall|x: int, y: int|
                    0 <= x < y < out@.len() implies (#[trigger] out@[x]).job_id != (
                #[trigger] out@[y]).job_id by {
                    if y < out_pre.len() {
                        assert(out@[x] == out_pre[x] && out@[y] == out_pre[y]);
                    } else if x >= out_pre.len() {
                    } else {
                        assert(out@[x] == out_pre[x]);
                        let w = choose|w: int|
                            0 <= w < a.len() && cand(
                                #[trigger] a[w],
                                out_pre[x].tenant_id,
                                region@,
                                now,
                            ) && out_pre[x].job_id == a[w].id && out_pre[x].scheduled_at
                                == a[w].scheduled_at && out_pre[x].request_id == a[w].request_id
                                && b[w] == leased_row(a[w], now);
                        let w2 = choose|w2: int|
                            0 <= w2 < b.len() && cand(#[trigger] b[w2], o, region@, now)
                                && out@[y].job_id == b[w2].id && out@[y].scheduled_at
                                == b[w2].scheduled_at && out@[y].request_id == b[w2].request_id
                                && c[w2] == leased_row(b[w2], now);
                        assert(!sj_queued(b[w]));
                        assert(sj_queued(b[w2]));
                        assert(w != w2);
                        assert(b[w2] == a[w2]);
                        let f = |j: ScheduledJob| j.id;
                        assert(f(a[w]) != f(a[w2]));
                    }
                }

                // The store invariant survives the debit.
                assert forall|k: int| 0 <= k < store.tenants@.len() implies #[trigger] f(
                    store.tenants@[k],
                ) == f(s0.tenants@[k]) by {
                    assert(f(s0.tenants@[k]) == s0.tenants@[k].id);
                }
                assert(crate::store::distinct_ids(store.tenants@, f));
                assert(crate::store::ids_below(store.tenants@, f, store.next_id));
                assert forall|k: int| 0 <= k < store.tenants@.len() implies tenant_ok(
                    #[trigger] store.tenants@[k],
                ) by {
                    assert(tenant_ok(s0.tenants@[k]));
                }
            }
        } else {
            proof {
                lemma_count_diff_refl(store.scheduled@, Some(tid));
                assert(granted_count(s0, Some(tid), tokens as int, region@, now) == 0);
                assert(store.tenants@[ti as int] == Tenant {
                    tokens: (tokens - 0) as i32,
                    ..s0.tenants@[ti as int]
                });
            }
        }
        ti = ti + 1;
    }
    let ghost pre = *store;
    let ghost out_pre = out@;
    let n = lease_for_owner(store, None, ANONYMOUS_DISPATCH_CAP, region, now, &mut out);
    proof {
        let a = s0.scheduled@;
        let b = pre.scheduled@;
        let c = store.scheduled@;
        assert forall|i: int| 0 <= i < a.len() && #[trigger] b[i] != a[i] implies c[i] == b[i] by {
            assert(!sj_queued(b[i]));
            assert(!cand(b[i], None, region@, now));
        }
        assert forall|i: int| 0 <= i < a.len() implies (#[trigger] b[i]).tenant_id
            == a[i].tenant_id by {}
        assert forall|i: int| 0 <= i < a.len() implies #[trigger] c[i] == a[i] || (admissible(
            a[i],
            region@,
            now,
        ) && c[i] == leased_row(a[i], now)) by {
            if c[i] != b[i] {
                assert(cand(b[i], None, region@, now));
                assert(b[i] == a[i]);
            }
        }
        assert forall|i: int| 0 <= i < b.len() implies #[trigger] c[i] == b[i] || (b[i].tenant_id
            == None::<u64> && c[i].tenant_id == None::<u64>) by {
            if c[i] != b[i] {
                assert(cand(b[i], None, region@, now));
            }
        }
        // Tenants keep their grants and debits.
        assert forall|k: int| 0 <= k < s0.tenants@.len() implies count_diff(
            a,
            c,
            Some((#[trigger] s0.tenants@[k]).id),
        ) == count_diff(a, b, Some(s0.tenants@[k].id)) by {
            lemma_count_diff_compose(a, b, c, Some(s0.tenants@[k].id));
            lemma_count_diff_zero_other(b, c, None, Some(s0.tenants@[k].id));
        }
        // The anonymous grant count.
        lemma_count_diff_compose(a, b, c, None);
        assert(count_diff(a, c, None) == n);
        assert(granted_count(pre, None, ANONYMOUS_DISPATCH_CAP as int, region@, now)
            == granted_count(s0, None, ANONYMOUS_DISPATCH_CAP as int, region@, now));
        // Grants stay monotone per owner and linked to their rows.
        assert forall|x: int, y: int|
            0 <= x < y < out@.len() && (#[trigger] out@[x]).tenant_id == (
        #[trigger] out@[y]).tenant_id implies grant_le(out@[x], out@[y]) by {
            if y < out_pre.len() {
                assert(out@[x] == out_pre[x] && out@[y] == out_pre[y]);
            } else if x >= out_pre.len() {
            } else {
                assert(out@[x] == out_pre[x]);
                assert(out@[x].tenant_id is Some);
                assert(out@[y].tenant_id == None::<u64>);
                assert(false);
            }
        }
        assert forall|x: int| 0 <= x < out@.len() implies (#[trigger] out@[x]).lock_nonce == now
            && exists|i: int|
            0 <= i < a.len() && cand(#[trigger] a[i], out@[x].tenant_id, region@, now)
                && out@[x].job_id == a[i].id && out@[x].scheduled_at == a[i].scheduled_at
                && out@[x].request_id == a[i].request_id && c[i] == leased_row(a[i], now) by {
            if x < out_pre.len() {
                assert(out@[x] == out_pre[x]);
                let w = choose|w: int|
                    0 <= w < a.len() && cand(#[trigger] a[w], out_pre[x].tenant_id, region@, now)
                        && out_pre[x].job_id == a[w].id && out_pre[x].scheduled_at
                        == a[w].scheduled_at && out_pre[x].request_id == a[w].request_id && b[w]
                        == leased_row(a[w], now);
                assert(!sj_queued(b[w]));
                assert(c[w] == b[w]);
            } else {
                let w = choose|w: int|
                    0 <= w < b.len() && cand(#[trigger] b[w], None, region@, now) && out@[x].job_id
                        == b[w].id && out@[x].scheduled_at == b[w].scheduled_at
                        && out@[x].request_id == b[w].request_id && c[w] == leased_row(b[w], now);
                assert(b[w] == a[w]);
            }
        }

            // Least-first selection carries across the block.
            assert forall|i2: int, j2: int|
                0 <= i2 < a.len() && 0 <= j2 < a.len() && #[trigger] c[i2] != a[i2]
                    && #[trigger] c[j2] == a[j2] && a[i2].tenant_id == a[j2].tenant_id
                    && admissible(a[j2], region@, now) implies row_lt(a[i2], a[j2]) by {
                assert(c[j2] == b[j2] && b[j2] == a[j2]);
                if b[i2] != a[i2] {
                } else {
                    assert(c[i2] != b[i2]);
                    assert(cand(b[i2], None, region@, now));
                    assert(a[i2].tenant_id == None::<u64>);
                    assert(cand(b[j2], None, region@, now));
                }
            }
            // Every leased row keeps a grant naming it.
            assert forall|i2: int|
                0 <= i2 < a.len() && #[trigger] c[i2] != a[i2] implies exists|x: int|
                0 <= x < out@.len() && (#[trigger] out@[x]).job_id == a[i2].id by {
                if b[i2] != a[i2] {
                    let x = choose|x: int|
                        0 <= x < out_pre.len() && (#[trigger] out_pre[x]).job_id == a[i2].id;
                    assert(out@[x].job_id == a[i2].id);
                } else {
                    assert(c[i2] != b[i2]);
                    let x = choose|x: int|
                        out_pre.len() <= x < out@.len() && (#[trigger] out@[x]).job_id
                            == b[i2].id;
                    assert(out@[x].job_id == a[i2].id);
                }
            }
            // Grant names stay pairwise distinct across blocks.
            assert forall|x: int, y: int|
                0 <= x < y < out@.len() implies (#[trigger] out@[x]).job_id != (
            #[trigger] out@[y]).job_id by {
                if y < out_pre.len() {
                    assert(out@[x] == out_pre[x] && out@[y] == out_pre[y]);
                } else if x >= out_pre.len() {
                } else {
                    assert(out@[x] == out_pre[x]);
                    let w = choose|w: int|
                        0 <= w < a.len() && cand(
                            #[trigger] a[w],
                            out_pre[x].tenant_id,
                            region@,
                            now,
                        ) && out_pre[x].job_id == a[w].id && out_pre[x].scheduled_at
                            == a[w].scheduled_at && out_pre[x].request_id == a[w].request_id
                            && b[w] == leased_row(a[w], now);
                    let w2 = choose|w2: int|
                        0 <= w2 < b.len() && cand(#[trigger] b[w2], None, region@, now)
                            && out@[y].job_id == b[w2].id && out@[y].scheduled_at
                            == b[w2].scheduled_at && out@[y].request_id == b[w2].request_id
                            && c[w2] == leased_row(b[w2], now);
                    assert(!sj_queued(b[w]));
                    assert(sj_queued(b[w2]));
                    assert(w != w2);
                    assert(b[w2] == a[w2]);
                    let f = |j: ScheduledJob| j.id;
                    assert(f(a[w]) != f(a[w2]));
                }
            }

    }
    out
}

} // verus!
