//! One-off materializer: converts a one-off definition into its single
//! `scheduled_jobs` row. Idempotent because a definition that already owns a
//! row is never a candidate.

use vstd::prelude::*;

use crate::ids::shard_hash;
use crate::ids::spec_shard_hash;
use crate::store::OneOffJob;
use crate::store::ScheduledJob;
use crate::store::Store;

verus! {

/// Number of scheduled rows owned by the one-off definition `oid`.
pub open spec fn one_off_row_count(sched: Seq<ScheduledJob>, oid: u64) -> nat
    decreases sched.len(),
{
    if sched.len() == 0 {
        0
    } else {
        one_off_row_count(sched.drop_last(), oid) + if sched.last().one_off_job_id == Some(oid) {
            1nat
        } else {
            0nat
        }
    }
}

/// Appending one row changes only the count of the definition it names.
pub proof fn lemma_one_off_count_push(sched: Seq<ScheduledJob>, r: ScheduledJob, oid: u64)
    ensures
        one_off_row_count(sched.push(r), oid) == one_off_row_count(sched, oid) + if r.one_off_job_id == Some(oid) {
            1nat
        } else {
            0nat
        },
{
    assert(sched.push(r).drop_last() =~= sched);
    assert(sched.push(r).last() == r);
}

/// A positive count names an owning row, and conversely.
pub proof fn lemma_one_off_count_exists(sched: Seq<ScheduledJob>, oid: u64)
    ensures
        one_off_row_count(sched, oid) > 0 <==> exists|i: int|
            0 <= i < sched.len() && (#[trigger] sched[i]).one_off_job_id == Some(oid),
    decreases sched.len(),
{
    if sched.len() > 0 {
        lemma_one_off_count_exists(sched.drop_last(), oid);
        if sched.last().one_off_job_id == Some(oid) {
            assert(sched[sched.len() - 1].one_off_job_id == Some(oid));
        } else {
            if one_off_row_count(sched, oid) > 0 {
                let i = choose|i: int|
                    0 <= i < sched.drop_last().len() && (#[trigger] sched.drop_last()[i]).one_off_job_id
                        == Some(oid);
                assert(sched[i].one_off_job_id == Some(oid));
            }
            if exists|i: int|
                0 <= i < sched.len() && (#[trigger] sched[i]).one_off_job_id == Some(oid) {
                let i = choose|i: int|
                    0 <= i < sched.len() && (#[trigger] sched[i]).one_off_job_id == Some(oid);
                assert(i < sched.len() - 1);
                assert(sched.drop_last()[i].one_off_job_id == Some(oid));
            }
        }
    }
}

/// The one-off definition at index `k` awaits materialization: it is live
/// and owns no scheduled row yet.
pub open spec fn one_off_needs_row(s: Store, k: int) -> bool {
    &&& 0 <= k < s.one_offs@.len()
    &&& s.one_offs@[k].deleted_at is None
    &&& one_off_row_count(s.scheduled@, s.one_offs@[k].id) == 0
}

/// The scheduled row materialized for a one-off definition.
pub open spec fn one_off_row(j: OneOffJob, id: u64) -> ScheduledJob {
    ScheduledJob {
        id,
        hash: spec_shard_hash(id),
        region: j.region,
        scheduled_at: j.execute_at,
        tenant_id: j.tenant_id,
        one_off_job_id: Some(j.id),
        cron_job_id: None,
        workflow_execution_id: None,
        retry_for_id: None,
        request_id: j.request_id,
        timeout_ms: j.timeout_ms,
        max_retries: j.max_retries,
        max_response_bytes: j.max_response_bytes,
        times_locked: 0,
        lock_nonce: None,
        execution_id: None,
        deleted_at: None,
    }
}

/// Whether some scheduled row is owned by the one-off definition `oid`.
fn has_one_off_row(sched: &Vec<ScheduledJob>, oid: u64) -> (r: bool)
    ensures
        r == (one_off_row_count(sched@, oid) > 0),
{
    proof {
        lemma_one_off_count_exists(sched@, oid);
    }
    let mut i: usize = 0;
    while i < sched.len()
        invariant
            i <= sched@.len(),
            forall|k: int| 0 <= k < i ==> (#[trigger] sched@[k]).one_off_job_id != Some(oid),
        decreases sched@.len() - i,
    {
        match sched[i].one_off_job_id {
            Some(o) => {
                if o == oid {
                    proof {
                        assert(sched@[i as int].one_off_job_id == Some(oid));
                        lemma_one_off_count_exists(sched@, oid);
                    }
                    return true;
                }
            },
            None => {},
        }
        i = i + 1;
    }
    false
}

/// The one-off materializer worker.
pub struct OneOffScheduler;

impl OneOffScheduler {
    /// One transaction of the materializer: pick a live one-off definition
    /// with no scheduled row and give it exactly one, at its `execute_at`.
    ///
    /// Materialization is idempotent: a definition that already owns a row
    /// keeps exactly the rows it had, and an idle run changes nothing.
    pub fn run_once(store: &mut Store, reached_end: &mut bool)
        requires
            old(store).wf(),
            old(store).next_id < u64::MAX,
        ensures
            final(store).wf(),
            // Idle: no candidate, nothing changes, the end was reached.
            (forall|k: int| !one_off_needs_row(*old(store), k)) ==> *final(store) == *old(store)
                && *final(reached_end),
            // Otherwise some candidate got its single row.
            (exists|k: int| one_off_needs_row(*old(store), k)) ==> exists|k: int|
                {
                    &&& one_off_needs_row(*old(store), k)
                    &&& final(store).scheduled@ == old(store).scheduled@.push(
                        one_off_row(old(store).one_offs@[k], old(store).next_id),
                    )
                    &&& *final(reached_end) == *old(reached_end)
                },
            // A definition that already owns rows gains none.
            forall|oid: u64| one_off_row_count(old(store).scheduled@, oid) > 0
                ==> #[trigger] one_off_row_count(final(store).scheduled@, oid)
                    == one_off_row_count(old(store).scheduled@, oid),
            // No definition ever exceeds one row from this transition.
            forall|oid: u64| #[trigger] one_off_row_count(final(store).scheduled@, oid)
                <= vstd::math::max(one_off_row_count(old(store).scheduled@, oid) as int, 1),
            final(store).tenants == old(store).tenants,
            final(store).one_offs == old(store).one_offs,
            final(store).cron_jobs == old(store).cron_jobs,
            final(store).requests == old(store).requests,
            final(store).responses == old(store).responses,
            final(store).executions == old(store).executions,
            final(store).workflows == old(store).workflows,
            final(store).workflow_executions == old(store).workflow_executions,
            final(store).workflow_dependencies == old(store).workflow_dependencies,
    {
        let ghost s0 = *old(store);
        let mut k: usize = 0;
        let n = store.one_offs.len();
        let mut found: usize = n;
        while k < n
            invariant_except_break
                found == n,
            invariant
                *store == s0,
                n == s0.one_offs@.len(),
                k <= n,
                forall|i: int| 0 <= i < k ==> !one_off_needs_row(s0, i),
            ensures
                *store == s0,
                found <= n,
                found == n ==> forall|i: int| !one_off_needs_row(s0, i),
                found < n ==> one_off_needs_row(s0, found as int),
            decreases n - k,
        {
            let live = store.one_offs[k].deleted_at.is_none();
            if live {
                let oid = store.one_offs[k].id;
                if !has_one_off_row(&store.scheduled, oid) {
                    found = k;
                    assert(one_off_needs_row(s0, k as int));
                    break;
                }
            }
            k = k + 1;
        }
        if found == n {
            *reached_end = true;
            return;
        }
        assert(one_off_needs_row(s0, found as int));

        let region = store.one_offs[found].region.clone();
        let tenant_id = store.one_offs[found].tenant_id;
        let oid = store.one_offs[found].id;
        let request_id = store.one_offs[found].request_id;
        let execute_at = store.one_offs[found].execute_at;
        let timeout_ms = store.one_offs[found].timeout_ms;
        let max_retries = store.one_offs[found].max_retries;
        let max_response_bytes = store.one_offs[found].max_response_bytes;

        let id = store.alloc_id();
        let row = ScheduledJob {
            id,
            hash: shard_hash(id),
            region,
            scheduled_at: execute_at,
            tenant_id,
            one_off_job_id: Some(oid),
            cron_job_id: None,
            workflow_execution_id: None,
            retry_for_id: None,
            request_id,
            timeout_ms,
            max_retries,
            max_response_bytes,
            times_locked: 0,
            lock_nonce: None,
            execution_id: None,
            deleted_at: None,
        };
        assert(row == one_off_row(s0.one_offs@[found as int], s0.next_id));
        proof {
            assert forall|o: u64| one_off_row_count(s0.scheduled@, o) > 0 implies #[trigger] one_off_row_count(
                s0.scheduled@.push(row),
                o,
            ) == one_off_row_count(s0.scheduled@, o) by {
                lemma_one_off_count_push(s0.scheduled@, row, o);
            }
            assert forall|o: u64| #[trigger] one_off_row_count(s0.scheduled@.push(row), o)
                <= vstd::math::max(one_off_row_count(s0.scheduled@, o) as int, 1) by {
                lemma_one_off_count_push(s0.scheduled@, row, o);
            }
        }
        store.scheduled.push(row);
    }
}

} // verus!
