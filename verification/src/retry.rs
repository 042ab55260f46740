//! Retry planner: when a recorded execution failed and retries remain, it
//! enqueues a successor row with exponential backoff.
//!
//! The backoff base is one minute and doubles with the number of retry
//! ancestors in the chain (capped at 2^32); a successor consumes one retry.

use vstd::prelude::*;

use crate::ids::shard_hash;
use crate::ids::spec_shard_hash;
use crate::store::exec_lookup;
use crate::store::lemma_exec_lookup_unique;
use crate::store::lemma_sched_lookup_unique;
use crate::store::sched_lookup;
use crate::store::JobExecution;
use crate::store::ScheduledJob;
use crate::store::Store;

verus! {

/// How many ancestors of `j` along `retry_for_id` are themselves retries.
/// This is the exponent of the backoff applied when `j` itself fails.
pub open spec fn retry_attempts(sched: Seq<ScheduledJob>, j: ScheduledJob) -> nat
    decreases j.id,
{
    match j.retry_for_id {
        None => 0,
        Some(p) => match sched_lookup(sched, p) {
            None => 0,
            Some(parent) => if parent.id < j.id {
                (if parent.retry_for_id is Some {
                    1nat
                } else {
                    0nat
                }) + retry_attempts(sched, parent)
            } else {
                0
            },
        },
    }
}

/// Backoff before the next attempt, in seconds: one minute doubled per
/// retry ancestor, capped at 2^32 minutes' worth of doubling.
pub open spec fn retry_backoff_secs(attempts: nat) -> int {
    60 * ((1u64 << (if attempts > 32 {
        32u64
    } else {
        attempts as u64
    })) as int)
}

/// The backoff never drops below its one-minute base.
pub proof fn lemma_backoff_at_least_base(a: nat)
    ensures
        retry_backoff_secs(a) >= 60,
{
    let k: u64 = if a > 32 {
        32u64
    } else {
        a as u64
    };
    assert((1u64 << k) >= 1) by (bit_vector)
        requires
            k <= 32u64,
    ;
}

/// Law: backoff is monotone in the number of retry ancestors, so within one
/// retry chain successive backoffs never decrease.
pub proof fn lemma_backoff_monotone(a: nat, b: nat)
    requires
        a <= b,
    ensures
        retry_backoff_secs(a) <= retry_backoff_secs(b),
{
    let ka: u64 = if a > 32 {
        32u64
    } else {
        a as u64
    };
    let kb: u64 = if b > 32 {
        32u64
    } else {
        b as u64
    };
    assert((1u64 << ka) <= (1u64 << kb)) by (bit_vector)
        requires
            ka <= kb && kb <= 32u64,
    ;
}

/// Law: a successor row has at least as many retry ancestors as the row it
/// retries, so the chain's backoff exponent never decreases.
pub proof fn lemma_chain_attempts_monotone(sched: Seq<ScheduledJob>, j: ScheduledJob, parent: ScheduledJob)
    requires
        j.retry_for_id == Some(parent.id),
        sched_lookup(sched, parent.id) == Some(parent),
        parent.id < j.id,
    ensures
        retry_attempts(sched, j) >= retry_attempts(sched, parent),
{
}

/// Law: within one retry chain the backoff never decreases: a successor row
/// waits at least as long as the row it retries waited.
pub proof fn lemma_chain_backoff_monotone(sched: Seq<ScheduledJob>, j: ScheduledJob, parent: ScheduledJob)
    requires
        j.retry_for_id == Some(parent.id),
        sched_lookup(sched, parent.id) == Some(parent),
        parent.id < j.id,
    ensures
        retry_backoff_secs(retry_attempts(sched, j)) >= retry_backoff_secs(
            retry_attempts(sched, parent),
        ),
{
    lemma_chain_attempts_monotone(sched, j, parent);
    lemma_backoff_monotone(retry_attempts(sched, parent), retry_attempts(sched, j));
}

/// Exponential backoff, executable: `60 * 2^min(attempts, 32)` seconds.
pub fn backoff_secs(attempts: u64) -> (r: i64)
    ensures
        r == retry_backoff_secs(attempts as nat),
        60 <= r <= 60 * 0x1_0000_0000,
{
    let k: u64 = if attempts > 32 {
        32
    } else {
        attempts
    };
    let p: u64 = 1u64 << k;
    assert(1u64 <= (1u64 << k) <= 0x1_0000_0000u64) by (bit_vector)
        requires
            k <= 32u64,
    ;
    (60u64 * p) as i64
}

/// Walks the retry chain upward from `start` and counts the retry ancestors.
pub fn count_attempts(store: &Store, start: usize) -> (r: u64)
    requires
        store.wf(),
        start < store.scheduled@.len(),
    ensures
        r == retry_attempts(store.scheduled@, store.scheduled@[start as int]),
{
    let mut cur: usize = start;
    let mut acc: u64 = 0;
    loop
        invariant
            store.wf(),
            cur < store.scheduled@.len(),
            acc + retry_attempts(store.scheduled@, store.scheduled@[cur as int])
                == retry_attempts(store.scheduled@, store.scheduled@[start as int]),
            acc <= store.scheduled@[start as int].id - store.scheduled@[cur as int].id,
        ensures
            acc == retry_attempts(store.scheduled@, store.scheduled@[start as int]),
        decreases store.scheduled@[cur as int].id,
    {
        let ghost j = store.scheduled@[cur as int];
        match store.scheduled[cur].retry_for_id {
            None => {
                assert(retry_attempts(store.scheduled@, j) == 0);
                break;
            },
            Some(p) => {
                match store.find_scheduled(p) {
                    None => {
                        assert(retry_attempts(store.scheduled@, j) == 0);
                        break;
                    },
                    Some(pi) => {
                        proof {
                            lemma_sched_lookup_unique(store.scheduled@, pi as int);
                        }
                        if store.scheduled[pi].id >= store.scheduled[cur].id {
                            assert(retry_attempts(store.scheduled@, j) == 0);
                            break;
                        }
                        if store.scheduled[pi].retry_for_id.is_some() {
                            acc = acc + 1;
                        }
                        cur = pi;
                    },
                }
            },
        }
    }
    acc
}

/// The execution recorded for `j`, where `j` has one.
pub open spec fn execution_of(s: Store, j: ScheduledJob) -> JobExecution {
    let dummy = JobExecution {
        id: 0,
        executed_at: 0,
        success: true,
        response_id: None,
        response_error: None,
        request_id: 0,
    };
    match j.execution_id {
        Some(eid) => match exec_lookup(s.executions@, eid) {
            Some(e) => e,
            None => dummy,
        },
        None => dummy,
    }
}

/// `j`'s recorded execution exists and failed.
pub open spec fn failed_execution(s: Store, j: ScheduledJob) -> bool {
    match j.execution_id {
        Some(eid) => match exec_lookup(s.executions@, eid) {
            Some(e) => !e.success,
            None => false,
        },
        None => false,
    }
}

/// Some row already retries the row with id `id`.
pub open spec fn has_successor(sched: Seq<ScheduledJob>, id: u64) -> bool {
    exists|i: int| 0 <= i < sched.len() && (#[trigger] sched[i]).retry_for_id == Some(id)
}

/// The row at index `k` is due for a retry: its execution failed, retries
/// remain, it is not part of a workflow, and it has no successor yet.
pub open spec fn retry_candidate(s: Store, k: int) -> bool {
    &&& 0 <= k < s.scheduled@.len()
    &&& s.scheduled@[k].workflow_execution_id is None
    &&& s.scheduled@[k].max_retries > 0
    &&& failed_execution(s, s.scheduled@[k])
    &&& !has_successor(s.scheduled@, s.scheduled@[k].id)
}

/// The successor row enqueued when `j` (whose execution is `e`, with
/// `attempts` retry ancestors) is retried.
pub open spec fn retry_row(j: ScheduledJob, e: JobExecution, attempts: nat, id: u64) -> ScheduledJob {
    ScheduledJob {
        id,
        hash: spec_shard_hash(id),
        region: j.region,
        scheduled_at: (e.executed_at + retry_backoff_secs(attempts)) as i64,
        tenant_id: j.tenant_id,
        one_off_job_id: j.one_off_job_id,
        cron_job_id: j.cron_job_id,
        workflow_execution_id: None,
        retry_for_id: Some(j.id),
        request_id: j.request_id,
        timeout_ms: j.timeout_ms,
        max_retries: (j.max_retries - 1) as i32,
        max_response_bytes: j.max_response_bytes,
        times_locked: 0,
        lock_nonce: None,
        execution_id: None,
        deleted_at: None,
    }
}

/// Whether some row retries the row with id `id`, executable.
fn has_successor_row(sched: &Vec<ScheduledJob>, id: u64) -> (r: bool)
    ensures
        r == has_successor(sched@, id),
{
    let mut i: usize = 0;
    while i < sched.len()
        invariant
            i <= sched@.len(),
            forall|k: int| 0 <= k < i ==> (#[trigger] sched@[k]).retry_for_id != Some(id),
        decreases sched@.len() - i,
    {
        match sched[i].retry_for_id {
            Some(p) => {
                if p == id {
                    assert(sched@[i as int].retry_for_id == Some(id));
                    return true;
                }
            },
            None => {},
        }
        i = i + 1;
    }
    false
}

/// One transaction of the retry planner: pick a failed, retryable row with
/// no successor and enqueue its successor at `executed_at` plus the chain's
/// exponential backoff, with one retry fewer.
pub fn schedule_retry_job(store: &mut Store, reached_end: &mut bool)
    requires
        old(store).wf(),
        old(store).next_id < u64::MAX,
    ensures
        final(store).wf(),
        // Idle: no candidate, nothing changes, the end was reached.
        (forall|k: int| !retry_candidate(*old(store), k)) ==> *final(store) == *old(store)
            && *final(reached_end),
        // Otherwise some candidate got its successor row.
        (exists|k: int| retry_candidate(*old(store), k)) ==> exists|k: int|
            {
                &&& retry_candidate(*old(store), k)
                &&& final(store).scheduled@ == old(store).scheduled@.push(
                    retry_row(
                        old(store).scheduled@[k],
                        execution_of(*old(store), old(store).scheduled@[k]),
                        retry_attempts(old(store).scheduled@, old(store).scheduled@[k]),
                        old(store).next_id,
                    ),
                )
                &&& *final(reached_end) == *old(reached_end)
            },
        final(store).tenants == old(store).tenants,
        final(store).one_offs == old(store).one_offs,
        final(store).cron_jobs == old(store).cron_jobs,
        final(store).requests == old(store).requests,
        final(store).responses == old(store).responses,
        final(store).executions == old(store).executions,
        final(store).workflows == old(store).workflows,
        final(store).workflow_executions == old(store).workflow_executions,
        final(store).workflow_dependencies == old(store).workflow_dependencies,
{
    let ghost s0 = *old(store);
    let mut k: usize = 0;
    let n = store.scheduled.len();
    let mut found: usize = n;
    while k < n
        invariant_except_break
            found == n,
        invariant
            *store == s0,
            s0.wf(),
            n == s0.scheduled@.len(),
            k <= n,
            forall|i: int| 0 <= i < k ==> !retry_candidate(s0, i),
        ensures
            *store == s0,
            found <= n,
            found == n ==> forall|i: int| !retry_candidate(s0, i),
            found < n ==> retry_candidate(s0, found as int),
        decreases n - k,
    {
        let mut is_candidate = store.scheduled[k].workflow_execution_id.is_none()
            && store.scheduled[k].max_retries > 0;
        if is_candidate {
            match store.scheduled[k].execution_id {
                Some(eid) => {
                    match store.find_execution(eid) {
                        Some(ei) => {
                            proof {
                                lemma_exec_lookup_unique(store.executions@, ei as int);
                            }
                            is_candidate = !store.executions[ei].success;
                        },
                        None => {
                            is_candidate = false;
                        },
                    }
                },
                None => {
                    is_candidate = false;
                },
            }
        }
        if is_candidate {
            let jid = store.scheduled[k].id;
            if !has_successor_row(&store.scheduled, jid) {
                found = k;
                assert(retry_candidate(s0, k as int));
                break;
            }
        }
        assert(!retry_candidate(s0, k as int));
        k = k + 1;
    }
    if found == n {
        *reached_end = true;
        return;
    }

    let attempts = count_attempts(store, found);
    let wait = backoff_secs(attempts);

    let eid = store.scheduled[found].execution_id.unwrap();
    let ei = store.find_execution(eid).unwrap();
    proof {
        lemma_exec_lookup_unique(store.executions@, ei as int);
    }
    let executed_at = store.executions[ei].executed_at;
    assert(crate::store::exec_ok(s0.executions@[ei as int]));

    let region = store.scheduled[found].region.clone();
    let tenant_id = store.scheduled[found].tenant_id;
    let one_off_job_id = store.scheduled[found].one_off_job_id;
    let cron_job_id = store.scheduled[found].cron_job_id;
    let jid = store.scheduled[found].id;
    let request_id = store.scheduled[found].request_id;
    let timeout_ms = store.scheduled[found].timeout_ms;
    let max_retries = store.scheduled[found].max_retries;
    let max_response_bytes = store.scheduled[found].max_response_bytes;

    let id = store.alloc_id();
    let row = ScheduledJob {
        id,
        hash: shard_hash(id),
        region,
        scheduled_at: executed_at + wait,
        tenant_id,
        one_off_job_id,
        cron_job_id,
        workflow_execution_id: None,
        retry_for_id: Some(jid),
        request_id,
        timeout_ms,
        max_retries: max_retries - 1,
        max_response_bytes,
        times_locked: 0,
        lock_nonce: None,
        execution_id: None,
        deleted_at: None,
    };
    assert(row == retry_row(
        s0.scheduled@[found as int],
        execution_of(s0, s0.scheduled@[found as int]),
        retry_attempts(s0.scheduled@, s0.scheduled@[found as int]),
        s0.next_id,
    ));
    store.scheduled.push(row);
}

} // verus!
