//! Lease reaper: recovers scheduled rows whose lease expired without a
//! recorded result, and refunds the tenant tokens the leases had consumed.
//!
//! A lease on a row expires `timeout + 90s` after the `lock_nonce` stamp,
//! where the timeout is the row's own, else the tenant's cap, else two
//! minutes. Reaping is idempotent: a second run at the same instant finds no
//! expired lease and changes nothing ([`lemma_reaper_idempotent`]).

use vstd::prelude::*;

use crate::effective_timeout_spec;
use crate::LEASE_SLACK_SECS;
use crate::REAPER_DEFAULT_TIMEOUT_MS;
use crate::store::distinct_ids;
use crate::store::lemma_tenant_lookup_unique;
use crate::store::tenant_lookup;
use crate::store::ScheduledJob;
use crate::store::Store;
use crate::store::Tenant;
use crate::store::MAX_TS;

verus! {

/// The timeout cap of the tenant owning `j`, where both exist.
pub open spec fn tenant_max_of(tenants: Seq<Tenant>, j: ScheduledJob) -> Option<i64> {
    match j.tenant_id {
        Some(tid) => match tenant_lookup(tenants, tid) {
            Some(t) => Some(t.max_timeout),
            None => None,
        },
        None => None,
    }
}

/// The lease on `j` expired at `now`: the row is leased but unexecuted and
/// its nonce plus effective timeout plus slack lies in the past.
pub open spec fn lease_expired(tenants: Seq<Tenant>, j: ScheduledJob, now: i64) -> bool {
    match j.lock_nonce {
        Some(nonce) => j.execution_id is None && nonce + effective_timeout_spec(
            j.timeout_ms,
            tenant_max_of(tenants, j),
            REAPER_DEFAULT_TIMEOUT_MS,
        ) as int / 1000 + LEASE_SLACK_SECS < now,
        None => false,
    }
}

/// A scheduled row with its lease cleared.
pub open spec fn cleared(j: ScheduledJob) -> ScheduledJob {
    ScheduledJob { lock_nonce: None, ..j }
}

/// The scheduled table after one reap at `now`.
pub open spec fn reap_scheduled(tenants: Seq<Tenant>, sched: Seq<ScheduledJob>, now: i64) -> Seq<ScheduledJob> {
    Seq::new(
        sched.len(),
        |i: int| if lease_expired(tenants, sched[i], now) {
            cleared(sched[i])
        } else {
            sched[i]
        },
    )
}

/// How many expired leases at `now` belong to the tenant `tid`.
pub open spec fn refund_count(tenants: Seq<Tenant>, sched: Seq<ScheduledJob>, tid: u64, now: i64) -> nat
    decreases sched.len(),
{
    if sched.len() == 0 {
        0
    } else {
        refund_count(tenants, sched.drop_last(), tid, now) + if sched.last().tenant_id == Some(tid)
            && lease_expired(tenants, sched.last(), now) {
            1nat
        } else {
            0nat
        }
    }
}

/// A tenant with `c` tokens refunded, capped at its maximum.
pub open spec fn refunded(t: Tenant, c: nat) -> Tenant {
    let tokens = if t.tokens + c >= t.max_tokens {
        t.max_tokens
    } else {
        (t.tokens + c) as i32
    };
    Tenant { tokens, ..t }
}

/// The tenant table after one reap at `now`.
pub open spec fn reap_tenants(tenants: Seq<Tenant>, sched: Seq<ScheduledJob>, now: i64) -> Seq<Tenant> {
    Seq::new(
        tenants.len(),
        |i: int| refunded(tenants[i], refund_count(tenants, sched, tenants[i].id, now)),
    )
}

/// With no expired lease anywhere, every refund count is zero.
pub proof fn lemma_refund_count_zero(tenants: Seq<Tenant>, sched: Seq<ScheduledJob>, tid: u64, now: i64)
    requires
        forall|i: int| 0 <= i < sched.len() ==> !lease_expired(tenants, #[trigger] sched[i], now),
    ensures
        refund_count(tenants, sched, tid, now) == 0,
    decreases sched.len(),
{
    if sched.len() > 0 {
        assert(sched.last() == sched[sched.len() - 1]);
        lemma_refund_count_zero(tenants, sched.drop_last(), tid, now);
    }
}

/// Expiry only reads a tenant's id and timeout cap, so a table that keeps
/// both pointwise keeps every expiry verdict.
pub proof fn lemma_expiry_stable(t1: Seq<Tenant>, t2: Seq<Tenant>, j: ScheduledJob, now: i64)
    requires
        distinct_ids(t1, |t: Tenant| t.id),
        t2.len() == t1.len(),
        forall|i: int| 0 <= i < t1.len() ==> (#[trigger] t2[i]).id == t1[i].id && t2[i].max_timeout
            == t1[i].max_timeout,
    ensures
        lease_expired(t2, j, now) == lease_expired(t1, j, now),
{
    match j.tenant_id {
        Some(tid) => {
            if exists|i: int| 0 <= i < t1.len() && (#[trigger] t1[i]).id == tid {
                let i = choose|i: int| 0 <= i < t1.len() && (#[trigger] t1[i]).id == tid;
                lemma_tenant_lookup_unique(t1, i);
                let f = |t: Tenant| t.id;
                assert forall|a: int| 0 <= a < t2.len() implies #[trigger] f(t2[a]) == f(t1[a]) by {
                    assert(f(t1[a]) == t1[a].id);
                }
                assert(distinct_ids(t2, f));
                lemma_tenant_lookup_unique(t2, i);
                assert(t2[i].id == tid);
                assert(tenant_max_of(t2, j) == tenant_max_of(t1, j));
            } else {
                assert(tenant_lookup(t1, tid) is None);
                assert forall|i: int| 0 <= i < t2.len() implies (#[trigger] t2[i]).id != tid by {
                    assert(t1[i].id != tid);
                }
                assert(tenant_lookup(t2, tid) is None);
            }
        },
        None => {},
    }
}

/// Law: the lease reaper is idempotent. After one reap at `now`, no lease is
/// expired at `now` any more, so a second reap at the same instant leaves
/// both tables exactly as they are.
pub proof fn lemma_reaper_idempotent(tenants: Seq<Tenant>, sched: Seq<ScheduledJob>, now: i64)
    requires
        distinct_ids(tenants, |t: Tenant| t.id),
    ensures
        ({
            let s1 = reap_scheduled(tenants, sched, now);
            let t1 = reap_tenants(tenants, sched, now);
            reap_scheduled(t1, s1, now) =~= s1 && reap_tenants(t1, s1, now) =~= t1
        }),
{
    let s1 = reap_scheduled(tenants, sched, now);
    let t1 = reap_tenants(tenants, sched, now);
    assert forall|i: int| 0 <= i < s1.len() implies !lease_expired(t1, #[trigger] s1[i], now) by {
        lemma_expiry_stable(tenants, t1, s1[i], now);
        if lease_expired(tenants, sched[i], now) {
            assert(s1[i] == cleared(sched[i]));
            assert(s1[i].lock_nonce is None);
        } else {
            assert(s1[i] == sched[i]);
        }
    }
    assert forall|i: int| 0 <= i < t1.len() implies #[trigger] reap_tenants(t1, s1, now)[i]
        == t1[i] by {
        lemma_refund_count_zero(t1, s1, t1[i].id, now);
        assert(refunded(t1[i], 0) == t1[i]);
    }
    assert forall|i: int| 0 <= i < s1.len() implies #[trigger] reap_scheduled(t1, s1, now)[i]
        == s1[i] by {}
}

/// Whether the lease on `j` has expired at `now`, executable.
fn lease_is_expired(tenants: &Vec<Tenant>, j: &ScheduledJob, now: i64) -> (r: bool)
    requires
        distinct_ids(tenants@, |t: Tenant| t.id),
        forall|i: int| 0 <= i < tenants@.len() ==> crate::store::tenant_ok(#[trigger] tenants@[i]),
        crate::store::sj_ok(*j),
    ensures
        r == lease_expired(tenants@, *j, now),
{
    let nonce = match j.lock_nonce {
        None => {
            return false;
        },
        Some(n) => n,
    };
    if j.execution_id.is_some() {
        return false;
    }
    let tenant_max: Option<i64> = match j.tenant_id {
        None => None,
        Some(tid) => {
            let mut i: usize = 0;
            let mut r: Option<i64> = None;
            while i < tenants.len()
                invariant_except_break
                    r is None,
                invariant
                    i <= tenants@.len(),
                    j.tenant_id == Some(tid),
                    distinct_ids(tenants@, |t: Tenant| t.id),
                    forall|k: int| 0 <= k < i ==> (#[trigger] tenants@[k]).id != tid,
                ensures
                    r == tenant_max_of(tenants@, *j),
                decreases tenants@.len() - i,
            {
                if tenants[i].id == tid {
                    r = Some(tenants[i].max_timeout);
                    proof {
                        lemma_tenant_lookup_unique(tenants@, i as int);
                    }
                    assert(tenant_lookup(tenants@, tid) == Some(tenants@[i as int]));
                    break;
                }
                i = i + 1;
            }
            r
        },
    };
    let eff = crate::effective_timeout(j.timeout_ms, tenant_max, REAPER_DEFAULT_TIMEOUT_MS);
    nonce + eff / 1000 + LEASE_SLACK_SECS < now
}

/// One reaper pass at `now`: clears every expired lease and refunds one
/// token per recovered row to its tenant, capped at the tenant's maximum.
///
/// Idempotence: after this runs, no lease is expired at `now`, and when no
/// lease was expired to begin with the store is left untouched.
pub fn reap_leases(store: &mut Store, now: i64)
    requires
        old(store).wf(),
        0 <= now <= MAX_TS,
    ensures
        final(store).wf(),
        final(store).scheduled@ == reap_scheduled(old(store).tenants@, old(store).scheduled@, now),
        final(store).tenants@ == reap_tenants(old(store).tenants@, old(store).scheduled@, now),
        // No lease is expired once the reaper has run.
        forall|i: int| 0 <= i < final(store).scheduled@.len()
            ==> !lease_expired(final(store).tenants@, #[trigger] final(store).scheduled@[i], now),
        // A reap that finds nothing changes nothing.
        (forall|i: int| 0 <= i < old(store).scheduled@.len()
            ==> !lease_expired(old(store).tenants@, #[trigger] old(store).scheduled@[i], now))
            ==> *final(store) == *old(store),
        final(store).one_offs == old(store).one_offs,
        final(store).cron_jobs == old(store).cron_jobs,
        final(store).requests == old(store).requests,
        final(store).responses == old(store).responses,
        final(store).executions == old(store).executions,
        final(store).workflows == old(store).workflows,
        final(store).workflow_executions == old(store).workflow_executions,
        final(store).workflow_dependencies == old(store).workflow_dependencies,
        final(store).next_id == old(store).next_id,
{
    let ghost s0 = *old(store);
    let ghost t0 = s0.tenants@;
    let ghost sc0 = s0.scheduled@;

    // Count the refunds per tenant against the untouched table.
    let mut counts: Vec<usize> = Vec::new();
    let mut ti: usize = 0;
    while ti < store.tenants.len()
        invariant
            *store == s0,
            s0.wf(),
            t0 == s0.tenants@,
            sc0 == s0.scheduled@,
            ti <= t0.len(),
            counts@.len() == ti,
            forall|k: int| 0 <= k < ti ==> counts@[k] == refund_count(t0, sc0, t0[k].id, now),
        decreases t0.len() - ti,
    {
        let tid = store.tenants[ti].id;
        let mut c: usize = 0;
        let mut i: usize = 0;
        while i < store.scheduled.len()
            invariant
                *store == s0,
                s0.wf(),
                t0 == s0.tenants@,
                sc0 == s0.scheduled@,
                tid == t0[ti as int].id,
                ti < t0.len(),
                i <= sc0.len(),
                c <= i,
                c == refund_count(t0, sc0.subrange(0, i as int), tid, now),
            decreases sc0.len() - i,
        {
            assert(crate::store::sj_ok(sc0[i as int]));
            let hit = match store.scheduled[i].tenant_id {
                Some(x) => x == tid,
                None => false,
            } && lease_is_expired(&store.tenants, &store.scheduled[i], now);
            assert(sc0.subrange(0, i as int + 1).drop_last() =~= sc0.subrange(0, i as int));
            assert(sc0.subrange(0, i as int + 1).last() == sc0[i as int]);
            if hit {
                c = c + 1;
            }
            i = i + 1;
        }
        assert(sc0.subrange(0, sc0.len() as int) =~= sc0);
        counts.push(c);
        ti = ti + 1;
    }

    // Clear the expired leases.
    let mut i: usize = 0;
    while i < store.scheduled.len()
        invariant
            s0.wf(),
            t0 == s0.tenants@,
            sc0 == s0.scheduled@,
            store.tenants == s0.tenants,
            store.one_offs == s0.one_offs,
            store.cron_jobs == s0.cron_jobs,
            store.requests == s0.requests,
            store.responses == s0.responses,
            store.executions == s0.executions,
            store.workflows == s0.workflows,
            store.workflow_executions == s0.workflow_executions,
            store.workflow_dependencies == s0.workflow_dependencies,
            store.next_id == s0.next_id,
            i <= sc0.len(),
            store.scheduled@.len() == sc0.len(),
            forall|k: int| 0 <= k < i ==> store.scheduled@[k] == reap_scheduled(t0, sc0, now)[k],
            forall|k: int| i <= k < sc0.len() ==> store.scheduled@[k] == sc0[k],
            (forall|k: int| 0 <= k < sc0.len() ==> !lease_expired(t0, #[trigger] sc0[k], now))
                ==> store.scheduled == s0.scheduled,
        decreases sc0.len() - i,
    {
        let ghost prev = store.scheduled@;
        assert(crate::store::sj_ok(sc0[i as int]));
        assert(store.tenants@ == t0);
        let expired = lease_is_expired(&store.tenants, &store.scheduled[i], now);
        if expired {
            assert(lease_expired(t0, sc0[i as int], now));
            let mut row = store.scheduled.remove(i);
            row.lock_nonce = None;
            assert(row == cleared(sc0[i as int]));
            store.scheduled.insert(i, row);
            assert(store.scheduled@ =~= prev.update(i as int, row));
        } else {
            assert(!lease_expired(t0, sc0[i as int], now));
        }
        i = i + 1;
    }
    let ghost reaped = reap_scheduled(t0, sc0, now);
    assert(store.scheduled@ =~= reaped);

    // Apply the refunds.
    let mut ti: usize = 0;
    while ti < store.tenants.len()
        invariant
            s0.wf(),
            t0 == s0.tenants@,
            sc0 == s0.scheduled@,
            reaped == reap_scheduled(t0, sc0, now),
            store.scheduled@ == reaped,
            (forall|k: int| 0 <= k < sc0.len() ==> !lease_expired(t0, #[trigger] sc0[k], now))
                ==> store.scheduled == s0.scheduled,
            store.one_offs == s0.one_offs,
            store.cron_jobs == s0.cron_jobs,
            store.requests == s0.requests,
            store.responses == s0.responses,
            store.executions == s0.executions,
            store.workflows == s0.workflows,
            store.workflow_executions == s0.workflow_executions,
            store.workflow_dependencies == s0.workflow_dependencies,
            store.next_id == s0.next_id,
            counts@.len() == t0.len(),
            forall|k: int| 0 <= k < t0.len() ==> counts@[k] == refund_count(t0, sc0, t0[k].id, now),
            ti <= t0.len(),
            store.tenants@.len() == t0.len(),
            forall|k: int| 0 <= k < ti ==> store.tenants@[k] == reap_tenants(t0, sc0, now)[k],
            forall|k: int| ti <= k < t0.len() ==> store.tenants@[k] == t0[k],
            (forall|k: int| 0 <= k < sc0.len() ==> !lease_expired(t0, #[trigger] sc0[k], now))
                ==> store.tenants == s0.tenants,
        decreases t0.len() - ti,
    {
        let c = counts[ti];
        assert(crate::store::tenant_ok(t0[ti as int]));
        proof {
            if forall|k: int| 0 <= k < sc0.len() ==> !lease_expired(t0, #[trigger] sc0[k], now) {
                lemma_refund_count_zero(t0, sc0, t0[ti as int].id, now);
            }
        }
        if c > 0 {
            let mut t = store.tenants[ti];
            let ghost told = t;
            let headroom = t.max_tokens - t.tokens;
            if c >= headroom as usize {
                t.tokens = t.max_tokens;
            } else {
                t.tokens = t.tokens + c as i32;
            }
            assert(t == refunded(told, c as nat));
            store.tenants.set(ti, t);
        } else {
            assert(store.tenants@[ti as int] == refunded(t0[ti as int], 0));
        }
        ti = ti + 1;
    }
    assert(store.tenants@ =~= reap_tenants(t0, sc0, now));

    // The invariant and the idempotence facts.
    proof {
        assert forall|k: int| 0 <= k < store.scheduled@.len() implies crate::store::sj_ok(
            #[trigger] store.scheduled@[k],
        ) by {
            assert(crate::store::sj_ok(sc0[k]));
        }
        assert forall|k: int| 0 <= k < store.tenants@.len() implies crate::store::tenant_ok(
            #[trigger] store.tenants@[k],
        ) by {
            assert(crate::store::tenant_ok(t0[k]));
        }
        let f = |t: Tenant| t.id;
        assert forall|k: int| 0 <= k < store.tenants@.len() implies #[trigger] f(store.tenants@[k])
            == f(t0[k]) by {}
        assert(distinct_ids(store.tenants@, f));
        assert(crate::store::ids_below(store.tenants@, f, store.next_id));
        let g = |j: ScheduledJob| j.id;
        assert forall|k: int| 0 <= k < store.scheduled@.len() implies #[trigger] g(
            store.scheduled@[k],
        ) == g(sc0[k]) by {}
        assert(distinct_ids(store.scheduled@, g));
        assert(crate::store::ids_below(store.scheduled@, g, store.next_id));

        lemma_reaper_idempotent(t0, sc0, now);
        assert forall|k: int| 0 <= k < store.scheduled@.len() implies !lease_expired(
            store.tenants@,
            #[trigger] store.scheduled@[k],
            now,
        ) by {
            assert(reap_scheduled(store.tenants@, store.scheduled@, now)[k]
                == store.scheduled@[k]);
            if lease_expired(store.tenants@, store.scheduled@[k], now) {
                lemma_expiry_stable(t0, store.tenants@, store.scheduled@[k], now);
                if lease_expired(t0, sc0[k], now) {
                    assert(store.scheduled@[k].lock_nonce is None);
                } else {
                    assert(store.scheduled@[k] == sc0[k]);
                }
                assert(false);
            }
        }
        if forall|k: int| 0 <= k < sc0.len() ==> !lease_expired(t0, #[trigger] sc0[k], now) {
            assert(store.tenants == s0.tenants);
            assert(store.scheduled == s0.scheduled);
        }
    }
}

} // verus!
