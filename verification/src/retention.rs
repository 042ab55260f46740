//! Retention sweepers: soft-delete expired rows and redact their payloads.
//!
//! Redaction replaces a payload's body with `<deleted>` and empties its
//! headers; rows are never physically removed.

use vstd::prelude::*;

use crate::store::exec_lookup;
use crate::store::lemma_exec_lookup_unique;
use crate::store::tenant_lookup;
use crate::store::lemma_tenant_lookup_unique;
use crate::store::HttpRequest;
use crate::store::HttpResponse;
use crate::store::ScheduledJob;
use crate::store::Store;
use crate::store::MAX_TS;

verus! {

/// How long a one-off's scheduled rows must have been gone before the
/// definition itself is swept, in seconds.
pub const ONE_OFF_RETENTION_SECS: i64 = 10_800;

/// The scheduled row at `k` is past its tenant's retention at `now`: it is
/// executed, tenant-owned, live, and its execution happened more than
/// `retain_for_days` ago.
pub open spec fn scheduled_retention_candidate(s: Store, k: int, now: i64) -> bool {
    &&& 0 <= k < s.scheduled@.len()
    &&& s.scheduled@[k].deleted_at is None
    &&& (match (s.scheduled@[k].execution_id, s.scheduled@[k].tenant_id) {
        (Some(eid), Some(tid)) => match (exec_lookup(s.executions@, eid), tenant_lookup(
            s.tenants@,
            tid,
        )) {
            (Some(e), Some(t)) => e.executed_at < now - t.retain_for_days * 86_400,
            _ => false,
        },
        _ => false,
    })
}

/// Redacts the request with the given id, where one exists: its body becomes
/// `<deleted>` and its headers are emptied.
fn redact_request(store: &mut Store, rid: u64)
    requires
        old(store).wf(),
    ensures
        final(store).wf(),
        final(store).requests@.len() == old(store).requests@.len(),
        forall|i: int| 0 <= i < old(store).requests@.len() ==> {
            let r0 = #[trigger] old(store).requests@[i];
            let r1 = final(store).requests@[i];
            if r0.id == rid {
                r1.id == r0.id && r1.method == r0.method && r1.url == r0.url && r1.headers@.len()
                    == 0 && (r1.body matches Some(b) && b@ == "<deleted>"@)
            } else {
                r1 == r0
            }
        },
        final(store).scheduled == old(store).scheduled,
        final(store).tenants == old(store).tenants,
        final(store).one_offs == old(store).one_offs,
        final(store).cron_jobs == old(store).cron_jobs,
        final(store).responses == old(store).responses,
        final(store).executions == old(store).executions,
        final(store).workflows == old(store).workflows,
        final(store).workflow_executions == old(store).workflow_executions,
        final(store).workflow_dependencies == old(store).workflow_dependencies,
        final(store).next_id == old(store).next_id,
{
    let ghost s0 = *old(store);
    proof {
        reveal_strlit("<deleted>");
    }
    let mut i: usize = 0;
    while i < store.requests.len()
        invariant
            s0.wf(),
            i <= s0.requests@.len(),
            store.requests@.len() == s0.requests@.len(),
            forall|m: int| 0 <= m < i ==> {
                let r0 = #[trigger] s0.requests@[m];
                let r1 = store.requests@[m];
                if r0.id == rid {
                    r1.id == r0.id && r1.method == r0.method && r1.url == r0.url
                        && r1.headers@.len() == 0 && (r1.body matches Some(b) && b@
                        == "<deleted>"@)
                } else {
                    r1 == r0
                }
            },
            forall|m: int| i <= m < s0.requests@.len() ==> store.requests@[m] == s0.requests@[m],
            store.scheduled == s0.scheduled,
            store.tenants == s0.tenants,
            store.one_offs == s0.one_offs,
            store.cron_jobs == s0.cron_jobs,
            store.responses == s0.responses,
            store.executions == s0.executions,
            store.workflows == s0.workflows,
            store.workflow_executions == s0.workflow_executions,
            store.workflow_dependencies == s0.workflow_dependencies,
            store.next_id == s0.next_id,
        decreases s0.requests@.len() - i,
    {
        if store.requests[i].id == rid {
            proof {
                reveal_strlit("<deleted>");
            }
            let ghost prev = store.requests@;
            let mut r = store.requests.remove(i);
            r.headers = Vec::new();
            let marker = String::new();
            r.body = Some(marker.concat("<deleted>"));
            store.requests.insert(i, r);
            assert(store.requests@ =~= prev.update(i as int, store.requests@[i as int]));
        }
        i = i + 1;
    }
    proof {
        let f = |r: HttpRequest| r.id;
        assert forall|m: int| 0 <= m < store.requests@.len() implies #[trigger] f(
            store.requests@[m],
        ) == f(s0.requests@[m]) by {
            assert(f(s0.requests@[m]) == s0.requests@[m].id);
        }
        assert(crate::store::distinct_ids(store.requests@, f));
        assert(crate::store::ids_below(store.requests@, f, store.next_id));
    }
}

/// Redacts the response with the given id, where one exists.
fn redact_response(store: &mut Store, rid: u64)
    requires
        old(store).wf(),
    ensures
        final(store).wf(),
        final(store).responses@.len() == old(store).responses@.len(),
        forall|i: int| 0 <= i < old(store).responses@.len() ==> {
            let r0 = #[trigger] old(store).responses@[i];
            let r1 = final(store).responses@[i];
            if r0.id == rid {
                r1.id == r0.id && r1.status == r0.status && r1.headers@.len() == 0 && r1.body@
                    == "<deleted>"@
            } else {
                r1 == r0
            }
        },
        final(store).scheduled == old(store).scheduled,
        final(store).tenants == old(store).tenants,
        final(store).one_offs == old(store).one_offs,
        final(store).cron_jobs == old(store).cron_jobs,
        final(store).requests == old(store).requests,
        final(store).executions == old(store).executions,
        final(store).workflows == old(store).workflows,
        final(store).workflow_executions == old(store).workflow_executions,
        final(store).workflow_dependencies == old(store).workflow_dependencies,
        final(store).next_id == old(store).next_id,
{
    let ghost s0 = *old(store);
    let mut i: usize = 0;
    while i < store.responses.len()
        invariant
            s0.wf(),
            i <= s0.responses@.len(),
            store.responses@.len() == s0.responses@.len(),
            forall|m: int| 0 <= m < i ==> {
                let r0 = #[trigger] s0.responses@[m];
                let r1 = store.responses@[m];
                if r0.id == rid {
                    r1.id == r0.id && r1.status == r0.status && r1.headers@.len() == 0 && r1.body@
                        == "<deleted>"@
                } else {
                    r1 == r0
                }
            },
            forall|m: int| i <= m < s0.responses@.len() ==> store.responses@[m] == s0.responses@[m],
            store.scheduled == s0.scheduled,
            store.tenants == s0.tenants,
            store.one_offs == s0.one_offs,
            store.cron_jobs == s0.cron_jobs,
            store.requests == s0.requests,
            store.executions == s0.executions,
            store.workflows == s0.workflows,
            store.workflow_executions == s0.workflow_executions,
            store.workflow_dependencies == s0.workflow_dependencies,
            store.next_id == s0.next_id,
        decreases s0.responses@.len() - i,
    {
        if store.responses[i].id == rid {
            proof {
                reveal_strlit("<deleted>");
            }
            let ghost prev = store.responses@;
            let mut r = store.responses.remove(i);
            r.headers = Vec::new();
            let marker = String::new();
            r.body = marker.concat("<deleted>");
            store.responses.insert(i, r);
            assert(store.responses@ =~= prev.update(i as int, store.responses@[i as int]));
        }
        i = i + 1;
    }
    proof {
        let f = |r: HttpResponse| r.id;
        assert forall|m: int| 0 <= m < store.responses@.len() implies #[trigger] f(
            store.responses@[m],
        ) == f(s0.responses@[m]) by {
            assert(f(s0.responses@[m]) == s0.responses@[m].id);
        }
        assert(crate::store::distinct_ids(store.responses@, f));
        assert(crate::store::ids_below(store.responses@, f, store.next_id));
    }
}

/// The scheduled-row retention sweeper.
pub struct ScheduledPastRetention;

impl ScheduledPastRetention {
    /// One sweeper transaction: pick an executed, tenant-owned, live
    /// scheduled row whose execution is older than the tenant's retention;
    /// soft-delete it and redact the sent request and the response.
    pub fn run_once(store: &mut Store, now: i64, reached_end: &mut bool)
        requires
            old(store).wf(),
            0 <= now <= MAX_TS,
        ensures
            final(store).wf(),
            (forall|k: int| !scheduled_retention_candidate(*old(store), k, now)) ==> *final(store)
                == *old(store) && *final(reached_end),
            (exists|k: int| scheduled_retention_candidate(*old(store), k, now)) ==> exists|k: int|
                #![trigger old(store).scheduled@[k]]
                {
                    &&& scheduled_retention_candidate(*old(store), k, now)
                    &&& final(store).scheduled@ == old(store).scheduled@.update(
                        k,
                        ScheduledJob { deleted_at: Some(now), ..old(store).scheduled@[k] },
                    )
                    // The execution's request and response payloads are
                    // redacted: body replaced, headers emptied; every other
                    // payload row is untouched.
                    &&& ({
                        let e = crate::retry::execution_of(*old(store), old(store).scheduled@[k]);
                        &&& final(store).requests@.len() == old(store).requests@.len()
                        &&& (forall|m: int| 0 <= m < old(store).requests@.len() ==> {
                            let r0 = #[trigger] old(store).requests@[m];
                            let r1 = final(store).requests@[m];
                            if r0.id == e.request_id {
                                r1.id == r0.id && r1.method == r0.method && r1.url == r0.url
                                    && r1.headers@.len() == 0 && (r1.body matches Some(b) && b@
                                    == "<deleted>"@)
                            } else {
                                r1 == r0
                            }
                        })
                        &&& (match e.response_id {
                            Some(rid) => {
                                &&& final(store).responses@.len() == old(store).responses@.len()
                                &&& (forall|m: int| 0 <= m < old(store).responses@.len() ==> {
                                    let r0 = #[trigger] old(store).responses@[m];
                                    let r1 = final(store).responses@[m];
                                    if r0.id == rid {
                                        r1.id == r0.id && r1.status == r0.status
                                            && r1.headers@.len() == 0 && r1.body@ == "<deleted>"@
                                    } else {
                                        r1 == r0
                                    }
                                })
                            },
                            None => final(store).responses == old(store).responses,
                        })
                    })
                },
            final(store).tenants == old(store).tenants,
            final(store).one_offs == old(store).one_offs,
            final(store).cron_jobs == old(store).cron_jobs,
            final(store).executions == old(store).executions,
            final(store).workflows == old(store).workflows,
            final(store).workflow_executions == old(store).workflow_executions,
            final(store).workflow_dependencies == old(store).workflow_dependencies,
            final(store).next_id == old(store).next_id,
    {
        let ghost s0 = *old(store);
        let mut k: usize = 0;
        let n = store.scheduled.len();
        let mut found: usize = n;
        while k < n
            invariant_except_break
                found == n,
            invariant
                *store == s0,
                s0.wf(),
                n == s0.scheduled@.len(),
                k <= n,
                0 <= now <= MAX_TS,
                forall|i: int| 0 <= i < k ==> !scheduled_retention_candidate(s0, i, now),
            ensures
                *store == s0,
                found <= n,
                found == n ==> forall|i: int| !scheduled_retention_candidate(s0, i, now),
                found < n ==> scheduled_retention_candidate(s0, found as int, now),
            decreases n - k,
        {
            let mut is_cand = store.scheduled[k].deleted_at.is_none();
            if is_cand {
                match (store.scheduled[k].execution_id, store.scheduled[k].tenant_id) {
                    (Some(eid), Some(tid)) => {
                        let fe = store.find_execution(eid);
                        let ft = store.find_tenant(tid);
                        match (fe, ft) {
                            (Some(ei), Some(ti)) => {
                                proof {
                                    lemma_exec_lookup_unique(store.executions@, ei as int);
                                    lemma_tenant_lookup_unique(store.tenants@, ti as int);
                                }
                                assert(crate::store::tenant_ok(s0.tenants@[ti as int]));
                                assert(crate::store::exec_ok(s0.executions@[ei as int]));
                                let cutoff = now - store.tenants[ti].retain_for_days * 86_400;
                                is_cand = store.executions[ei].executed_at < cutoff;
                            },
                            _ => {
                                proof {
                                    if ft is None {
                                        assert(tenant_lookup(s0.tenants@, tid) is None);
                                    }
                                }
                                is_cand = false;
                            },
                        }
                    },
                    _ => {
                        is_cand = false;
                    },
                }
            }
            if is_cand {
                found = k;
                assert(scheduled_retention_candidate(s0, k as int, now));
                break;
            }
            assert(!scheduled_retention_candidate(s0, k as int, now));
            k = k + 1;
        }
        if found == n {
            *reached_end = true;
            return;
        }
        let eid = store.scheduled[found].execution_id.unwrap();
        let ei = store.find_execution(eid).unwrap();
        proof {
            lemma_exec_lookup_unique(store.executions@, ei as int);
            assert(crate::retry::execution_of(s0, s0.scheduled@[found as int])
                == s0.executions@[ei as int]);
        }
        let req_id = store.executions[ei].request_id;
        let res_id = store.executions[ei].response_id;

        let ghost pre = store.scheduled@;
        let mut row = store.scheduled.remove(found);
        row.deleted_at = Some(now);
        store.scheduled.insert(found, row);
        assert(store.scheduled@ =~= pre.update(
            found as int,
            ScheduledJob { deleted_at: Some(now), ..s0.scheduled@[found as int] },
        ));
        proof {
            let f = |j: ScheduledJob| j.id;
            assert forall|m: int| 0 <= m < store.scheduled@.len() implies #[trigger] f(
                store.scheduled@[m],
            ) == f(s0.scheduled@[m]) by {
                assert(f(s0.scheduled@[m]) == s0.scheduled@[m].id);
            }
            assert(crate::store::distinct_ids(store.scheduled@, f));
            assert(crate::store::ids_below(store.scheduled@, f, store.next_id));
            assert forall|m: int| 0 <= m < store.scheduled@.len() implies crate::store::sj_ok(
                #[trigger] store.scheduled@[m],
            ) by {
                assert(crate::store::sj_ok(s0.scheduled@[m]));
            }
        }
        redact_request(store, req_id);
        match res_id {
            Some(rid) => {
                redact_response(store, rid);
            },
            None => {},
        }
    }
}

/// The one-off retention sweeper.
pub struct OneOffPastRetention;

/// The one-off at index `k` is swept at `now`: live, owns at least one
/// scheduled row, and every one of its rows was deleted more than three
/// hours ago.
pub open spec fn one_off_retention_candidate(s: Store, k: int, now: i64) -> bool {
    &&& 0 <= k < s.one_offs@.len()
    &&& s.one_offs@[k].deleted_at is None
    &&& (exists|i: int| 0 <= i < s.scheduled@.len() && (#[trigger] s.scheduled@[i]).one_off_job_id
        == Some(s.one_offs@[k].id))
    &&& (forall|i: int| 0 <= i < s.scheduled@.len() && (#[trigger] s.scheduled@[i]).one_off_job_id
        == Some(s.one_offs@[k].id) ==> (s.scheduled@[i].deleted_at matches Some(d) && d < now
        - ONE_OFF_RETENTION_SECS))
}

impl OneOffPastRetention {
    /// One sweeper transaction: pick a live one-off whose scheduled rows
    /// were all deleted more than three hours ago; soft-delete it and redact
    /// its request payload.
    pub fn run_once(store: &mut Store, now: i64, reached_end: &mut bool)
        requires
            old(store).wf(),
            0 <= now <= MAX_TS,
        ensures
            final(store).wf(),
            (forall|k: int| !one_off_retention_candidate(*old(store), k, now)) ==> *final(store)
                == *old(store) && *final(reached_end),
            (exists|k: int| one_off_retention_candidate(*old(store), k, now)) ==> exists|k: int|
                #![trigger old(store).one_offs@[k]]
                {
                    &&& one_off_retention_candidate(*old(store), k, now)
                    &&& final(store).one_offs@ == old(store).one_offs@.update(
                        k,
                        crate::store::OneOffJob {
                            deleted_at: Some(now),
                            ..old(store).one_offs@[k]
                        },
                    )
                    // The definition's request payload is redacted: body
                    // replaced, headers emptied; every other row untouched.
                    &&& final(store).requests@.len() == old(store).requests@.len()
                    &&& (forall|m: int| 0 <= m < old(store).requests@.len() ==> {
                        let r0 = #[trigger] old(store).requests@[m];
                        let r1 = final(store).requests@[m];
                        if r0.id == old(store).one_offs@[k].request_id {
                            r1.id == r0.id && r1.method == r0.method && r1.url == r0.url
                                && r1.headers@.len() == 0 && (r1.body matches Some(b) && b@
                                == "<deleted>"@)
                        } else {
                            r1 == r0
                        }
                    })
                },
            final(store).scheduled == old(store).scheduled,
            final(store).tenants == old(store).tenants,
            final(store).cron_jobs == old(store).cron_jobs,
            final(store).responses == old(store).responses,
            final(store).executions == old(store).executions,
            final(store).workflows == old(store).workflows,
            final(store).workflow_executions == old(store).workflow_executions,
            final(store).workflow_dependencies == old(store).workflow_dependencies,
            final(store).next_id == old(store).next_id,
    {
        let ghost s0 = *old(store);
        let mut k: usize = 0;
        let n = store.one_offs.len();
        let mut found: usize = n;
        while k < n
            invariant_except_break
                found == n,
            invariant
                *store == s0,
                s0.wf(),
                n == s0.one_offs@.len(),
                k <= n,
                0 <= now <= MAX_TS,
                forall|i: int| 0 <= i < k ==> !one_off_retention_candidate(s0, i, now),
            ensures
                *store == s0,
                found <= n,
                found == n ==> forall|i: int| !one_off_retention_candidate(s0, i, now),
                found < n ==> one_off_retention_candidate(s0, found as int, now),
            decreases n - k,
        {
            let mut is_cand = store.one_offs[k].deleted_at.is_none();
            if is_cand {
                let oid = store.one_offs[k].id;
                let mut any = false;
                let mut all_old = true;
                let mut i: usize = 0;
                let ns = store.scheduled.len();
                while i < ns
                    invariant
                        *store == s0,
                        ns == s0.scheduled@.len(),
                        i <= ns,
                        0 <= now <= MAX_TS,
                        any == exists|m: int|
                            0 <= m < i && (#[trigger] s0.scheduled@[m]).one_off_job_id == Some(oid),
                        all_old == forall|m: int|
                            0 <= m < i && (#[trigger] s0.scheduled@[m]).one_off_job_id == Some(oid)
                                ==> (s0.scheduled@[m].deleted_at matches Some(d) && d < now
                                - ONE_OFF_RETENTION_SECS),
                    decreases ns - i,
                {
                    let mine = match store.scheduled[i].one_off_job_id {
                        Some(o) => o == oid,
                        None => false,
                    };
                    if mine {
                        assert(s0.scheduled@[i as int].one_off_job_id == Some(oid));
                        any = true;
                        let old_enough = match store.scheduled[i].deleted_at {
                            Some(d) => d < now - ONE_OFF_RETENTION_SECS,
                            None => false,
                        };
                        if !old_enough {
                            all_old = false;
                        }
                    }
                    i = i + 1;
                }
                is_cand = any && all_old;
            }
            if is_cand {
                found = k;
                assert(one_off_retention_candidate(s0, k as int, now));
                break;
            }
            assert(!one_off_retention_candidate(s0, k as int, now));
            k = k + 1;
        }
        if found == n {
            *reached_end = true;
            return;
        }
        let req_id = store.one_offs[found].request_id;
        let ghost pre = store.one_offs@;
        let mut job = store.one_offs.remove(found);
        job.deleted_at = Some(now);
        store.one_offs.insert(found, job);
        assert(store.one_offs@ =~= pre.update(
            found as int,
            crate::store::OneOffJob { deleted_at: Some(now), ..s0.one_offs@[found as int] },
        ));
        proof {
            let f = |j: crate::store::OneOffJob| j.id;
            assert forall|m: int| 0 <= m < store.one_offs@.len() implies #[trigger] f(
                store.one_offs@[m],
            ) == f(s0.one_offs@[m]) by {
                assert(f(s0.one_offs@[m]) == s0.one_offs@[m].id);
            }
            assert(crate::store::distinct_ids(store.one_offs@, f));
            assert(crate::store::ids_below(store.one_offs@, f, store.next_id));
            assert forall|m: int| 0 <= m < store.one_offs@.len() implies crate::store::oo_ok(
                #[trigger] store.one_offs@[m],
            ) by {
                assert(crate::store::oo_ok(s0.one_offs@[m]));
            }
        }
        redact_request(store, req_id);
    }
}

} // verus!
