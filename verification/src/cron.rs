//! Cron expander: materializes the upcoming fire times of a cron job,
//! bounded by backlog and horizon.
//!
//! A job is expandable while it is live, has no parse error, its unexecuted
//! backlog is under sixty rows and that backlog reaches at most ten minutes
//! ahead. Expansion inserts fire times until the backlog holds sixty rows or
//! the next time lies more than fifteen minutes ahead, so after the expander
//! runs to idle every cron job's backlog is at most sixty rows, none further
//! than fifteen minutes out.

use vstd::prelude::*;

use crate::ids::shard_hash;
use crate::ids::spec_shard_hash;
use crate::store::CronJob;
use crate::store::ScheduledJob;
use crate::store::Store;
use crate::store::MAX_TS;

verus! {

/// Backlog cap: a cron job keeps at most this many unexecuted rows.
pub const CRON_BACKLOG_CAP: usize = 60;

/// Candidate horizon: a job whose backlog reaches further than this is not
/// expanded, in seconds.
pub const CRON_CANDIDATE_HORIZON_SECS: i64 = 600;

/// Expansion horizon: no fire time further ahead than this is inserted, in
/// seconds.
pub const CRON_EXPAND_HORIZON_SECS: i64 = 900;

/// Whether croner (five or six fields, seconds optional) accepts a cron
/// expression; a pure function of the text.
pub uninterp spec fn cron_accepts(expr: Seq<char>) -> bool;

/// The next instant matching the expression strictly after `after`, where
/// the expression parses and a match exists within croner's year range; a
/// pure function of the expression and the instant.
pub uninterp spec fn cron_next(expr: Seq<char>, after: int) -> Option<i64>;

/// Relies on croner's `CronParser` with optional seconds: whether the
/// expression parses depends on its text alone.
#[verifier::external_body]
pub fn cron_expr_accepted(expr: &str) -> (r: bool)
    ensures
        r == cron_accepts(expr@),
{
    let parser = croner::parser::CronParser::builder()
        .seconds(croner::parser::Seconds::Optional)
        .build();
    parser.parse(expr).is_ok()
}

/// Relies on croner's `Cron::find_next_occurrence` with `inclusive = false`:
/// the result is the first matching instant strictly after the given one, a
/// pure function of the expression and the instant, and croner searches no
/// further than its year limit (year 5000), which lies inside `MAX_TS`. An
/// expression that does not parse yields nothing.
#[verifier::external_body]
pub fn cron_next_occurrence(expr: &str, after: i64) -> (r: Option<i64>)
    requires
        0 <= after <= MAX_TS,
    ensures
        r == cron_next(expr@, after as int),
        !cron_accepts(expr@) ==> r is None,
        (r matches Some(t) ==> after < t <= MAX_TS),
{
    let parser = croner::parser::CronParser::builder().seconds(
        croner::parser::Seconds::Optional,
    ).build();
    let cron = match parser.parse(expr) {
        Ok(c) => c,
        Err(_) => return None,
    };
    let from = chrono::DateTime::from_timestamp(after, 0)?;
    match cron.find_next_occurrence(&from, false) {
        Ok(next) => Some(next.timestamp()),
        Err(_) => None,
    }
}

/// Number of unexecuted scheduled rows owned by the cron job `cid`.
pub open spec fn cron_backlog(sched: Seq<ScheduledJob>, cid: u64) -> nat
    decreases sched.len(),
{
    if sched.len() == 0 {
        0
    } else {
        cron_backlog(sched.drop_last(), cid) + if sched.last().cron_job_id == Some(cid)
            && sched.last().execution_id is None {
            1nat
        } else {
            0nat
        }
    }
}

/// Appending one row changes only the backlog of the cron job it names.
pub proof fn lemma_cron_backlog_push(sched: Seq<ScheduledJob>, r: ScheduledJob, cid: u64)
    ensures
        cron_backlog(sched.push(r), cid) == cron_backlog(sched, cid) + if r.cron_job_id == Some(
            cid,
        ) && r.execution_id is None {
            1nat
        } else {
            0nat
        },
{
    assert(sched.push(r).drop_last() =~= sched);
    assert(sched.push(r).last() == r);
}

/// Every unexecuted row of the cron job fires no later than the bound.
pub open spec fn backlog_within(sched: Seq<ScheduledJob>, cid: u64, bound: i64) -> bool {
    forall|i: int| 0 <= i < sched.len() && (#[trigger] sched[i]).cron_job_id == Some(cid)
        && sched[i].execution_id is None ==> sched[i].scheduled_at <= bound
}

/// The cron job at index `k` is expandable at `now`: live, no error, backlog
/// under the cap and reaching at most ten minutes ahead.
pub open spec fn cron_candidate(s: Store, k: int, now: i64) -> bool {
    &&& 0 <= k < s.cron_jobs@.len()
    &&& s.cron_jobs@[k].deleted_at is None
    &&& s.cron_jobs@[k].error is None
    &&& cron_backlog(s.scheduled@, s.cron_jobs@[k].id) < CRON_BACKLOG_CAP
    &&& backlog_within(s.scheduled@, s.cron_jobs@[k].id, (now + CRON_CANDIDATE_HORIZON_SECS) as i64)
}

/// The greatest scheduled time of the job's non-retry rows, or `now` if that
/// is later or no such row exists: where this expansion starts.
pub open spec fn expand_start(sched: Seq<ScheduledJob>, cid: u64, now: i64) -> i64
    decreases sched.len(),
{
    if sched.len() == 0 {
        now
    } else {
        let rest = expand_start(sched.drop_last(), cid, now);
        if sched.last().cron_job_id == Some(cid) && sched.last().retry_for_id is None
            && sched.last().scheduled_at > rest {
            sched.last().scheduled_at
        } else {
            rest
        }
    }
}

/// The start never lies before `now`.
pub proof fn lemma_expand_start_ge_now(sched: Seq<ScheduledJob>, cid: u64, now: i64)
    ensures
        expand_start(sched, cid, now) >= now,
    decreases sched.len(),
{
    if sched.len() > 0 {
        lemma_expand_start_ge_now(sched.drop_last(), cid, now);
    }
}

/// The start never lies past the timestamp range: a cron job's own rows all
/// fire inside it.
pub proof fn lemma_expand_start_le_max(sched: Seq<ScheduledJob>, cid: u64, now: i64)
    requires
        now <= MAX_TS,
        forall|i: int| 0 <= i < sched.len() ==> crate::store::sj_ok(#[trigger] sched[i]),
    ensures
        expand_start(sched, cid, now) <= MAX_TS,
    decreases sched.len(),
{
    if sched.len() > 0 {
        assert forall|i: int| 0 <= i < sched.drop_last().len() implies crate::store::sj_ok(
            #[trigger] sched.drop_last()[i],
        ) by {
            assert(crate::store::sj_ok(sched[i]));
        }
        lemma_expand_start_le_max(sched.drop_last(), cid, now);
        assert(crate::store::sj_ok(sched[sched.len() - 1]));
    }
}

/// The n-th fire time of the expression strictly after `from` (0-based):
/// successive `cron_next` steps.
pub open spec fn nth_occurrence(expr: Seq<char>, from: i64, n: nat) -> Option<i64>
    decreases n,
{
    match cron_next(expr, from as int) {
        None => None,
        Some(u) => if n == 0 {
            Some(u)
        } else {
            nth_occurrence(expr, u, (n - 1) as nat)
        },
    }
}

/// Stepping the occurrence index once follows one `cron_next` step.
proof fn lemma_nth_occurrence_step(expr: Seq<char>, from: i64, n: nat, t: i64)
    requires
        nth_occurrence(expr, from, n) == Some(t),
    ensures
        nth_occurrence(expr, from, (n + 1) as nat) == cron_next(expr, t as int),
    decreases n,
{
    match cron_next(expr, from as int) {
        None => {
            assert(false);
        },
        Some(u) => {
            if n == 0 {
                assert(nth_occurrence(expr, from, 1nat) == nth_occurrence(expr, u, 0nat));
                assert(nth_occurrence(expr, u, 0nat) == cron_next(expr, u as int)) by {
                    match cron_next(expr, u as int) {
                        None => {},
                        Some(_) => {},
                    }
                }
            } else {
                lemma_nth_occurrence_step(expr, u, (n - 1) as nat, t);
            }
        },
    }
}

/// The cron expander worker.
pub struct CronScheduler;

impl CronScheduler {
    /// One expander transaction: pick an expandable cron job; on a parse
    /// failure record the error (disabling the job); else insert successive
    /// fire times from the greater of its latest non-retry row and `now`,
    /// stopping once the backlog holds sixty rows or the next time lies more
    /// than fifteen minutes ahead.
    ///
    /// After this runs, the picked job's backlog is at most sixty rows and
    /// every unexecuted row fires within fifteen minutes of `now`.
    pub fn run_once(store: &mut Store, now: i64, reached_end: &mut bool)
        requires
            old(store).wf(),
            0 <= now <= MAX_TS,
            old(store).next_id < u64::MAX - 64,
        ensures
            final(store).wf(),
            (forall|k: int| !cron_candidate(*old(store), k, now)) ==> *final(store) == *old(store)
                && *final(reached_end),
            (exists|k: int| cron_candidate(*old(store), k, now)) ==> exists|k: int|
                #![trigger old(store).cron_jobs@[k]]
                {
                    &&& cron_candidate(*old(store), k, now)
                    &&& (if !cron_accepts(old(store).cron_jobs@[k].schedule@) {
                        // Parse failure: the job is disabled.
                        &&& final(store).cron_jobs@ == old(store).cron_jobs@.update(
                            k,
                            CronJob { error: final(store).cron_jobs@[k].error, ..old(store).cron_jobs@[k] },
                        )
                        &&& final(store).cron_jobs@[k].error is Some
                        &&& final(store).scheduled == old(store).scheduled
                    } else {
                        // Expansion: rows appended, backlog capped, horizon
                        // kept.
                        &&& final(store).cron_jobs == old(store).cron_jobs
                        &&& final(store).scheduled@.len() >= old(store).scheduled@.len()
                        &&& final(store).scheduled@.subrange(
                            0,
                            old(store).scheduled@.len() as int,
                        ) == old(store).scheduled@
                        &&& (forall|i: int| old(store).scheduled@.len() <= i < final(store).scheduled@.len() ==> {
                            let r = #[trigger] final(store).scheduled@[i];
                            &&& r.cron_job_id == Some(old(store).cron_jobs@[k].id)
                            &&& r.one_off_job_id is None
                            &&& r.workflow_execution_id is None
                            &&& r.retry_for_id is None
                            &&& r.lock_nonce is None
                            &&& r.execution_id is None
                            &&& r.region == old(store).cron_jobs@[k].region
                            &&& r.tenant_id == old(store).cron_jobs@[k].tenant_id
                            &&& r.request_id == old(store).cron_jobs@[k].request_id
                            &&& now < r.scheduled_at <= now + 900
                        })
                        // Rows are inserted in strictly increasing time order.
                        &&& (forall|i: int, j: int| old(store).scheduled@.len() <= i < j < final(store).scheduled@.len() ==> (#[trigger] final(store).scheduled@[i]).scheduled_at
                            < (#[trigger] final(store).scheduled@[j]).scheduled_at)
                        // The backlog cap holds afterwards.
                        &&& cron_backlog(final(store).scheduled@, old(store).cron_jobs@[k].id)
                            <= CRON_BACKLOG_CAP
                        &&& backlog_within(
                            final(store).scheduled@,
                            old(store).cron_jobs@[k].id,
                            (now + 900) as i64,
                        )
                        // The appended times are the expression's successive
                        // fire times from the expansion start, and expansion
                        // stops only when the backlog cap is reached or the
                        // next fire time is absent or past the horizon.
                        &&& ({
                            let expr = old(store).cron_jobs@[k].schedule@;
                            let cid = old(store).cron_jobs@[k].id;
                            let start = expand_start(old(store).scheduled@, cid, now);
                            let m = final(store).scheduled@.len() - old(store).scheduled@.len();
                            &&& (forall|x: int| 0 <= x < m ==> Some(
                                (#[trigger] final(store).scheduled@[old(store).scheduled@.len()
                                    + x]).scheduled_at,
                            ) == nth_occurrence(expr, start, x as nat))
                            &&& (m + cron_backlog(old(store).scheduled@, cid) == CRON_BACKLOG_CAP
                                || (match nth_occurrence(expr, start, m as nat) {
                                None => true,
                                Some(u) => u > now + CRON_EXPAND_HORIZON_SECS,
                            }))
                        })
                    })
                },
            final(store).tenants == old(store).tenants,
            final(store).one_offs == old(store).one_offs,
            final(store).requests == old(store).requests,
            final(store).responses == old(store).responses,
            final(store).executions == old(store).executions,
            final(store).workflows == old(store).workflows,
            final(store).workflow_executions == old(store).workflow_executions,
            final(store).workflow_dependencies == old(store).workflow_dependencies,
    {
        let ghost s0 = *old(store);
        // Find an expandable job.
        let mut k: usize = 0;
        let n = store.cron_jobs.len();
        let mut found: usize = n;
        while k < n
            invariant_except_break
                found == n,
            invariant
                *store == s0,
                n == s0.cron_jobs@.len(),
                k <= n,
                0 <= now <= MAX_TS,
                forall|i: int| 0 <= i < k ==> !cron_candidate(s0, i, now),
            ensures
                *store == s0,
                found <= n,
                found == n ==> forall|i: int| !cron_candidate(s0, i, now),
                found < n ==> cron_candidate(s0, found as int, now),
            decreases n - k,
        {
            let live = store.cron_jobs[k].deleted_at.is_none() && store.cron_jobs[k].error.is_none();
            if live {
                let cid = store.cron_jobs[k].id;
                // Count the backlog and check its horizon.
                let mut backlog: usize = 0;
                let mut within = true;
                let mut i: usize = 0;
                let ns = store.scheduled.len();
                while i < ns
                    invariant
                        *store == s0,
                        ns == s0.scheduled@.len(),
                        i <= ns,
                        backlog <= i,
                        0 <= now <= MAX_TS,
                        backlog == cron_backlog(s0.scheduled@.subrange(0, i as int), cid),
                        within == backlog_within(
                            s0.scheduled@.subrange(0, i as int),
                            cid,
                            (now + CRON_CANDIDATE_HORIZON_SECS) as i64,
                        ),
                    decreases ns - i,
                {
                    assert(s0.scheduled@.subrange(0, i as int + 1).drop_last() =~= s0.scheduled@.subrange(
                        0,
                        i as int,
                    ));
                    assert(s0.scheduled@.subrange(0, i as int + 1).last() == s0.scheduled@[i as int]);
                    let ghost pre = s0.scheduled@.subrange(0, i as int);
                    let ghost cur = s0.scheduled@.subrange(0, i as int + 1);
                    let mine = (match store.scheduled[i].cron_job_id {
                        Some(c) => c == cid,
                        None => false,
                    }) && store.scheduled[i].execution_id.is_none();
                    if mine {
                        backlog = backlog + 1;
                        if store.scheduled[i].scheduled_at > now + CRON_CANDIDATE_HORIZON_SECS {
                            within = false;
                        }
                    }
                    proof {
                        assert forall|m: int|
                            0 <= m < cur.len() && (#[trigger] cur[m]).cron_job_id == Some(cid)
                                && cur[m].execution_id is None implies cur[m] == (if m < i as int {
                            pre[m]
                        } else {
                            s0.scheduled@[i as int]
                        }) by {}
                    }
                    i = i + 1;
                }
                assert(s0.scheduled@.subrange(0, ns as int) =~= s0.scheduled@);
                if backlog < CRON_BACKLOG_CAP && within {
                    found = k;
                    assert(cron_candidate(s0, k as int, now));
                    break;
                }
            }
            assert(!cron_candidate(s0, k as int, now));
            k = k + 1;
        }
        if found == n {
            *reached_end = true;
            return;
        }
        let cid = store.cron_jobs[found].id;
        let schedule = store.cron_jobs[found].schedule.clone();

        // A parse failure disables the job.
        if !cron_expr_accepted(schedule.as_str()) {
            let mut job = store.cron_jobs.remove(found);
            let msg = String::new();
            job.error = Some(msg.concat("not a valid cron expression"));
            store.cron_jobs.insert(found, job);
            assert(store.cron_jobs@ =~= s0.cron_jobs@.update(
                found as int,
                CronJob { error: store.cron_jobs@[found as int].error, ..s0.cron_jobs@[found as int] },
            ));
            proof {
                let f = |c: CronJob| c.id;
                assert forall|m: int| 0 <= m < store.cron_jobs@.len() implies #[trigger] f(
                    store.cron_jobs@[m],
                ) == f(s0.cron_jobs@[m]) by {
                    assert(f(s0.cron_jobs@[m]) == s0.cron_jobs@[m].id);
                }
                assert(crate::store::distinct_ids(store.cron_jobs@, f));
                assert(crate::store::ids_below(store.cron_jobs@, f, store.next_id));
            }
            return;
        }

        // Count the backlog again to size the budget.
        let mut backlog: usize = 0;
        let mut i: usize = 0;
        let ns = store.scheduled.len();
        while i < ns
            invariant
                *store == s0,
                ns == s0.scheduled@.len(),
                i <= ns,
                backlog <= i,
                backlog == cron_backlog(s0.scheduled@.subrange(0, i as int), cid),
            decreases ns - i,
        {
            assert(s0.scheduled@.subrange(0, i as int + 1).drop_last() =~= s0.scheduled@.subrange(
                0,
                i as int,
            ));
            assert(s0.scheduled@.subrange(0, i as int + 1).last() == s0.scheduled@[i as int]);
            let mine = (match store.scheduled[i].cron_job_id {
                Some(c) => c == cid,
                None => false,
            }) && store.scheduled[i].execution_id.is_none();
            if mine {
                backlog = backlog + 1;
            }
            i = i + 1;
        }
        assert(s0.scheduled@.subrange(0, ns as int) =~= s0.scheduled@);
        let budget = CRON_BACKLOG_CAP - backlog;

        // Find where expansion starts.
        let mut start: i64 = now;
        let mut i: usize = 0;
        while i < ns
            invariant
                *store == s0,
                ns == s0.scheduled@.len(),
                i <= ns,
                start == expand_start(s0.scheduled@.subrange(0, i as int), cid, now),
            decreases ns - i,
        {
            assert(s0.scheduled@.subrange(0, i as int + 1).drop_last() =~= s0.scheduled@.subrange(
                0,
                i as int,
            ));
            assert(s0.scheduled@.subrange(0, i as int + 1).last() == s0.scheduled@[i as int]);
            let mine = (match store.scheduled[i].cron_job_id {
                Some(c) => c == cid,
                None => false,
            }) && store.scheduled[i].retry_for_id.is_none();
            if mine && store.scheduled[i].scheduled_at > start {
                start = store.scheduled[i].scheduled_at;
            }
            i = i + 1;
        }
        assert(s0.scheduled@.subrange(0, ns as int) =~= s0.scheduled@);
        proof {
            lemma_expand_start_ge_now(s0.scheduled@, cid, now);
            lemma_expand_start_le_max(s0.scheduled@, cid, now);
        }

        let region = store.cron_jobs[found].region.clone();
        let tenant_id = store.cron_jobs[found].tenant_id;
        let request_id = store.cron_jobs[found].request_id;
        let timeout_ms = store.cron_jobs[found].timeout_ms;
        let max_retries = store.cron_jobs[found].max_retries;
        let max_response_bytes = store.cron_jobs[found].max_response_bytes;

        let ghost exprg = schedule@;
        let ghost startg = start;
        let mut produced: usize = 0;
        let mut t: i64 = start;
        loop
            invariant
                s0.wf(),
                0 <= now <= MAX_TS,
                exprg == s0.cron_jobs@[found as int].schedule@,
                exprg == schedule@,
                startg == expand_start(s0.scheduled@, cid, now),
                startg <= MAX_TS,
                produced == 0 ==> t == startg,
                produced > 0 ==> Some(t) == nth_occurrence(exprg, startg, (produced - 1) as nat),
                forall|x: int| 0 <= x < produced ==> Some(
                    (#[trigger] store.scheduled@[s0.scheduled@.len() + x]).scheduled_at,
                ) == nth_occurrence(exprg, startg, x as nat),
                s0.next_id < u64::MAX - 64,
                found < s0.cron_jobs@.len(),
                cid == s0.cron_jobs@[found as int].id,
                region == s0.cron_jobs@[found as int].region,
                tenant_id == s0.cron_jobs@[found as int].tenant_id,
                request_id == s0.cron_jobs@[found as int].request_id,
                timeout_ms == s0.cron_jobs@[found as int].timeout_ms,
                max_retries == s0.cron_jobs@[found as int].max_retries,
                max_response_bytes == s0.cron_jobs@[found as int].max_response_bytes,
                crate::store::cj_ok(s0.cron_jobs@[found as int]),
                budget <= CRON_BACKLOG_CAP,
                backlog + budget == CRON_BACKLOG_CAP,
                backlog == cron_backlog(s0.scheduled@, cid),
                backlog_within(s0.scheduled@, cid, (now + CRON_CANDIDATE_HORIZON_SECS) as i64),
                produced <= budget,
                now <= t <= MAX_TS,
                produced > 0 ==> t <= now + 900,
                store.wf(),
                store.next_id <= s0.next_id + produced,
                store.scheduled@.len() == s0.scheduled@.len() + produced,
                store.scheduled@.subrange(0, s0.scheduled@.len() as int) == s0.scheduled@,
                cron_backlog(store.scheduled@, cid) == backlog + produced,
                forall|i: int| s0.scheduled@.len() <= i < store.scheduled@.len() ==> {
                    let r = #[trigger] store.scheduled@[i];
                    &&& r.cron_job_id == Some(cid)
                    &&& r.one_off_job_id is None
                    &&& r.workflow_execution_id is None
                    &&& r.retry_for_id is None
                    &&& r.lock_nonce is None
                    &&& r.execution_id is None
                    &&& r.region == region
                    &&& r.tenant_id == tenant_id
                    &&& r.request_id == request_id
                    &&& now < r.scheduled_at <= now + 900
                    &&& r.scheduled_at <= t
                },
                forall|i: int, j: int| s0.scheduled@.len() <= i < j < store.scheduled@.len() ==> (
                #[trigger] store.scheduled@[i]).scheduled_at < (
                #[trigger] store.scheduled@[j]).scheduled_at,
                store.cron_jobs == s0.cron_jobs,
                store.tenants == s0.tenants,
                store.one_offs == s0.one_offs,
                store.requests == s0.requests,
                store.responses == s0.responses,
                store.executions == s0.executions,
                store.workflows == s0.workflows,
                store.workflow_executions == s0.workflow_executions,
                store.workflow_dependencies == s0.workflow_dependencies,
            ensures
                store.scheduled@.len() == s0.scheduled@.len() + produced,
                cron_backlog(store.scheduled@, cid) == backlog + produced,
                produced <= budget,
                forall|x: int| 0 <= x < produced ==> Some(
                    (#[trigger] store.scheduled@[s0.scheduled@.len() + x]).scheduled_at,
                ) == nth_occurrence(exprg, startg, x as nat),
                produced == budget || (match nth_occurrence(exprg, startg, produced as nat) {
                    None => true,
                    Some(u) => u > now + CRON_EXPAND_HORIZON_SECS,
                }),
            decreases budget - produced,
        {
            if produced >= budget {
                break;
            }
            let next = cron_next_occurrence(schedule.as_str(), t);
            proof {
                // The wrapper's answer is the next occurrence in the chain.
                if produced > 0 {
                    lemma_nth_occurrence_step(exprg, startg, (produced - 1) as nat, t);
                    assert(nth_occurrence(exprg, startg, produced as nat) == cron_next(
                        exprg,
                        t as int,
                    ));
                } else {
                    assert(nth_occurrence(exprg, startg, 0nat) == cron_next(exprg, t as int)) by {
                        match cron_next(exprg, t as int) {
                            None => {},
                            Some(_) => {},
                        }
                    }
                }
            }
            let nt = match next {
                None => {
                    break;
                },
                Some(x) => x,
            };
            if nt > now + CRON_EXPAND_HORIZON_SECS {
                break;
            }
            assert(Some(nt) == nth_occurrence(exprg, startg, produced as nat));
            let id = store.alloc_id();
            let row = ScheduledJob {
                id,
                hash: shard_hash(id),
                region: region.clone(),
                scheduled_at: nt,
                tenant_id,
                one_off_job_id: None,
                cron_job_id: Some(cid),
                workflow_execution_id: None,
                retry_for_id: None,
                request_id,
                timeout_ms,
                max_retries,
                max_response_bytes,
                times_locked: 0,
                lock_nonce: None,
                execution_id: None,
                deleted_at: None,
            };
            let ghost pre = store.scheduled@;
            store.scheduled.push(row);
            proof {
                lemma_cron_backlog_push(pre, row, cid);
                assert(store.scheduled@.subrange(0, s0.scheduled@.len() as int) =~= pre.subrange(
                    0,
                    s0.scheduled@.len() as int,
                ));
            }
            produced = produced + 1;
            t = nt;
        }
        proof {
            // P5: the backlog stays within the cap and the horizon.
            assert(cron_backlog(store.scheduled@, cid) <= CRON_BACKLOG_CAP);
            assert forall|i: int|
                0 <= i < store.scheduled@.len() && (#[trigger] store.scheduled@[i]).cron_job_id
                    == Some(cid) && store.scheduled@[i].execution_id is None implies
                store.scheduled@[i].scheduled_at <= now + 900 by {
                if i < s0.scheduled@.len() {
                    assert(store.scheduled@[i] == s0.scheduled@[i]);
                }
            }
        }
    }
}

} // verus!
