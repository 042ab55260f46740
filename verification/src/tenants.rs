//! Tenant token refill, and the derivation of a tenant's refill pair from
//! its tokens-per-day rate.

use vstd::prelude::*;

use crate::store::tenant_ok;
use crate::store::Store;
use crate::store::Tenant;
use crate::store::MAX_TS;
use crate::store::PERIOD_MAX_SECS;
use crate::store::PERIOD_MIN_SECS;

verus! {

/// Milliseconds in a day.
pub const DAY_MS: i64 = 86_400_000;

/// Smallest refill period, in milliseconds.
pub const MIN_PERIOD_MS: i64 = 60_000;

/// Refill grace window: a refill more than this late is rebased on now.
pub const REFILL_LATE_SECS: i64 = 300;

/// The refill pair derived from a tokens-per-day rate: the smallest integer
/// increment that keeps the period at least one minute, and that period.
///
/// Returns `(increment, period_ms)` with
/// `period_ms == DAY_MS * increment / tokens_per_day`.
pub fn compute_increment_and_period(tokens_per_day: i32) -> (r: (i32, i64))
    requires
        1 <= tokens_per_day,
    ensures
        1 <= r.0,
        1440 * r.0 >= tokens_per_day,
        r.0 == 1 || 1440 * (r.0 - 1) < tokens_per_day,
        r.1 == (DAY_MS as int) * (r.0 as int) / (tokens_per_day as int),
        MIN_PERIOD_MS <= r.1 <= DAY_MS + MIN_PERIOD_MS,
{
    let tpd = tokens_per_day as i64;
    let increment: i64 = (tpd + 1439) / 1440;
    let period_ms: i64 = (86_400_000 * increment) / tpd;
    assert(1440 * increment >= tpd && (increment == 1 || 1440 * (increment - 1) < tpd))
        by (nonlinear_arith)
        requires
            increment == (tpd + 1439) / 1440 && 1 <= tpd,
    ;
    assert(60_000 <= period_ms <= 86_460_000) by (nonlinear_arith)
        requires
            period_ms == (86_400_000 * (increment as int)) / (tpd as int),
            1440 * increment >= tpd,
            increment == 1 || 1440 * (increment - 1) < tpd,
            1 <= increment,
            1 <= tpd,
    ;
    (increment as i32, period_ms)
}

/// A tenant is due for a refill: its refill instant passed and it is not at
/// its cap.
pub open spec fn refill_candidate(s: Store, k: int, now: i64) -> bool {
    &&& 0 <= k < s.tenants@.len()
    &&& s.tenants@[k].next_increment < now
    &&& s.tenants@[k].tokens < s.tenants@[k].max_tokens
}

/// The tenant row after one refill at `now`: tokens grow by the increment up
/// to the cap, and the next refill instant advances by at least one period.
pub open spec fn refilled_tenant(t: Tenant, now: i64) -> Tenant {
    let new_tokens = if t.tokens + t.increment <= t.max_tokens {
        (t.tokens + t.increment) as i32
    } else {
        t.max_tokens
    };
    let next = if new_tokens == t.max_tokens {
        (now + if t.period_secs >= REFILL_LATE_SECS {
            t.period_secs
        } else {
            REFILL_LATE_SECS
        }) as i64
    } else if now - t.next_increment > REFILL_LATE_SECS {
        (now + t.period_secs) as i64
    } else {
        (t.next_increment + t.period_secs) as i64
    };
    Tenant { tokens: new_tokens, next_increment: next, ..t }
}

/// One admission-relevant transition in a tenant's life: a dispatch call
/// leasing `count` of its rows (each row costs a token), or one refill at
/// `at`.
pub enum TenantEvent {
    Leased { count: nat },
    Refilled { at: i64 },
}

/// The tenant after one event.
pub open spec fn tenant_after_event(t: Tenant, e: TenantEvent) -> Tenant {
    match e {
        TenantEvent::Leased { count } => Tenant { tokens: (t.tokens - count) as i32, ..t },
        TenantEvent::Refilled { at } => refilled_tenant(t, at),
    }
}

/// The tenant after a sequence of events.
pub open spec fn tenant_after(t: Tenant, es: Seq<TenantEvent>) -> Tenant
    decreases es.len(),
{
    if es.len() == 0 {
        t
    } else {
        tenant_after_event(tenant_after(t, es.drop_last()), es.last())
    }
}

/// How many rows the events leased in total.
pub open spec fn leased_total(es: Seq<TenantEvent>) -> nat
    decreases es.len(),
{
    if es.len() == 0 {
        0
    } else {
        leased_total(es.drop_last()) + (match es.last() {
            TenantEvent::Leased { count } => count,
            TenantEvent::Refilled { .. } => 0nat,
        })
    }
}

/// How many refills the events contain.
pub open spec fn refills_in(es: Seq<TenantEvent>) -> nat
    decreases es.len(),
{
    if es.len() == 0 {
        0
    } else {
        refills_in(es.drop_last()) + (match es.last() {
            TenantEvent::Leased { .. } => 0nat,
            TenantEvent::Refilled { .. } => 1nat,
        })
    }
}

/// The events are ones the system can produce inside the window `[lo, hi)`:
/// dispatch never leases beyond the budget it finds, and a refill fires only
/// past the refill instant, below the cap, at a valid time inside the
/// window.
pub open spec fn events_admissible(t: Tenant, es: Seq<TenantEvent>, lo: i64, hi: i64) -> bool
    decreases es.len(),
{
    if es.len() == 0 {
        true
    } else {
        let tp = tenant_after(t, es.drop_last());
        &&& events_admissible(t, es.drop_last(), lo, hi)
        &&& (match es.last() {
            TenantEvent::Leased { count } => count <= tp.tokens,
            TenantEvent::Refilled { at } => {
                &&& lo <= at < hi
                &&& 0 <= at <= MAX_TS
                &&& tp.next_increment < at
                &&& tp.tokens < tp.max_tokens
            },
        })
    }
}

/// The inductive heart of the admission bound: along any admissible run the
/// leased rows plus the remaining budget never exceed the starting budget
/// plus one increment per refill, and each refill pushes the refill clock at
/// least one period further, so the clock keeps a floor of `lo` plus one
/// period per refill.
#[verifier::rlimit(100)]
pub proof fn lemma_admission_window_bound(t: Tenant, es: Seq<TenantEvent>, lo: i64, hi: i64)
    requires
        tenant_ok(t),
        t.next_increment >= lo,
        events_admissible(t, es, lo, hi),
    ensures
        tenant_ok(tenant_after(t, es)),
        tenant_after(t, es).increment == t.increment,
        tenant_after(t, es).period_secs == t.period_secs,
        tenant_after(t, es).max_tokens == t.max_tokens,
        tenant_after(t, es).next_increment >= lo + (refills_in(es) as int) * (
        t.period_secs as int),
        leased_total(es) + tenant_after(t, es).tokens <= t.tokens + (t.increment as int) * (
        refills_in(es) as int),
        refills_in(es) == 0 || ((refills_in(es) as int) - 1) * (t.period_secs as int) < hi - lo,
    decreases es.len(),
{
    if es.len() > 0 {
        let prefix = es.drop_last();
        lemma_admission_window_bound(t, prefix, lo, hi);
        let tp = tenant_after(t, prefix);
        let rp = refills_in(prefix) as int;
        let p = t.period_secs as int;
        let inc = t.increment as int;
        match es.last() {
            TenantEvent::Leased { count } => {
                assert(tenant_after(t, es) == Tenant { tokens: (tp.tokens - count) as i32, ..tp });
                assert(refills_in(es) == rp);
                assert(tenant_after(t, es).next_increment == tp.next_increment);
                assert((refills_in(es) as int) == rp);
                assert(tenant_after(t, es).next_increment >= lo + (refills_in(es) as int) * (
                t.period_secs as int)) by {
                    assert((refills_in(es) as int) * (t.period_secs as int) == rp * p);
                }
            },
            TenantEvent::Refilled { at } => {
                let tn = refilled_tenant(tp, at);
                assert(tenant_after(t, es) == tn);
                // A refill advances the clock by at least one period and
                // adds at most one increment.
                assert(tn.next_increment >= tp.next_increment + p);
                assert(tn.tokens <= tp.tokens + inc);
                assert(0 <= tn.tokens <= tn.max_tokens);
                assert((rp + 1) * p == rp * p + p) by (nonlinear_arith);
                assert(inc * (rp + 1) == inc * rp + inc) by (nonlinear_arith);
                assert(refills_in(es) == rp + 1);
                assert(tn.next_increment >= lo + (rp + 1) * p);
                assert((refills_in(es) as int) * (t.period_secs as int) == (rp + 1) * p);
                assert((t.increment as int) * (refills_in(es) as int) == inc * (rp + 1));
                // The refill fired inside the window, past a clock that
                // already carried the prefix's floor.
                assert(lo + rp * p <= tp.next_increment < at < hi);
                assert(rp * p < hi - lo);
            },
        }
    } else {
        assert(tenant_after(t, es) == t);
        assert(refills_in(es) == 0);
        assert((refills_in(es) as int) * (t.period_secs as int) == 0) by (nonlinear_arith)
            requires
                refills_in(es) == 0,
        ;
        assert((t.increment as int) * (refills_in(es) as int) == 0) by (nonlinear_arith)
            requires
                refills_in(es) == 0,
        ;
    }
}

/// Law: across any one-hour window that a tenant's refill clock does not
/// predate, dispatch grants the tenant at most its starting budget plus
/// `increment` rows per refill period that fits in the hour (rounded up).
pub proof fn lemma_hourly_admission_cap(t: Tenant, es: Seq<TenantEvent>, lo: i64)
    requires
        tenant_ok(t),
        0 <= lo <= MAX_TS,
        t.next_increment >= lo,
        events_admissible(t, es, lo, (lo + 3600) as i64),
    ensures
        leased_total(es) <= t.tokens + t.increment * ((3600 + t.period_secs - 1) as int
            / t.period_secs as int),
{
    lemma_admission_window_bound(t, es, lo, (lo + 3600) as i64);
    let r = refills_in(es) as int;
    let p = t.period_secs as int;
    let inc = t.increment as int;
    let q = (3600 + p - 1) / p;
    // The ceiling quotient covers every refill the window admits.
    assert(q * p >= 3600 && q >= 0) by (nonlinear_arith)
        requires
            q == (3600 + p - 1) / p && 60 <= p,
    ;
    if r > 0 {
        assert((r - 1) * p < 3600);
        assert(r <= q) by (nonlinear_arith)
            requires
                (r - 1) * p < 3600 && q * p >= 3600 && p >= 60 && r >= 1 && q >= 0,
        ;
    }
    assert(inc * r <= inc * q) by (nonlinear_arith)
        requires
            r <= q && inc >= 0,
    ;
    assert(tenant_after(t, es).tokens >= 0);
}

/// The tenant token refill worker.
pub struct TenantTokenScheduler;

impl TenantTokenScheduler {
    /// One transaction of the refill scheduler: pick a tenant whose refill
    /// instant has passed and whose budget is below its cap, add the
    /// increment (saturating at the cap), and advance the refill instant:
    /// to `now + max(5 min, period)` when saturated, to `now + period` when
    /// more than five minutes late, else by one period.
    pub fn run_once(store: &mut Store, now: i64, reached_end: &mut bool)
        requires
            old(store).wf(),
            0 <= now <= MAX_TS,
        ensures
            final(store).wf(),
            // Idle: no tenant is due, nothing changes, the end was reached.
            (forall|k: int| !refill_candidate(*old(store), k, now)) ==> *final(store) == *old(store)
                && *final(reached_end),
            // Otherwise some due tenant was refilled.
            (exists|k: int| refill_candidate(*old(store), k, now)) ==> exists|k: int|
                {
                    &&& refill_candidate(*old(store), k, now)
                    &&& final(store).tenants@ == old(store).tenants@.update(
                        k,
                        refilled_tenant(old(store).tenants@[k], now),
                    )
                    &&& *final(reached_end) == *old(reached_end)
                },
            // The refill never overdraws: tokens grow by at most the
            // increment, and the next refill instant advances by at least
            // one period past the one that fired.
            forall|k: int| 0 <= k < old(store).tenants@.len() ==> {
                let t0 = #[trigger] old(store).tenants@[k];
                let t1 = final(store).tenants@[k];
                &&& t1.tokens <= t0.tokens + t0.increment
                &&& t1.max_tokens == t0.max_tokens
                &&& t1.increment == t0.increment
                &&& t1.period_secs == t0.period_secs
                &&& t1.next_increment >= t0.next_increment
                &&& (t1 != t0 ==> t1.next_increment >= t0.next_increment + t0.period_secs)
            },
            final(store).scheduled == old(store).scheduled,
            final(store).one_offs == old(store).one_offs,
            final(store).cron_jobs == old(store).cron_jobs,
            final(store).requests == old(store).requests,
            final(store).responses == old(store).responses,
            final(store).executions == old(store).executions,
            final(store).workflows == old(store).workflows,
            final(store).workflow_executions == old(store).workflow_executions,
            final(store).workflow_dependencies == old(store).workflow_dependencies,
            final(store).next_id == old(store).next_id,
    {
        let ghost s0 = *old(store);
        let mut k: usize = 0;
        let n = store.tenants.len();
        let mut found: usize = n;
        while k < n
            invariant_except_break
                found == n,
            invariant
                *store == s0,
                n == s0.tenants@.len(),
                k <= n,
                forall|i: int| 0 <= i < k ==> !refill_candidate(s0, i, now),
            ensures
                *store == s0,
                found <= n,
                found == n ==> forall|i: int| !refill_candidate(s0, i, now),
                found < n ==> refill_candidate(s0, found as int, now),
            decreases n - k,
        {
            if store.tenants[k].next_increment < now && store.tenants[k].tokens
                < store.tenants[k].max_tokens {
                found = k;
                break;
            }
            k = k + 1;
        }
        if found == n {
            *reached_end = true;
            return;
        }

        let mut t = store.tenants.remove(found);
        let ghost t0 = t;
        let sum: i64 = t.tokens as i64 + t.increment as i64;
        let new_tokens: i32 = if sum <= t.max_tokens as i64 {
            sum as i32
        } else {
            t.max_tokens
        };
        let next: i64 = if new_tokens == t.max_tokens {
            now + if t.period_secs >= REFILL_LATE_SECS {
                t.period_secs
            } else {
                REFILL_LATE_SECS
            }
        } else if now - t.next_increment > REFILL_LATE_SECS {
            now + t.period_secs
        } else {
            t.next_increment + t.period_secs
        };
        t.tokens = new_tokens;
        t.next_increment = next;
        assert(t == refilled_tenant(t0, now));
        store.tenants.insert(found, t);
        assert(store.tenants@ =~= s0.tenants@.update(found as int, refilled_tenant(t0, now)));
        proof {
            let f = |x: Tenant| x.id;
            assert forall|i: int| 0 <= i < store.tenants@.len() implies #[trigger] f(
                store.tenants@[i],
            ) == f(s0.tenants@[i]) by {
                assert(f(s0.tenants@[i]) == s0.tenants@[i].id);
            }
            assert(crate::store::distinct_ids(store.tenants@, f));
            assert(crate::store::ids_below(store.tenants@, f, store.next_id));
            assert forall|i: int| 0 <= i < store.tenants@.len() implies crate::store::tenant_ok(
                #[trigger] store.tenants@[i],
            ) by {
                assert(crate::store::tenant_ok(s0.tenants@[i]));
            }
        }
    }
}

} // verus!
