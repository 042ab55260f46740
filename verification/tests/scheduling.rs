use rocktick::api::CreateJob;
use rocktick::api::Request;
use rocktick::cron::CronScheduler;
use rocktick::dispatch::get_jobs;
use rocktick::one_off::OneOffScheduler;
use rocktick::reaper::reap_leases;
use rocktick::recorder::record_execution;
use rocktick::recorder::ExecutionFrame;
use rocktick::retry::schedule_retry_job;
use rocktick::store::CronJob;
use rocktick::store::ScheduledJob;
use rocktick::store::Store;
use rocktick::store::Tenant;
use rocktick::tenants::TenantTokenScheduler;
use rocktick::workflow::BodyParse;

const T0: i64 = 1_700_000_000;

fn tenant(id: u64, tokens: i32, max_tokens: i32) -> Tenant {
    Tenant {
        id,
        tokens,
        max_tokens,
        increment: 1,
        period_secs: 60,
        next_increment: 0,
        max_timeout: 60_000,
        default_retries: 3,
        max_max_response_bytes: 33_554_432,
        max_request_bytes: 1_048_576,
        retain_for_days: 30,
        signing_key: None,
    }
}

fn queued_job(id: u64, region: &str, at: i64, tenant_id: Option<u64>) -> ScheduledJob {
    ScheduledJob {
        id,
        hash: 0,
        region: region.to_string(),
        scheduled_at: at,
        tenant_id,
        one_off_job_id: Some(id + 1000),
        cron_job_id: None,
        workflow_execution_id: None,
        retry_for_id: None,
        request_id: 1,
        timeout_ms: None,
        max_retries: 0,
        max_response_bytes: None,
        times_locked: 0,
        lock_nonce: None,
        execution_id: None,
        deleted_at: None,
    }
}

fn frame_for(job_id: u64, nonce: i64, success: bool, executed_at: i64) -> ExecutionFrame {
    ExecutionFrame {
        job_id,
        lock_nonce: nonce,
        success,
        response: None,
        response_error: Some("connection refused".to_string()),
        req_method: "POST".to_string(),
        req_url: "https://x.test/hook".to_string(),
        req_headers: vec![],
        req_body: None,
        executed_at,
    }
}

#[test]
fn cron_backlog_cap_and_horizon() {
    let mut store = Store::new();
    store.cron_jobs.push(CronJob {
        id: 0,
        region: "iad".to_string(),
        tenant_id: None,
        request_id: 1,
        schedule: "* * * * *".to_string(),
        timeout_ms: None,
        max_retries: 3,
        max_response_bytes: None,
        error: None,
        deleted_at: None,
    });
    store.next_id = 10;
    let mut reached_end = false;
    CronScheduler::run_once(&mut store, T0, &mut reached_end);
    let n = store.scheduled.len();
    assert!(n >= 15, "expected at least 15 rows, got {n}");
    assert!(n <= 60, "expected at most 60 rows, got {n}");
    for row in &store.scheduled {
        assert!(row.scheduled_at > T0);
        assert!(row.scheduled_at <= T0 + 900);
        assert_eq!(row.cron_job_id, Some(0));
        assert!(row.lock_nonce.is_none());
        assert!(row.execution_id.is_none());
    }
    // Times come out strictly increasing.
    for w in store.scheduled.windows(2) {
        assert!(w[0].scheduled_at < w[1].scheduled_at);
    }
    assert!(!reached_end);
    // The backlog now reaches the full horizon, so the expander idles.
    let mut reached_end = false;
    CronScheduler::run_once(&mut store, T0, &mut reached_end);
    assert!(reached_end);
    assert_eq!(store.scheduled.len(), n);
}

#[test]
fn cron_parse_failure_disables_job() {
    let mut store = Store::new();
    store.cron_jobs.push(CronJob {
        id: 0,
        region: "iad".to_string(),
        tenant_id: None,
        request_id: 1,
        schedule: "not a cron".to_string(),
        timeout_ms: None,
        max_retries: 3,
        max_response_bytes: None,
        error: None,
        deleted_at: None,
    });
    store.next_id = 10;
    let mut reached_end = false;
    CronScheduler::run_once(&mut store, T0, &mut reached_end);
    assert!(store.cron_jobs[0].error.is_some());
    assert_eq!(store.scheduled.len(), 0);
    // Disabled jobs are no longer candidates.
    let mut reached_end = false;
    CronScheduler::run_once(&mut store, T0, &mut reached_end);
    assert!(reached_end);
}

#[test]
fn one_off_materialization_is_idempotent() {
    let mut store = Store::new();
    let regions = vec!["iad".to_string()];
    let job_id = rocktick::api::create_job(
        &mut store,
        None,
        CreateJob {
            region: "iad".to_string(),
            execute_at: T0,
            request: Request {
                method: "POST".to_string(),
                url: "https://x.test/hook".to_string(),
                headers: vec![],
                body: None,
            },
            timeout_ms: None,
            max_retries: Some(3),
            max_response_bytes: None,
        },
        &regions,
    )
    .ok()
    .unwrap();
    for _ in 0..3 {
        let mut reached_end = false;
        OneOffScheduler::run_once(&mut store, &mut reached_end);
    }
    let rows: Vec<_> = store
        .scheduled
        .iter()
        .filter(|r| r.one_off_job_id == Some(job_id))
        .collect();
    assert_eq!(rows.len(), 1);
    assert_eq!(rows[0].scheduled_at, T0);
    // With everything materialized, the scheduler reports the end.
    let mut reached_end = false;
    OneOffScheduler::run_once(&mut store, &mut reached_end);
    assert!(reached_end);
}

/// Drives one full lease/fail/retry cycle and returns the successor row's
/// `(scheduled_at, max_retries)`.
fn fail_and_retry(store: &mut Store, now: i64) -> (i64, i32) {
    let region = "iad".to_string();
    let before = store.scheduled.len();
    let grants = get_jobs(store, &region, now);
    assert_eq!(grants.len(), 1, "expected one lease at t={now}");
    let g = &grants[0];
    let acked = record_execution(
        store,
        frame_for(g.job_id, g.lock_nonce, false, now),
        BodyParse::NoBody {
            reason: "no response".to_string(),
        },
        now,
    );
    assert!(acked);
    let mut reached_end = false;
    schedule_retry_job(store, &mut reached_end);
    assert_eq!(store.scheduled.len(), before + 1, "expected a successor at t={now}");
    let row = store.scheduled.last().unwrap();
    (row.scheduled_at, row.max_retries)
}

#[test]
fn retry_backoff_chain() {
    let mut store = Store::new();
    store.scheduled.push(queued_job(0, "iad", 0, None));
    store.scheduled[0].max_retries = 3;
    store.next_id = 10;

    // First failure at t=1: successor one minute after the execution.
    let (at, mr) = fail_and_retry(&mut store, 1);
    assert_eq!(at, 61);
    assert_eq!(mr, 2);
    // Second failure at t=61.
    let (at, mr) = fail_and_retry(&mut store, 61);
    assert_eq!(at, 121);
    assert_eq!(mr, 1);
    // Third failure at t=121: the backoff doubles.
    let (at, mr) = fail_and_retry(&mut store, 121);
    assert_eq!(at, 241);
    assert_eq!(mr, 0);
    // The terminal attempt's failure produces no further successor.
    let region = "iad".to_string();
    let grants = get_jobs(&mut store, &region, 241);
    assert_eq!(grants.len(), 1);
    let g = &grants[0];
    record_execution(
        &mut store,
        frame_for(g.job_id, g.lock_nonce, false, 241),
        BodyParse::NoBody {
            reason: "no response".to_string(),
        },
        241,
    );
    let count = store.scheduled.len();
    let mut reached_end = false;
    schedule_retry_job(&mut store, &mut reached_end);
    assert!(reached_end);
    assert_eq!(store.scheduled.len(), count);
}

#[test]
fn tenant_admission_budget() {
    let mut store = Store::new();
    store.tenants.push(tenant(1, 2, 2));
    for i in 0..5u64 {
        store.scheduled.push(queued_job(10 + i, "iad", T0 - 10, Some(1)));
    }
    store.next_id = 100;
    let region = "iad".to_string();
    let grants = get_jobs(&mut store, &region, T0);
    assert_eq!(grants.len(), 2);
    assert_eq!(store.tenants[0].tokens, 0);
    // A second call gets nothing until the refill runs.
    let grants = get_jobs(&mut store, &region, T0);
    assert_eq!(grants.len(), 0);
    // Refill: one token comes back, so one more job goes out.
    store.tenants[0].next_increment = T0 - 1;
    let mut reached_end = false;
    TenantTokenScheduler::run_once(&mut store, T0, &mut reached_end);
    assert_eq!(store.tenants[0].tokens, 1);
    let grants = get_jobs(&mut store, &region, T0);
    assert_eq!(grants.len(), 1);
}

#[test]
fn dispatch_is_monotone_per_tenant() {
    let mut store = Store::new();
    store.tenants.push(tenant(1, 5, 5));
    store.scheduled.push(queued_job(12, "iad", T0 - 7, Some(1)));
    store.scheduled.push(queued_job(11, "iad", T0 - 9, Some(1)));
    store.scheduled.push(queued_job(10, "iad", T0 - 9, Some(1)));
    store.next_id = 100;
    let region = "iad".to_string();
    let grants = get_jobs(&mut store, &region, T0);
    assert_eq!(grants.len(), 3);
    // Least (scheduled_at, id) first; ties on time break by id.
    assert_eq!(grants[0].job_id, 10);
    assert_eq!(grants[1].job_id, 11);
    assert_eq!(grants[2].job_id, 12);
}

#[test]
fn dispatch_spillover_rule() {
    let mut store = Store::new();
    // Due in its own region, but only 4 seconds overdue for others.
    store.scheduled.push(queued_job(10, "iad", T0 - 4, None));
    store.next_id = 100;
    let other = "fra".to_string();
    let grants = get_jobs(&mut store, &other, T0);
    assert_eq!(grants.len(), 0);
    // Five seconds overdue: any region may take it.
    let grants = get_jobs(&mut store, &other, T0 + 1);
    assert_eq!(grants.len(), 1);
}

#[test]
fn lease_recovery_refunds_token() {
    let mut store = Store::new();
    store.tenants.push(tenant(1, 1, 1));
    let mut job = queued_job(10, "iad", 50, Some(1));
    job.timeout_ms = Some(1000);
    store.scheduled.push(job);
    store.next_id = 100;
    let region = "iad".to_string();
    let grants = get_jobs(&mut store, &region, 100);
    assert_eq!(grants.len(), 1);
    assert_eq!(store.tenants[0].tokens, 0);
    assert_eq!(store.scheduled[0].lock_nonce, Some(100));

    // Not yet expired: nonce + 1s timeout + 90s slack.
    reap_leases(&mut store, 100 + 1 + 90);
    assert_eq!(store.scheduled[0].lock_nonce, Some(100));
    assert_eq!(store.tenants[0].tokens, 0);

    // One second later the lease is recovered and the token refunded.
    reap_leases(&mut store, 100 + 1 + 90 + 1);
    assert_eq!(store.scheduled[0].lock_nonce, None);
    assert_eq!(store.tenants[0].tokens, 1);

    // Reaping again at the same instant changes nothing.
    reap_leases(&mut store, 100 + 1 + 90 + 1);
    assert_eq!(store.scheduled[0].lock_nonce, None);
    assert_eq!(store.tenants[0].tokens, 1);
}

#[test]
fn recording_is_idempotent_per_lease() {
    let mut store = Store::new();
    store.scheduled.push(queued_job(10, "iad", 0, None));
    store.next_id = 100;
    let region = "iad".to_string();
    let grants = get_jobs(&mut store, &region, 50);
    assert_eq!(grants.len(), 1);
    let g = &grants[0];

    let acked = record_execution(
        &mut store,
        frame_for(g.job_id, g.lock_nonce, true, 50),
        BodyParse::NoBody {
            reason: String::new(),
        },
        50,
    );
    assert!(acked);
    assert_eq!(store.executions.len(), 1);
    assert_eq!(store.scheduled[0].lock_nonce, None);
    assert!(store.scheduled[0].execution_id.is_some());

    // A retransmitted frame matches no lease and is a no-op.
    let acked = record_execution(
        &mut store,
        frame_for(g.job_id, g.lock_nonce, true, 50),
        BodyParse::NoBody {
            reason: String::new(),
        },
        50,
    );
    assert!(!acked);
    assert_eq!(store.executions.len(), 1);
}

#[test]
fn recorder_strips_reserved_headers() {
    let mut store = Store::new();
    store.scheduled.push(queued_job(10, "iad", 0, None));
    store.next_id = 100;
    let region = "iad".to_string();
    let grants = get_jobs(&mut store, &region, 50);
    let g = &grants[0];
    let mut frame = frame_for(g.job_id, g.lock_nonce, true, 50);
    frame.req_headers = vec![
        ("Rocktick-Job-Id".to_string(), "x".to_string()),
        ("Content-Type".to_string(), "text/plain".to_string()),
        ("Rocktick-Signature".to_string(), "y".to_string()),
    ];
    record_execution(
        &mut store,
        frame,
        BodyParse::NoBody {
            reason: String::new(),
        },
        50,
    );
    let stored = store.requests.last().unwrap();
    assert_eq!(stored.headers.len(), 1);
    assert_eq!(stored.headers[0].0, "Content-Type");
}

#[test]
fn refill_saturates_and_advances_clock() {
    let mut store = Store::new();
    let mut t = tenant(1, 1, 3);
    t.increment = 5;
    t.period_secs = 600;
    t.next_increment = T0 - 10;
    store.tenants.push(t);
    let mut reached_end = false;
    TenantTokenScheduler::run_once(&mut store, T0, &mut reached_end);
    // Saturated: tokens cap, clock pushed to now + max(5 min, period).
    assert_eq!(store.tenants[0].tokens, 3);
    assert_eq!(store.tenants[0].next_increment, T0 + 600);
    // At the cap the tenant is no longer a candidate.
    let mut reached_end = false;
    TenantTokenScheduler::run_once(&mut store, T0 + 3600, &mut reached_end);
    assert!(reached_end);
}

#[test]
fn refill_rebases_when_late() {
    let mut store = Store::new();
    let mut t = tenant(1, 0, 10);
    t.increment = 1;
    t.period_secs = 60;
    t.next_increment = T0 - 1000;
    store.tenants.push(t);
    let mut reached_end = false;
    TenantTokenScheduler::run_once(&mut store, T0, &mut reached_end);
    // More than five minutes late: rebased on now.
    assert_eq!(store.tenants[0].tokens, 1);
    assert_eq!(store.tenants[0].next_increment, T0 + 60);
    // On time: the clock steps by one period.
    store.tenants[0].next_increment = T0 + 100;
    let mut reached_end = false;
    TenantTokenScheduler::run_once(&mut store, T0 + 101, &mut reached_end);
    assert_eq!(store.tenants[0].tokens, 2);
    assert_eq!(store.tenants[0].next_increment, T0 + 160);
}

#[test]
fn effective_timeout_defaulting() {
    assert_eq!(rocktick::effective_timeout(Some(5_000), Some(30_000), 60_000), 5_000);
    assert_eq!(rocktick::effective_timeout(None, Some(30_000), 60_000), 30_000);
    assert_eq!(rocktick::effective_timeout(None, None, 60_000), 60_000);
}
