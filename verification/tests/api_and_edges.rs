use hmac::KeyInit;
use hmac::Mac;

use rocktick::api::create_cron_job;
use rocktick::api::create_job;
use rocktick::api::create_tenant;
use rocktick::api::update_cron_job;
use rocktick::api::update_tenant;
use rocktick::api::ApiRejection;
use rocktick::api::CreateCronJob;
use rocktick::api::CreateJob;
use rocktick::api::CreateTenantData;
use rocktick::api::CreateTenantResponse;
use rocktick::api::Request;
use rocktick::api::UpdateCronJob;
use rocktick::api::UpdateTenantRequest;
use rocktick::drones::handle_checkin;
use rocktick::drones::parse_sync_status;
use rocktick::drones::sync_status_word;
use rocktick::drones::KeyRotationScheduler;
use rocktick::drones::Secret;
use rocktick::drones::SyncStatus;
use rocktick::ids::generate;
use rocktick::ids::shard_hash;
use rocktick::retention::ScheduledPastRetention;
use rocktick::signing::request_body_digest;
use rocktick::signing::u64_to_dec;
use rocktick::signing::SignatureBuilder;
use rocktick::store::Store;
use rocktick::tenants::compute_increment_and_period;

fn good_request() -> Request {
    Request {
        method: "POST".to_string(),
        url: "https://x.test/hook".to_string(),
        headers: vec![],
        body: Some("hi".to_string()),
    }
}

fn regions() -> Vec<String> {
    vec!["iad".to_string(), "fra".to_string()]
}

#[test]
fn signed_dispatch_header() {
    let header = SignatureBuilder {
        signing_key: "S".to_string(),
        time: 100,
        url: "https://x.test/hook".to_string(),
        body: Some("hi".to_string()),
    }
    .signature_header()
    .ok()
    .unwrap();

    let mut mac = <hmac::Hmac<sha2::Sha256>>::new_from_slice(b"S").unwrap();
    mac.update(b".100./hook.hi");
    let v1 = hex::encode(mac.finalize().into_bytes());
    let expected = format!("{{\"t\":100,\"p\":\"/hook\",\"v1\":\"{}\"}}", v1);
    assert_eq!(header, expected);
}

#[test]
fn signature_fails_on_bad_url() {
    let r = SignatureBuilder {
        signing_key: "S".to_string(),
        time: 100,
        url: "not a url".to_string(),
        body: None,
    }
    .signature_header();
    assert!(r.is_err());
}

#[test]
fn signature_without_body_skips_body_segment() {
    let header = SignatureBuilder {
        signing_key: "key".to_string(),
        time: 7,
        url: "https://x.test/a/b".to_string(),
        body: None,
    }
    .signature_header()
    .ok()
    .unwrap();
    let mut mac = <hmac::Hmac<sha2::Sha256>>::new_from_slice(b"key").unwrap();
    mac.update(b".7./a/b");
    let v1 = hex::encode(mac.finalize().into_bytes());
    assert_eq!(header, format!("{{\"t\":7,\"p\":\"/a/b\",\"v1\":\"{}\"}}", v1));
}

#[test]
fn body_digest_is_sha256_hex() {
    // The SHA-256 of the empty string, a published constant.
    assert_eq!(
        request_body_digest(""),
        "e3b0c44298fc1c149afbf4c8996fb92427ae41e4649b934ca495991b7852b855"
    );
    assert_eq!(request_body_digest("hi"), hex::encode(<sha2::Sha256 as sha2::Digest>::digest(b"hi")));
}

#[test]
fn decimal_rendering() {
    assert_eq!(u64_to_dec(0), "0");
    assert_eq!(u64_to_dec(7), "7");
    assert_eq!(u64_to_dec(1234567890), "1234567890");
}

#[test]
fn generated_ids_carry_prefix_and_ulid() {
    let id = generate("request");
    assert_eq!(id.len(), "request".len() + 27);
    assert!(id.starts_with("request_"));
    let other = generate("request");
    assert_ne!(id, other);
}

#[test]
fn shard_hash_mixes_bits() {
    assert_ne!(shard_hash(1), 1);
    assert_ne!(shard_hash(1), shard_hash(2));
}

#[test]
fn refill_pair_from_rate() {
    // 1440 tokens per day: one token per minute.
    assert_eq!(compute_increment_and_period(1440), (1, 60_000));
    // One token per day: a full-day period.
    assert_eq!(compute_increment_and_period(1), (1, 86_400_000));
    // 2000 tokens per day: the increment rises to keep the period >= 1 min.
    assert_eq!(compute_increment_and_period(2000), (2, 86_400));
}

#[test]
fn create_job_validation() {
    let mut store = Store::new();
    let regions = regions();

    // Unknown region.
    let r = create_job(
        &mut store,
        None,
        CreateJob {
            region: "mars".to_string(),
            execute_at: 100,
            request: good_request(),
            timeout_ms: None,
            max_retries: None,
            max_response_bytes: None,
        },
        &regions,
    );
    assert!(matches!(r, Err(ApiRejection::BadRequest)));

    // Unknown method.
    let mut bad = good_request();
    bad.method = "FETCH".to_string();
    let r = create_job(
        &mut store,
        None,
        CreateJob {
            region: "iad".to_string(),
            execute_at: 100,
            request: bad,
            timeout_ms: None,
            max_retries: None,
            max_response_bytes: None,
        },
        &regions,
    );
    assert!(matches!(r, Err(ApiRejection::BadRequest)));

    // Unparseable URL.
    let mut bad = good_request();
    bad.url = "::: nope".to_string();
    let r = create_job(
        &mut store,
        None,
        CreateJob {
            region: "iad".to_string(),
            execute_at: 100,
            request: bad,
            timeout_ms: None,
            max_retries: None,
            max_response_bytes: None,
        },
        &regions,
    );
    assert!(matches!(r, Err(ApiRejection::BadRequest)));
    assert_eq!(store.one_offs.len(), 0);
    assert_eq!(store.requests.len(), 0);

    // A good one goes through and freezes the request.
    let r = create_job(
        &mut store,
        None,
        CreateJob {
            region: "iad".to_string(),
            execute_at: 100,
            request: good_request(),
            timeout_ms: Some(5_000),
            max_retries: None,
            max_response_bytes: None,
        },
        &regions,
    );
    let jid = r.ok().unwrap();
    assert_eq!(store.one_offs.len(), 1);
    assert_eq!(store.one_offs[0].id, jid);
    assert_eq!(store.one_offs[0].max_retries, 3);
    assert_eq!(store.requests.len(), 1);
    assert_eq!(store.requests[0].url, "https://x.test/hook");
}

#[test]
fn create_cron_job_validation() {
    let mut store = Store::new();
    let regions = regions();
    // A bad schedule is refused up front.
    let r = create_cron_job(
        &mut store,
        None,
        CreateCronJob {
            region: "iad".to_string(),
            schedule: "99 99 99 99 99".to_string(),
            request: good_request(),
            timeout_ms: None,
            max_retries: None,
            max_response_bytes: None,
        },
        &regions,
    );
    assert!(matches!(r, Err(ApiRejection::BadRequest)));
    // An unknown tenant is refused.
    let r = create_cron_job(
        &mut store,
        Some(99),
        CreateCronJob {
            region: "iad".to_string(),
            schedule: "* * * * *".to_string(),
            request: good_request(),
            timeout_ms: None,
            max_retries: None,
            max_response_bytes: None,
        },
        &regions,
    );
    assert!(matches!(r, Err(ApiRejection::BadRequest)));
    // A good one is stored enabled.
    let r = create_cron_job(
        &mut store,
        None,
        CreateCronJob {
            region: "iad".to_string(),
            schedule: "*/5 * * * *".to_string(),
            request: good_request(),
            timeout_ms: None,
            max_retries: Some(1),
            max_response_bytes: None,
        },
        &regions,
    );
    let jid = r.ok().unwrap();
    assert_eq!(store.cron_jobs.len(), 1);
    assert_eq!(store.cron_jobs[0].id, jid);
    assert!(store.cron_jobs[0].error.is_none());
}

#[test]
fn update_cron_job_clears_error_and_purges_rows() {
    let mut store = Store::new();
    let regions = regions();
    let jid = create_cron_job(
        &mut store,
        None,
        CreateCronJob {
            region: "iad".to_string(),
            schedule: "* * * * *".to_string(),
            request: good_request(),
            timeout_ms: None,
            max_retries: None,
            max_response_bytes: None,
        },
        &regions,
    )
    .ok()
    .unwrap();
    // Expand a backlog, then disable the job by hand.
    let mut reached_end = false;
    rocktick::cron::CronScheduler::run_once(&mut store, 1_700_000_000, &mut reached_end);
    let backlog = store.scheduled.len();
    assert!(backlog > 0);
    store.cron_jobs[0].error = Some("disabled".to_string());

    // The update purges the unexecuted rows and re-enables the job.
    let r = update_cron_job(
        &mut store,
        jid,
        None,
        UpdateCronJob {
            region: None,
            schedule: Some("*/2 * * * *".to_string()),
            request: None,
            timeout_ms: None,
            max_retries: None,
            max_response_bytes: None,
        },
        &regions,
    );
    assert!(r.is_ok());
    assert_eq!(store.scheduled.len(), 0);
    assert!(store.cron_jobs[0].error.is_none());
    assert_eq!(store.cron_jobs[0].schedule, "*/2 * * * *");

    // An unknown job is not found.
    let r = update_cron_job(
        &mut store,
        999,
        None,
        UpdateCronJob {
            region: None,
            schedule: None,
            request: None,
            timeout_ms: None,
            max_retries: None,
            max_response_bytes: None,
        },
        &regions,
    );
    assert!(matches!(r, Err(ApiRejection::NotFound)));
}

#[test]
fn tenant_creation_and_update() {
    let mut store = Store::new();
    let r = create_tenant(
        &mut store,
        CreateTenantData {
            max_tokens: 5,
            tokens_per_day: 1440,
        },
        1_700_000_000,
    );
    let t = match r {
        CreateTenantResponse::Created(t) => t,
        CreateTenantResponse::InternalServerError => panic!("creation failed"),
    };
    assert_eq!(t.tokens, 5);
    assert_eq!(t.max_tokens, 5);
    assert_eq!(store.tenants.len(), 1);
    assert_eq!(store.tenants[0].increment, 1);
    assert_eq!(store.tenants[0].period_secs, 60);

    // A zero-rate tenant cannot be created.
    let r = create_tenant(
        &mut store,
        CreateTenantData {
            max_tokens: 5,
            tokens_per_day: 0,
        },
        1_700_000_000,
    );
    assert!(matches!(r, CreateTenantResponse::InternalServerError));

    // Updates apply field by field and rebase the refill clock.
    let r = update_tenant(
        &mut store,
        t.id,
        UpdateTenantRequest {
            tokens_per_day: None,
            max_tokens: Some(10),
            tokens: Some(7),
        },
        1_700_000_100,
    );
    assert!(r.is_ok());
    assert_eq!(store.tenants[0].tokens, 7);
    assert_eq!(store.tenants[0].max_tokens, 10);
    assert_eq!(store.tenants[0].next_increment, 1_700_000_100);

    // A budget outside the cap is refused.
    let r = update_tenant(
        &mut store,
        t.id,
        UpdateTenantRequest {
            tokens_per_day: None,
            max_tokens: None,
            tokens: Some(11),
        },
        1_700_000_200,
    );
    assert!(matches!(r, Err(ApiRejection::BadRequest)));
    // An unknown tenant is not found.
    let r = update_tenant(
        &mut store,
        999,
        UpdateTenantRequest {
            tokens_per_day: None,
            max_tokens: None,
            tokens: None,
        },
        1_700_000_200,
    );
    assert!(matches!(r, Err(ApiRejection::NotFound)));
}

#[test]
fn scheduled_retention_redacts_payloads() {
    let mut store = Store::new();
    // A tenant with one-day retention, and an executed row two days old.
    let mut t = rocktick::store::Tenant {
        id: 1,
        tokens: 1,
        max_tokens: 1,
        increment: 1,
        period_secs: 60,
        next_increment: 0,
        max_timeout: 60_000,
        default_retries: 3,
        max_max_response_bytes: 1,
        max_request_bytes: 1,
        retain_for_days: 1,
        signing_key: None,
    };
    t.retain_for_days = 1;
    store.tenants.push(t);
    store.requests.push(rocktick::store::HttpRequest {
        id: 2,
        method: "POST".to_string(),
        url: "https://x.test".to_string(),
        headers: vec![("a".to_string(), "b".to_string())],
        body: Some("secret payload".to_string()),
    });
    store.executions.push(rocktick::store::JobExecution {
        id: 3,
        executed_at: 1_700_000_000 - 3 * 86_400,
        success: true,
        response_id: None,
        response_error: None,
        request_id: 2,
    });
    store.scheduled.push(rocktick::store::ScheduledJob {
        id: 4,
        hash: 0,
        region: "iad".to_string(),
        scheduled_at: 0,
        tenant_id: Some(1),
        one_off_job_id: Some(5),
        cron_job_id: None,
        workflow_execution_id: None,
        retry_for_id: None,
        request_id: 2,
        timeout_ms: None,
        max_retries: 0,
        max_response_bytes: None,
        times_locked: 1,
        lock_nonce: None,
        execution_id: Some(3),
        deleted_at: None,
    });
    store.next_id = 100;
    let mut reached_end = false;
    ScheduledPastRetention::run_once(&mut store, 1_700_000_000, &mut reached_end);
    assert_eq!(store.scheduled[0].deleted_at, Some(1_700_000_000));
    assert_eq!(store.requests[0].body.as_deref(), Some("<deleted>"));
    assert_eq!(store.requests[0].headers.len(), 0);
    // A second sweep finds nothing.
    let mut reached_end = false;
    ScheduledPastRetention::run_once(&mut store, 1_700_000_000, &mut reached_end);
    assert!(reached_end);
}

#[test]
fn one_off_retention_sweeps_old_jobs() {
    let mut store = Store::new();
    store.requests.push(rocktick::store::HttpRequest {
        id: 1,
        method: "POST".to_string(),
        url: "https://x.test".to_string(),
        headers: vec![],
        body: Some("payload".to_string()),
    });
    store.one_offs.push(rocktick::store::OneOffJob {
        id: 2,
        region: "iad".to_string(),
        tenant_id: None,
        request_id: 1,
        execute_at: 0,
        timeout_ms: None,
        max_retries: 0,
        max_response_bytes: None,
        deleted_at: None,
    });
    let row = rocktick::store::ScheduledJob {
        id: 3,
        hash: 0,
        region: "iad".to_string(),
        scheduled_at: 0,
        tenant_id: None,
        one_off_job_id: Some(2),
        cron_job_id: None,
        workflow_execution_id: None,
        retry_for_id: None,
        request_id: 1,
        timeout_ms: None,
        max_retries: 0,
        max_response_bytes: None,
        times_locked: 0,
        lock_nonce: None,
        execution_id: None,
        deleted_at: Some(100),
    };
    store.scheduled.push(row);
    store.next_id = 100;
    let now = 100 + 10_800;
    // The row was deleted exactly three hours ago: not old enough yet.
    let mut reached_end = false;
    rocktick::retention::OneOffPastRetention::run_once(&mut store, now, &mut reached_end);
    assert!(reached_end);
    assert!(store.one_offs[0].deleted_at.is_none());
    // One second later the definition is swept and its payload redacted.
    let mut reached_end = false;
    rocktick::retention::OneOffPastRetention::run_once(&mut store, now + 1, &mut reached_end);
    assert_eq!(store.one_offs[0].deleted_at, Some(now + 1));
    assert_eq!(store.requests[0].body.as_deref(), Some("<deleted>"));
}

#[test]
fn outgoing_headers_inject_and_overwrite() {
    let headers = vec![
        ("Rocktick-Job-Id".to_string(), "forged".to_string()),
        ("Content-Type".to_string(), "text/plain".to_string()),
        ("Rocktick-Signature".to_string(), "forged".to_string()),
    ];
    let out = rocktick::dispatch::outgoing_headers(
        &headers,
        "scheduled_01ARZ3NDEKTSV4RRFFQ69G5FAV".to_string(),
        Some("sig".to_string()),
    );
    // Forged reserved headers are gone; the real ones are appended.
    assert_eq!(out.len(), 3);
    assert_eq!(out[0].0, "Content-Type");
    assert_eq!(out[1].0, "Rocktick-Job-Id");
    assert_eq!(out[1].1, "scheduled_01ARZ3NDEKTSV4RRFFQ69G5FAV");
    assert_eq!(out[2].0, "Rocktick-Signature");
    assert_eq!(out[2].1, "sig");
    // Unsigned dispatch adds no signature header.
    let out = rocktick::dispatch::outgoing_headers(&headers, "j".to_string(), None);
    assert_eq!(out.len(), 2);
    assert_eq!(
        rocktick::dispatch::effective_response_bytes(Some(7), Some(9)),
        Some(7)
    );
    assert_eq!(rocktick::dispatch::effective_response_bytes(None, Some(9)), Some(9));
    assert_eq!(rocktick::dispatch::effective_response_bytes(None, None), None);
}

#[test]
fn drone_checkin_upserts() {
    let mut drones = Vec::new();
    let reply = handle_checkin(
        &mut drones,
        "d1".to_string(),
        "10.0.0.1".to_string(),
        "iad".to_string(),
        1_000_000,
        500,
    );
    assert_eq!(reply, 1_009_000);
    assert_eq!(drones.len(), 1);
    assert_eq!(drones[0].checkin_by, 515);
    // A second checkin refreshes in place.
    handle_checkin(
        &mut drones,
        "d1".to_string(),
        "10.0.0.2".to_string(),
        "fra".to_string(),
        2_000_000,
        600,
    );
    assert_eq!(drones.len(), 1);
    assert_eq!(drones[0].ip, "10.0.0.2");
    assert_eq!(drones[0].region, "fra");
    assert_eq!(drones[0].checkin_by, 615);
}

#[test]
fn active_peers_excludes_caller_and_stale() {
    let mut drones = Vec::new();
    handle_checkin(&mut drones, "d1".to_string(), "10.0.0.1".to_string(), "iad".to_string(), 0, 500);
    handle_checkin(&mut drones, "d2".to_string(), "10.0.0.2".to_string(), "iad".to_string(), 0, 500);
    handle_checkin(&mut drones, "d3".to_string(), "10.0.0.3".to_string(), "fra".to_string(), 0, 100);
    // d3's deadline (115) has passed at 200; d1 is the caller.
    let caller = "d1".to_string();
    let peers = rocktick::drones::active_peers(&drones, &caller, 200);
    assert_eq!(peers.len(), 1);
    assert_eq!(drones[peers[0]].id, "d2");
}

#[test]
fn sync_status_words_round_trip() {
    assert_eq!(parse_sync_status("local"), Ok(SyncStatus::Local));
    assert_eq!(parse_sync_status("pending"), Ok(SyncStatus::Pending));
    assert_eq!(parse_sync_status("synced"), Ok(SyncStatus::Synced));
    assert_eq!(parse_sync_status("weird"), Err(()));
    assert_eq!(sync_status_word(SyncStatus::Local), "local");
    assert_eq!(sync_status_word(SyncStatus::Pending), "pending");
    assert_eq!(sync_status_word(SyncStatus::Synced), "synced");
}

#[test]
fn key_rotation_picks_stale_secret() {
    let secrets = vec![
        Secret {
            id: 1,
            master_key_id: 3,
            secret_version: 1,
            encrypted_dek: vec![1],
            encrypted_data: vec![2],
            algorithm: "aes-256-gcm".to_string(),
        },
        Secret {
            id: 2,
            master_key_id: 1,
            secret_version: 1,
            encrypted_dek: vec![1],
            encrypted_data: vec![2],
            algorithm: "aes-256-gcm".to_string(),
        },
    ];
    let mut reached_end = false;
    let r = KeyRotationScheduler::pick_late_secret(&secrets, 3, &mut reached_end);
    assert_eq!(r, Some(1));
    let mut reached_end = false;
    let r = KeyRotationScheduler::pick_late_secret(&secrets, 1, &mut reached_end);
    assert_eq!(r, None);
    assert!(reached_end);
}
