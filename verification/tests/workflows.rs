use rocktick::dispatch::get_jobs;
use rocktick::drivers::DriverOutcome;
use rocktick::drivers::NoExecutionScheduler;
use rocktick::drivers::PendingExecutionScheduler;
use rocktick::drivers::WaitedExecutionScheduler;
use rocktick::recorder::record_execution;
use rocktick::recorder::ExecutionFrame;
use rocktick::recorder::ResponsePayload;
use rocktick::store::ChildDefinition;
use rocktick::store::ExecutionStatus;
use rocktick::store::ReturnedData;
use rocktick::store::Store;
use rocktick::store::Workflow;
use rocktick::store::WorkflowStatus;
use rocktick::workflow::classify_execution_result;
use rocktick::workflow::BodyParse;

const T0: i64 = 1_700_000_000;

fn new_workflow(id: u64) -> Workflow {
    Workflow {
        id,
        region: "iad".to_string(),
        tenant_id: None,
        implementation_url: "https://impl.test/wf".to_string(),
        input: "{\"n\":1}".to_string(),
        status: WorkflowStatus::Pending,
        max_retries: 3,
        context: None,
        result: None,
        error: None,
    }
}

fn returned(children: Vec<(&str, &str)>, result: Option<&str>, error: Option<&str>) -> ReturnedData {
    ReturnedData {
        new_steps: vec![],
        new_children: children
            .into_iter()
            .map(|(name, url)| {
                (
                    name.to_string(),
                    ChildDefinition::V1Tuple(url.to_string(), "{}".to_string()),
                )
            })
            .collect(),
        new_waits: vec![],
        result: result.map(|s| s.to_string()),
        error: error.map(|s| s.to_string()),
    }
}

/// Runs scheduler B, scheduler C, dispatch and the recorder so that the
/// workflow's current execution completes with the given returned data.
fn run_execution_round(store: &mut Store, now: i64, data: ReturnedData) {
    // Scheduler B moves a pending execution to waiting; a round whose
    // execution already waits needs nothing from it.
    let mut reached_end = false;
    let _ = PendingExecutionScheduler::run_once(store, now, &mut reached_end);
    let mut reached_end = false;
    let r = WaitedExecutionScheduler::run_once(store, now, &mut reached_end);
    assert!(r.is_some(), "scheduler C found no runnable execution");
    // The POST fires after its backoff; dispatch once it is due.
    let due = store.scheduled.last().unwrap().scheduled_at;
    let region = "iad".to_string();
    let grants = get_jobs(store, &region, due);
    assert_eq!(grants.len(), 1, "expected the context POST to be leased");
    let g = &grants[0];
    let frame = ExecutionFrame {
        job_id: g.job_id,
        lock_nonce: g.lock_nonce,
        success: true,
        response: Some(ResponsePayload {
            status: 200,
            headers: vec![],
            body: "raw".to_string(),
        }),
        response_error: None,
        req_method: "post".to_string(),
        req_url: "https://impl.test/wf".to_string(),
        req_headers: vec![],
        req_body: None,
        executed_at: due,
    };
    let acked = record_execution(
        store,
        frame,
        BodyParse::Data {
            raw: "raw".to_string(),
            data,
        },
        due,
    );
    assert!(acked);
}

#[test]
fn workflow_happy_path() {
    let mut store = Store::new();
    store.workflows.push(new_workflow(0));
    store.next_id = 10;

    // The driver creates execution #0, pending.
    let mut reached_end = false;
    let r = NoExecutionScheduler::run_once(&mut store, T0, &mut reached_end);
    assert!(matches!(r, DriverOutcome::CreatedFirst { workflow: 0 }));
    assert_eq!(store.workflow_executions.len(), 1);
    assert!(matches!(store.workflow_executions[0].status, ExecutionStatus::Pending));
    assert_eq!(store.workflow_executions[0].execution_index, 0);

    // Execution #0 runs and declares two children.
    run_execution_round(
        &mut store,
        T0,
        returned(vec![("left", "https://impl.test/l"), ("right", "https://impl.test/r")], None, None),
    );
    assert!(matches!(store.workflow_executions[0].status, ExecutionStatus::Completed));

    // The declared children are new work, so the driver creates execution #1.
    let mut reached_end = false;
    let r = NoExecutionScheduler::run_once(&mut store, T0 + 10, &mut reached_end);
    match r {
        DriverOutcome::CreatedNext { workflow, index, is_retry } => {
            assert_eq!(workflow, 0);
            assert_eq!(index, 1);
            assert!(!is_retry);
        },
        _ => panic!("expected a new execution"),
    }

    // Scheduler B materializes the two child dependencies.
    let deps_before = store.workflow_dependencies.len();
    let wfs_before = store.workflows.len();
    let mut reached_end = false;
    let r = PendingExecutionScheduler::run_once(&mut store, T0 + 10, &mut reached_end);
    assert_eq!(r, Some(0u64));
    assert_eq!(store.workflow_dependencies.len(), deps_before + 2);
    assert_eq!(store.workflows.len(), wfs_before + 2);
    for w in &store.workflows[wfs_before..] {
        assert!(matches!(w.status, WorkflowStatus::Pending));
        assert_eq!(w.region, "iad");
    }
    // The children carry the declared urls and the default retry budget.
    let mut urls: Vec<&str> = store.workflows[wfs_before..]
        .iter()
        .map(|w| w.implementation_url.as_str())
        .collect();
    urls.sort();
    assert_eq!(urls, vec!["https://impl.test/l", "https://impl.test/r"]);
    for w in &store.workflows[wfs_before..] {
        assert_eq!(w.max_retries, 9);
    }
    for d in &store.workflow_dependencies[deps_before..] {
        assert!(d.child_workflow_name.is_some());
        assert!(d.child_workflow_id.is_some());
    }
    // Running scheduler B again materializes nothing new: the names are
    // covered.
    let mut reached_end = false;
    let _ = PendingExecutionScheduler::run_once(&mut store, T0 + 11, &mut reached_end);
    assert_eq!(store.workflow_dependencies.len(), deps_before + 2);
    assert_eq!(store.workflows.len(), wfs_before + 2);

    // While a child is pending, scheduler C must not run the parent.
    let mut reached_end = false;
    let r = WaitedExecutionScheduler::run_once(&mut store, T0 + 10, &mut reached_end);
    assert!(r.is_none());

    // The children complete.
    for w in store.workflows.iter_mut().skip(wfs_before) {
        w.status = WorkflowStatus::Completed;
        w.result = Some("\"child done\"".to_string());
    }

    // Execution #1 now runs with both child results in its context, and
    // returns a final result.
    run_execution_round(&mut store, T0 + 20, returned(vec![], Some("\"all done\""), None));

    // The parent's cached context carries both children.
    let ctx = store.workflows[0].context.as_ref().unwrap();
    assert_eq!(ctx.child_workflows.len(), 2);

    // The driver finalizes the workflow as completed with that result.
    let mut reached_end = false;
    let r = NoExecutionScheduler::run_once(&mut store, T0 + 30, &mut reached_end);
    assert!(matches!(r, DriverOutcome::CompletedWorkflow { workflow: 0 }));
    assert!(matches!(store.workflows[0].status, WorkflowStatus::Completed));
    assert_eq!(store.workflows[0].result.as_deref(), Some("\"all done\""));
    assert!(store.workflows[0].error.is_none());
}

#[test]
fn workflow_failure_exhausts_retries() {
    let mut store = Store::new();
    let mut wf = new_workflow(0);
    wf.max_retries = 1;
    store.workflows.push(wf);
    store.next_id = 10;

    let mut reached_end = false;
    NoExecutionScheduler::run_once(&mut store, T0, &mut reached_end);
    // The execution fails outright (bad JSON from the implementation).
    {
        let mut reached_end = false;
        PendingExecutionScheduler::run_once(&mut store, T0, &mut reached_end);
        let mut reached_end = false;
        WaitedExecutionScheduler::run_once(&mut store, T0, &mut reached_end);
        let due = store.scheduled.last().unwrap().scheduled_at;
        let region = "iad".to_string();
        let grants = get_jobs(&mut store, &region, due);
        let g = &grants[0];
        let frame = ExecutionFrame {
            job_id: g.job_id,
            lock_nonce: g.lock_nonce,
            success: true,
            response: Some(ResponsePayload {
                status: 200,
                headers: vec![],
                body: "not json".to_string(),
            }),
            response_error: None,
            req_method: "post".to_string(),
            req_url: "https://impl.test/wf".to_string(),
            req_headers: vec![],
            req_body: None,
            executed_at: due,
        };
        record_execution(
            &mut store,
            frame,
            BodyParse::NotJson {
                reason: "failed to parse as json".to_string(),
            },
            due,
        );
    }
    assert!(matches!(store.workflow_executions[0].status, ExecutionStatus::Failed));
    assert!(store.workflow_executions[0].failure_reason.is_some());
    assert!(store.workflow_executions[0].result_json.is_none());

    // One retry remains: the driver creates a retry execution.
    let mut reached_end = false;
    let r = NoExecutionScheduler::run_once(&mut store, T0 + 10, &mut reached_end);
    match r {
        DriverOutcome::CreatedNext { index, is_retry, .. } => {
            assert_eq!(index, 1);
            assert!(is_retry);
        },
        _ => panic!("expected a retry execution"),
    }

    // The retry fails too; the budget is spent; the workflow fails.
    store.workflow_executions[1].status = ExecutionStatus::Failed;
    store.workflow_executions[1].executed_at = Some(T0 + 20);
    store.workflow_executions[1].failure_reason = Some("still broken".to_string());
    let mut reached_end = false;
    let r = NoExecutionScheduler::run_once(&mut store, T0 + 30, &mut reached_end);
    assert!(matches!(r, DriverOutcome::FailedWorkflow { workflow: 0 }));
    assert!(matches!(store.workflows[0].status, WorkflowStatus::Failed));
    assert_eq!(store.workflows[0].error.as_deref(), Some("still broken"));
}

#[test]
fn workflow_wait_blocks_until_elapsed() {
    let mut store = Store::new();
    store.workflows.push(new_workflow(0));
    store.next_id = 10;
    let mut reached_end = false;
    NoExecutionScheduler::run_once(&mut store, T0, &mut reached_end);
    // Execution #0 declares one wait.
    run_execution_round(
        &mut store,
        T0,
        ReturnedData {
            new_steps: vec![("step1".to_string(), "\"v\"".to_string())],
            new_children: vec![],
            new_waits: vec![(
                "pause".to_string(),
                rocktick::store::WaitDefinition::V1Tuple(T0 + 1000),
            )],
            result: None,
            error: None,
        },
    );
    let mut reached_end = false;
    NoExecutionScheduler::run_once(&mut store, T0 + 10, &mut reached_end);
    let deps_before = store.workflow_dependencies.len();
    let mut reached_end = false;
    PendingExecutionScheduler::run_once(&mut store, T0 + 10, &mut reached_end);
    assert_eq!(store.workflow_dependencies.len(), deps_before + 1);
    // The wait has not elapsed: scheduler C stays idle.
    let mut reached_end = false;
    let r = WaitedExecutionScheduler::run_once(&mut store, T0 + 10, &mut reached_end);
    assert!(r.is_none());
    // Once it elapses, the execution is scheduled and the context carries
    // the completed wait and the accumulated step.
    let mut reached_end = false;
    let r = WaitedExecutionScheduler::run_once(&mut store, T0 + 1001, &mut reached_end);
    assert!(r.is_some());
    let ctx = store.workflows[0].context.as_ref().unwrap();
    assert_eq!(ctx.completed_waits.len(), 1);
    assert_eq!(ctx.completed_waits[0], "pause");
    assert_eq!(ctx.steps.len(), 1);
    assert_eq!(ctx.steps[0].0, "step1");
}

#[test]
fn recording_aborts_when_workflow_execution_is_missing() {
    let mut store = Store::new();
    store.scheduled.push(rocktick::store::ScheduledJob {
        id: 1,
        hash: 0,
        region: "iad".to_string(),
        scheduled_at: 0,
        tenant_id: None,
        one_off_job_id: None,
        cron_job_id: None,
        workflow_execution_id: Some(999),
        retry_for_id: None,
        request_id: 1,
        timeout_ms: None,
        max_retries: 0,
        max_response_bytes: None,
        times_locked: 1,
        lock_nonce: Some(50),
        execution_id: None,
        deleted_at: None,
    });
    store.next_id = 100;
    let frame = ExecutionFrame {
        job_id: 1,
        lock_nonce: 50,
        success: true,
        response: None,
        response_error: Some("x".to_string()),
        req_method: "POST".to_string(),
        req_url: "https://x.test".to_string(),
        req_headers: vec![],
        req_body: None,
        executed_at: 50,
    };
    let acked = record_execution(
        &mut store,
        frame,
        BodyParse::NoBody {
            reason: "x".to_string(),
        },
        50,
    );
    // The transaction aborts: nothing is persisted, the lease stays.
    assert!(!acked);
    assert_eq!(store.executions.len(), 0);
    assert_eq!(store.scheduled[0].lock_nonce, Some(50));
}

#[test]
fn classify_covers_every_outcome() {
    // No body: failed, nothing stored.
    let (st, res, fr) = classify_execution_result(BodyParse::NoBody {
        reason: "connection reset".to_string(),
    });
    assert!(matches!(st, ExecutionStatus::Failed));
    assert!(res.is_none());
    assert_eq!(fr.as_deref(), Some("connection reset"));

    // Not JSON: failed, nothing stored.
    let (st, res, fr) = classify_execution_result(BodyParse::NotJson {
        reason: "bad json".to_string(),
    });
    assert!(matches!(st, ExecutionStatus::Failed));
    assert!(res.is_none());
    assert_eq!(fr.as_deref(), Some("bad json"));

    // JSON of the wrong shape: failed, raw kept.
    let (st, res, fr) = classify_execution_result(BodyParse::BadShape {
        raw: "{\"x\":1}".to_string(),
        reason: "wrong shape".to_string(),
    });
    assert!(matches!(st, ExecutionStatus::Failed));
    let sr = res.unwrap();
    assert_eq!(sr.raw, "{\"x\":1}");
    assert!(sr.data.is_none());
    assert_eq!(fr.as_deref(), Some("wrong shape"));

    // Data with an error field: failed, data kept.
    let (st, res, fr) = classify_execution_result(BodyParse::Data {
        raw: "{\"error\":\"boom\"}".to_string(),
        data: returned(vec![], None, Some("boom")),
    });
    assert!(matches!(st, ExecutionStatus::Failed));
    assert!(res.unwrap().data.is_some());
    assert_eq!(fr.as_deref(), Some("boom"));

    // Data without an error: completed, result set, no failure reason.
    let (st, res, fr) = classify_execution_result(BodyParse::Data {
        raw: "{}".to_string(),
        data: returned(vec![], None, None),
    });
    assert!(matches!(st, ExecutionStatus::Completed));
    assert!(res.is_some());
    assert!(fr.is_none());
}

#[test]
fn child_definition_shapes_agree() {
    let a = ChildDefinition::V1Struct {
        url: "https://c.test".to_string(),
        input: "{}".to_string(),
        max_retries: None,
    };
    let b = ChildDefinition::V1Tuple("https://c.test".to_string(), "{}".to_string());
    assert_eq!(a.url(), b.url());
    assert_eq!(a.input(), b.input());
    assert_eq!(a.max_retries(), 9);
    assert_eq!(b.max_retries(), 9);
    let c = ChildDefinition::V1Struct {
        url: "https://c.test".to_string(),
        input: "{}".to_string(),
        max_retries: Some(2),
    };
    assert_eq!(c.max_retries(), 2);
}
