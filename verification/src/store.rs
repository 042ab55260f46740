//! In-memory image of the relational store.
//!
//! Every durable entity lives in one of the vectors below; scheduler, broker
//! and recorder transitions are verified functions that take the store by
//! `&mut` and preserve [`Store::wf`], the conjunction of the row invariants.

use vstd::prelude::*;

verus! {

/// Largest accepted unix timestamp, in seconds (end of year 9999).
pub const MAX_TS: i64 = 253_402_300_799;

/// Smallest refill period a tenant can be given, in seconds.
pub const PERIOD_MIN_SECS: i64 = 60;

/// Largest refill period the token computation can produce, in seconds.
pub const PERIOD_MAX_SECS: i64 = 86_460;

/// Upper bound on `Tenant::next_increment` kept by the refill scheduler.
pub const NEXT_INCREMENT_BOUND: i64 = 253_402_300_799 + 86_460 + 300;

/// Largest accepted timeout, in milliseconds (1000 days).
pub const TIMEOUT_MS_BOUND: i64 = 86_400_000_000;

/// A frozen request payload captured at definition or at execution time.
pub struct HttpRequest {
    pub id: u64,
    pub method: String,
    pub url: String,
    pub headers: Vec<(String, String)>,
    pub body: Option<String>,
}

/// A frozen response payload returned by a drone.
pub struct HttpResponse {
    pub id: u64,
    pub status: i64,
    pub headers: Vec<(String, String)>,
    pub body: String,
}

/// Unit of isolation and rate limiting.
#[derive(Clone, Copy)]
pub struct Tenant {
    pub id: u64,
    pub tokens: i32,
    pub max_tokens: i32,
    pub increment: i32,
    pub period_secs: i64,
    pub next_increment: i64,
    pub max_timeout: i64,
    pub default_retries: i32,
    pub max_max_response_bytes: i64,
    pub max_request_bytes: i64,
    pub retain_for_days: i64,
    pub signing_key: Option<u64>,
}

/// A user's intent to fire once at an absolute instant.
pub struct OneOffJob {
    pub id: u64,
    pub region: String,
    pub tenant_id: Option<u64>,
    pub request_id: u64,
    pub execute_at: i64,
    pub timeout_ms: Option<i64>,
    pub max_retries: i32,
    pub max_response_bytes: Option<i64>,
    pub deleted_at: Option<i64>,
}

/// A user's intent to fire on a cron schedule; `error` non-null disables it.
pub struct CronJob {
    pub id: u64,
    pub region: String,
    pub tenant_id: Option<u64>,
    pub request_id: u64,
    pub schedule: String,
    pub timeout_ms: Option<i64>,
    pub max_retries: i32,
    pub max_response_bytes: Option<i64>,
    pub error: Option<String>,
    pub deleted_at: Option<i64>,
}

/// A concrete, addressable fire: the heart of the state machine.
pub struct ScheduledJob {
    pub id: u64,
    pub hash: u32,
    pub region: String,
    pub scheduled_at: i64,
    pub tenant_id: Option<u64>,
    pub one_off_job_id: Option<u64>,
    pub cron_job_id: Option<u64>,
    pub workflow_execution_id: Option<u64>,
    pub retry_for_id: Option<u64>,
    pub request_id: u64,
    pub timeout_ms: Option<i64>,
    pub max_retries: i32,
    pub max_response_bytes: Option<i64>,
    pub times_locked: u32,
    pub lock_nonce: Option<i64>,
    pub execution_id: Option<u64>,
    pub deleted_at: Option<i64>,
}

/// Immutable record of one dispatch outcome.
pub struct JobExecution {
    pub id: u64,
    pub executed_at: i64,
    pub success: bool,
    pub response_id: Option<u64>,
    pub response_error: Option<String>,
    pub request_id: u64,
}

/// Status of a workflow.
#[derive(PartialEq, Eq, Structural, Clone, Copy, Debug)]
pub enum WorkflowStatus {
    Pending,
    Completed,
    Failed,
}

/// Status of one workflow execution.
#[derive(PartialEq, Eq, Structural, Clone, Copy, Debug)]
pub enum ExecutionStatus {
    Pending,
    Waiting,
    Scheduled,
    Completed,
    Failed,
}

/// Retries granted to a child workflow that names none.
pub const CHILD_DEFAULT_RETRIES: i32 = 9;

/// A wait declaration returned by a workflow implementation; both the object
/// and the bare-timestamp shape are tolerated.
pub enum WaitDefinition {
    V1Struct { wait_until: i64 },
    V1Tuple(i64),
}

impl WaitDefinition {
    /// The instant the wait elapses, whichever shape carried it.
    pub fn wait_until(&self) -> (r: i64)
        ensures
            r == self.spec_wait_until(),
    {
        match self {
            WaitDefinition::V1Struct { wait_until } => *wait_until,
            WaitDefinition::V1Tuple(wait_until) => *wait_until,
        }
    }

    /// The instant the wait elapses.
    pub open spec fn spec_wait_until(self) -> i64 {
        match self {
            WaitDefinition::V1Struct { wait_until } => wait_until,
            WaitDefinition::V1Tuple(wait_until) => wait_until,
        }
    }
}

/// A child workflow declaration returned by a workflow implementation; both
/// the object and the tuple shape are tolerated.
pub enum ChildDefinition {
    V1Struct { url: String, input: String, max_retries: Option<i32> },
    V1Tuple(String, String),
}

impl ChildDefinition {
    /// The child's implementation URL.
    pub open spec fn spec_url(self) -> Seq<char> {
        match self {
            ChildDefinition::V1Struct { url, .. } => url@,
            ChildDefinition::V1Tuple(url, _) => url@,
        }
    }

    /// The child's input payload.
    pub open spec fn spec_input(self) -> Seq<char> {
        match self {
            ChildDefinition::V1Struct { input, .. } => input@,
            ChildDefinition::V1Tuple(_, input) => input@,
        }
    }

    /// The child's retry budget; nine when the shape named none.
    pub open spec fn spec_max_retries(self) -> i32 {
        match self {
            ChildDefinition::V1Struct { max_retries, .. } => match max_retries {
                Some(r) => r,
                None => CHILD_DEFAULT_RETRIES,
            },
            ChildDefinition::V1Tuple(_, _) => CHILD_DEFAULT_RETRIES,
        }
    }

    /// The child's implementation URL.
    pub fn url(&self) -> (r: String)
        ensures
            r@ == self.spec_url(),
    {
        match self {
            ChildDefinition::V1Struct { url, .. } => url.clone(),
            ChildDefinition::V1Tuple(url, _) => url.clone(),
        }
    }

    /// The child's input payload.
    pub fn input(&self) -> (r: String)
        ensures
            r@ == self.spec_input(),
    {
        match self {
            ChildDefinition::V1Struct { input, .. } => input.clone(),
            ChildDefinition::V1Tuple(_, input) => input.clone(),
        }
    }

    /// The child's retry budget; nine when the shape named none.
    pub fn max_retries(&self) -> (r: i32)
        ensures
            r == self.spec_max_retries(),
    {
        match self {
            ChildDefinition::V1Struct { max_retries, .. } => match max_retries {
                Some(r) => *r,
                None => CHILD_DEFAULT_RETRIES,
            },
            ChildDefinition::V1Tuple(_, _) => CHILD_DEFAULT_RETRIES,
        }
    }
}

/// The single internal representation of what a workflow implementation
/// returned: new steps, child workflows and waits, and a final result or
/// error.
pub struct ReturnedData {
    pub new_steps: Vec<(String, String)>,
    pub new_children: Vec<(String, ChildDefinition)>,
    pub new_waits: Vec<(String, WaitDefinition)>,
    pub result: Option<String>,
    pub error: Option<String>,
}

impl ReturnedData {
    /// The steps this execution contributed.
    pub fn new_steps(&self) -> (r: &Vec<(String, String)>)
        ensures
            r == &self.new_steps,
    {
        &self.new_steps
    }

    /// The child workflows this execution declared.
    pub fn new_children(&self) -> (r: &Vec<(String, ChildDefinition)>)
        ensures
            r == &self.new_children,
    {
        &self.new_children
    }

    /// The waits this execution declared.
    pub fn new_waits(&self) -> (r: &Vec<(String, WaitDefinition)>)
        ensures
            r == &self.new_waits,
    {
        &self.new_waits
    }

    /// The final result, where one was returned.
    pub fn result(&self) -> (r: &Option<String>)
        ensures
            r == &self.result,
    {
        &self.result
    }

    /// The error, where one was returned.
    pub fn error(&self) -> (r: &Option<String>)
        ensures
            r == &self.error,
    {
        &self.error
    }
}

/// A child workflow's final outcome as seen from the parent's context.
pub enum ChildWorkflowResult {
    Success { data: String },
    Failure { error: String },
}

/// One earlier failure, kept in the context handed to the implementation.
pub struct PreviousError {
    pub timestamp: i64,
    pub message: String,
}

/// The view handed to each workflow implementation POST: input, accumulated
/// steps, child results, elapsed waits and prior errors, rebuilt
/// deterministically from the execution log.
pub struct WorkflowContext {
    pub input: String,
    pub steps: Vec<(String, String)>,
    pub child_workflows: Vec<(String, ChildWorkflowResult)>,
    pub completed_waits: Vec<String>,
    pub prev_errors: Vec<PreviousError>,
}

/// A stored workflow execution result: the raw JSON text, and its parse as
/// [`ReturnedData`] where the shape matched.
pub struct StoredResult {
    pub raw: String,
    pub data: Option<ReturnedData>,
}

/// A long-running orchestration.
pub struct Workflow {
    pub id: u64,
    pub region: String,
    pub tenant_id: Option<u64>,
    pub implementation_url: String,
    pub input: String,
    pub status: WorkflowStatus,
    pub max_retries: i32,
    pub context: Option<WorkflowContext>,
    pub result: Option<String>,
    pub error: Option<String>,
}

/// One tick of the workflow driver.
pub struct WorkflowExecution {
    pub id: u64,
    pub region: String,
    pub workflow_id: u64,
    pub execution_index: i32,
    pub tenant_id: Option<u64>,
    pub status: ExecutionStatus,
    pub is_retry: bool,
    pub executed_at: Option<i64>,
    pub result_json: Option<StoredResult>,
    pub failure_reason: Option<String>,
}

/// A timer or a child workflow reference owned by one workflow execution.
pub struct WorkflowDependency {
    pub id: u64,
    pub workflow_execution_id: u64,
    pub wait_name: Option<String>,
    pub wait_until: Option<i64>,
    pub child_workflow_name: Option<String>,
    pub child_workflow_id: Option<u64>,
}

/// A drone registration row.
pub struct Drone {
    pub id: String,
    pub ip: String,
    pub region: String,
    pub last_checkin: i64,
    pub checkin_by: i64,
}

/// The whole relational image. `next_id` is above every allocated row id.
pub struct Store {
    pub scheduled: Vec<ScheduledJob>,
    pub tenants: Vec<Tenant>,
    pub one_offs: Vec<OneOffJob>,
    pub cron_jobs: Vec<CronJob>,
    pub requests: Vec<HttpRequest>,
    pub responses: Vec<HttpResponse>,
    pub executions: Vec<JobExecution>,
    pub workflows: Vec<Workflow>,
    pub workflow_executions: Vec<WorkflowExecution>,
    pub workflow_dependencies: Vec<WorkflowDependency>,
    pub next_id: u64,
}

/// A scheduled row is queued: not yet claimed, not yet executed.
pub open spec fn sj_queued(j: ScheduledJob) -> bool {
    j.lock_nonce is None && j.execution_id is None
}

/// A scheduled row is leased: claimed by a dispatch call, in flight.
pub open spec fn sj_leased(j: ScheduledJob) -> bool {
    j.lock_nonce is Some && j.execution_id is None
}

/// A scheduled row is completed: an execution was recorded for it.
pub open spec fn sj_completed(j: ScheduledJob) -> bool {
    j.lock_nonce is None && j.execution_id is Some
}

/// The lease/execution state triple: `(lock_nonce set, execution_id set)`
/// is never `(true, true)`.
pub open spec fn sj_state_ok(j: ScheduledJob) -> bool {
    !(j.lock_nonce is Some && j.execution_id is Some)
}

/// Exactly one of the three owning definitions is set.
pub open spec fn sj_one_owner(j: ScheduledJob) -> bool {
    match (j.one_off_job_id, j.cron_job_id, j.workflow_execution_id) {
        (Some(_), None, None) => true,
        (None, Some(_), None) => true,
        (None, None, Some(_)) => true,
        _ => false,
    }
}

/// Well-formedness of one scheduled row.
pub open spec fn sj_ok(j: ScheduledJob) -> bool {
    &&& sj_state_ok(j)
    &&& sj_one_owner(j)
    &&& 0 <= j.scheduled_at
    &&& (j.lock_nonce matches Some(n) ==> 0 <= n <= MAX_TS)
    &&& (j.timeout_ms matches Some(t) ==> 0 <= t <= TIMEOUT_MS_BOUND)
    &&& (j.cron_job_id is Some && j.retry_for_id is None ==> j.scheduled_at <= MAX_TS)
}

/// Well-formedness of one one-off definition.
pub open spec fn oo_ok(j: OneOffJob) -> bool {
    &&& 0 <= j.execute_at <= MAX_TS
    &&& (j.timeout_ms matches Some(t) ==> 0 <= t <= TIMEOUT_MS_BOUND)
}

/// Well-formedness of one cron definition.
pub open spec fn cj_ok(j: CronJob) -> bool {
    j.timeout_ms matches Some(t) ==> 0 <= t <= TIMEOUT_MS_BOUND
}

/// Well-formedness of one tenant row; holds the token budget invariant.
pub open spec fn tenant_ok(t: Tenant) -> bool {
    &&& 0 <= t.tokens <= t.max_tokens
    &&& 0 <= t.increment
    &&& PERIOD_MIN_SECS <= t.period_secs <= PERIOD_MAX_SECS
    &&& 0 <= t.next_increment <= NEXT_INCREMENT_BOUND
    &&& 0 <= t.max_timeout <= TIMEOUT_MS_BOUND
    &&& 0 <= t.retain_for_days <= 36_600
}

/// Well-formedness of one execution record.
pub open spec fn exec_ok(e: JobExecution) -> bool {
    0 <= e.executed_at <= MAX_TS
}

/// A successful workflow execution carries a result and no failure reason.
pub open spec fn wfe_ok(e: WorkflowExecution) -> bool {
    &&& e.status is Completed ==> e.result_json is Some && e.failure_reason is None
    &&& 0 <= e.execution_index
}

/// A dependency is a wait or a child reference, never both, never neither.
pub open spec fn dep_ok(d: WorkflowDependency) -> bool {
    match (d.wait_name, d.child_workflow_name) {
        (Some(_), None) => d.wait_until is Some && d.child_workflow_id is None,
        (None, Some(_)) => d.child_workflow_id is Some && d.wait_until is None,
        _ => false,
    }
}

/// Pairwise-distinct ids in a table, where `f` projects the id.
pub open spec fn distinct_ids<T>(rows: Seq<T>, f: spec_fn(T) -> u64) -> bool {
    forall|i: int, j: int| 0 <= i < rows.len() && 0 <= j < rows.len() && i != j
        ==> #[trigger] f(rows[i]) != #[trigger] f(rows[j])
}

/// All ids in a table are below the allocation watermark.
pub open spec fn ids_below<T>(rows: Seq<T>, f: spec_fn(T) -> u64, bound: u64) -> bool {
    forall|i: int| 0 <= i < rows.len() ==> #[trigger] f(rows[i]) < bound
}

impl Store {
    /// Spec projection of a table's ids being fresh and distinct.
    pub open spec fn table_ok<T>(rows: Seq<T>, f: spec_fn(T) -> u64, bound: u64) -> bool {
        distinct_ids(rows, f) && ids_below(rows, f, bound)
    }

    /// The store invariant: every committed transaction preserves this.
    pub open spec fn wf(self) -> bool {
        &&& Self::table_ok(self.scheduled@, |j: ScheduledJob| j.id, self.next_id)
        &&& Self::table_ok(self.tenants@, |t: Tenant| t.id, self.next_id)
        &&& Self::table_ok(self.one_offs@, |j: OneOffJob| j.id, self.next_id)
        &&& Self::table_ok(self.cron_jobs@, |j: CronJob| j.id, self.next_id)
        &&& Self::table_ok(self.requests@, |r: HttpRequest| r.id, self.next_id)
        &&& Self::table_ok(self.responses@, |r: HttpResponse| r.id, self.next_id)
        &&& Self::table_ok(self.executions@, |e: JobExecution| e.id, self.next_id)
        &&& Self::table_ok(self.workflows@, |w: Workflow| w.id, self.next_id)
        &&& Self::table_ok(self.workflow_executions@, |e: WorkflowExecution| e.id, self.next_id)
        &&& Self::table_ok(self.workflow_dependencies@, |d: WorkflowDependency| d.id, self.next_id)
        &&& (forall|i: int| 0 <= i < self.scheduled@.len() ==> sj_ok(#[trigger] self.scheduled@[i]))
        &&& (forall|i: int| 0 <= i < self.tenants@.len() ==> tenant_ok(#[trigger] self.tenants@[i]))
        &&& (forall|i: int| 0 <= i < self.one_offs@.len() ==> oo_ok(#[trigger] self.one_offs@[i]))
        &&& (forall|i: int| 0 <= i < self.cron_jobs@.len() ==> cj_ok(#[trigger] self.cron_jobs@[i]))
        &&& (forall|i: int| 0 <= i < self.executions@.len() ==> exec_ok(#[trigger] self.executions@[i]))
        &&& (forall|i: int| 0 <= i < self.workflow_executions@.len() ==> wfe_ok(#[trigger] self.workflow_executions@[i]))
        &&& (forall|i: int| 0 <= i < self.workflow_dependencies@.len() ==> dep_ok(#[trigger] self.workflow_dependencies@[i]))
    }

    /// An empty store is well formed.
    pub fn new() -> (s: Store)
        ensures
            s.wf(),
            s.scheduled@.len() == 0,
            s.tenants@.len() == 0,
            s.one_offs@.len() == 0,
            s.cron_jobs@.len() == 0,
            s.requests@.len() == 0,
            s.responses@.len() == 0,
            s.executions@.len() == 0,
            s.workflows@.len() == 0,
            s.workflow_executions@.len() == 0,
            s.workflow_dependencies@.len() == 0,
            s.next_id == 0,
    {
        Store {
            scheduled: Vec::new(),
            tenants: Vec::new(),
            one_offs: Vec::new(),
            cron_jobs: Vec::new(),
            requests: Vec::new(),
            responses: Vec::new(),
            executions: Vec::new(),
            workflows: Vec::new(),
            workflow_executions: Vec::new(),
            workflow_dependencies: Vec::new(),
            next_id: 0,
        }
    }

    /// Mints a row id no existing row holds.
    pub fn alloc_id(&mut self) -> (id: u64)
        requires
            old(self).next_id < u64::MAX,
        ensures
            id == old(self).next_id,
            final(self).next_id == old(self).next_id + 1,
            final(self).scheduled == old(self).scheduled,
            final(self).tenants == old(self).tenants,
            final(self).one_offs == old(self).one_offs,
            final(self).cron_jobs == old(self).cron_jobs,
            final(self).requests == old(self).requests,
            final(self).responses == old(self).responses,
            final(self).executions == old(self).executions,
            final(self).workflows == old(self).workflows,
            final(self).workflow_executions == old(self).workflow_executions,
            final(self).workflow_dependencies == old(self).workflow_dependencies,
    {
        let id = self.next_id;
        self.next_id = self.next_id + 1;
        id
    }
}

/// The scheduled row with the given id, where one exists.
pub open spec fn sched_lookup(sched: Seq<ScheduledJob>, id: u64) -> Option<ScheduledJob> {
    if exists|i: int| 0 <= i < sched.len() && (#[trigger] sched[i]).id == id {
        Some(sched[choose|i: int| 0 <= i < sched.len() && (#[trigger] sched[i]).id == id])
    } else {
        None
    }
}

/// The tenant row with the given id, where one exists.
pub open spec fn tenant_lookup(tenants: Seq<Tenant>, id: u64) -> Option<Tenant> {
    if exists|i: int| 0 <= i < tenants.len() && (#[trigger] tenants[i]).id == id {
        Some(tenants[choose|i: int| 0 <= i < tenants.len() && (#[trigger] tenants[i]).id == id])
    } else {
        None
    }
}

/// In a table of distinct ids, a row determines what the lookup returns.
pub proof fn lemma_tenant_lookup_unique(tenants: Seq<Tenant>, i: int)
    requires
        distinct_ids(tenants, |t: Tenant| t.id),
        0 <= i < tenants.len(),
    ensures
        tenant_lookup(tenants, tenants[i].id) == Some(tenants[i]),
{
    let id = tenants[i].id;
    assert(exists|k: int| 0 <= k < tenants.len() && (#[trigger] tenants[k]).id == id);
    let k = choose|k: int| 0 <= k < tenants.len() && (#[trigger] tenants[k]).id == id;
    if k != i {
        let f = |t: Tenant| t.id;
        assert(f(tenants[k]) != f(tenants[i]));
        assert(false);
    }
}

/// The execution record with the given id, where one exists.
pub open spec fn exec_lookup(execs: Seq<JobExecution>, id: u64) -> Option<JobExecution> {
    if exists|i: int| 0 <= i < execs.len() && (#[trigger] execs[i]).id == id {
        Some(execs[choose|i: int| 0 <= i < execs.len() && (#[trigger] execs[i]).id == id])
    } else {
        None
    }
}

/// In a table of distinct ids, a row determines what the lookup returns.
pub proof fn lemma_sched_lookup_unique(sched: Seq<ScheduledJob>, i: int)
    requires
        distinct_ids(sched, |j: ScheduledJob| j.id),
        0 <= i < sched.len(),
    ensures
        sched_lookup(sched, sched[i].id) == Some(sched[i]),
{
    let id = sched[i].id;
    assert(exists|k: int| 0 <= k < sched.len() && (#[trigger] sched[k]).id == id);
    let k = choose|k: int| 0 <= k < sched.len() && (#[trigger] sched[k]).id == id;
    if k != i {
        let f = |j: ScheduledJob| j.id;
        assert(f(sched[k]) != f(sched[i]));
        assert(false);
    }
}

/// In a table of distinct ids, a row determines what the lookup returns.
pub proof fn lemma_exec_lookup_unique(execs: Seq<JobExecution>, i: int)
    requires
        distinct_ids(execs, |e: JobExecution| e.id),
        0 <= i < execs.len(),
    ensures
        exec_lookup(execs, execs[i].id) == Some(execs[i]),
{
    let id = execs[i].id;
    assert(exists|k: int| 0 <= k < execs.len() && (#[trigger] execs[k]).id == id);
    let k = choose|k: int| 0 <= k < execs.len() && (#[trigger] execs[k]).id == id;
    if k != i {
        let f = |e: JobExecution| e.id;
        assert(f(execs[k]) != f(execs[i]));
        assert(false);
    }
}

impl Store {
    /// Index of the scheduled row with the given id.
    pub fn find_scheduled(&self, id: u64) -> (r: Option<usize>)
        ensures
            match r {
                Some(i) => i < self.scheduled@.len() && self.scheduled@[i as int].id == id,
                None => sched_lookup(self.scheduled@, id) is None,
            },
    {
        let mut i: usize = 0;
        while i < self.scheduled.len()
            invariant
                i <= self.scheduled@.len(),
                forall|k: int| 0 <= k < i ==> (#[trigger] self.scheduled@[k]).id != id,
            decreases self.scheduled@.len() - i,
        {
            if self.scheduled[i].id == id {
                return Some(i);
            }
            i = i + 1;
        }
        None
    }

    /// Index of the execution record with the given id.
    pub fn find_execution(&self, id: u64) -> (r: Option<usize>)
        ensures
            match r {
                Some(i) => i < self.executions@.len() && self.executions@[i as int].id == id,
                None => exec_lookup(self.executions@, id) is None,
            },
    {
        let mut i: usize = 0;
        while i < self.executions.len()
            invariant
                i <= self.executions@.len(),
                forall|k: int| 0 <= k < i ==> (#[trigger] self.executions@[k]).id != id,
            decreases self.executions@.len() - i,
        {
            if self.executions[i].id == id {
                return Some(i);
            }
            i = i + 1;
        }
        None
    }

    /// Index of the tenant row with the given id.
    pub fn find_tenant(&self, id: u64) -> (r: Option<usize>)
        ensures
            match r {
                Some(i) => i < self.tenants@.len() && self.tenants@[i as int].id == id,
                None => forall|k: int| 0 <= k < self.tenants@.len()
                    ==> (#[trigger] self.tenants@[k]).id != id,
            },
    {
        let mut i: usize = 0;
        while i < self.tenants.len()
            invariant
                i <= self.tenants@.len(),
                forall|k: int| 0 <= k < i ==> (#[trigger] self.tenants@[k]).id != id,
            decreases self.tenants@.len() - i,
        {
            if self.tenants[i].id == id {
                return Some(i);
            }
            i = i + 1;
        }
        None
    }
}

/// Law: in a well-formed store the lease/execution triple of every scheduled
/// row is one of queued, leased, completed; claimed-and-executed never
/// appears.
pub proof fn lemma_scheduled_states(s: Store)
    requires
        s.wf(),
    ensures
        forall|i: int| 0 <= i < s.scheduled@.len()
            ==> sj_queued(#[trigger] s.scheduled@[i])
                || sj_leased(s.scheduled@[i])
                || sj_completed(s.scheduled@[i]),
{
}

/// Law: in a well-formed store every tenant's token budget satisfies
/// `0 <= tokens <= max_tokens`.
pub proof fn lemma_tenant_token_bounds(s: Store)
    requires
        s.wf(),
    ensures
        forall|i: int| 0 <= i < s.tenants@.len()
            ==> 0 <= (#[trigger] s.tenants@[i]).tokens <= s.tenants@[i].max_tokens,
{
}

/// Law: in a well-formed store every scheduled row has exactly one owning
/// definition among one-off, cron and workflow execution.
pub proof fn lemma_exactly_one_owner(s: Store)
    requires
        s.wf(),
    ensures
        forall|i: int| 0 <= i < s.scheduled@.len() ==> sj_one_owner(#[trigger] s.scheduled@[i]),
{
}

/// Law: in a well-formed store every workflow execution whose status is
/// completed has its result set and no failure reason.
pub proof fn lemma_completed_execution_shape(s: Store)
    requires
        s.wf(),
    ensures
        forall|i: int| 0 <= i < s.workflow_executions@.len()
            && (#[trigger] s.workflow_executions@[i]).status is Completed
            ==> s.workflow_executions@[i].result_json is Some
                && s.workflow_executions@[i].failure_reason is None,
{
}

} // verus!
