//! The workflow drivers: three cooperating schedulers that advance a
//! workflow by reading its execution log.
//!
//! The first creates executions and finalizes workflows, the second
//! materializes a pending execution's declared dependencies, the third
//! schedules a waiting execution once every dependency has resolved.

use vstd::prelude::*;

use crate::ids::shard_hash;
use crate::ids::spec_shard_hash;
use crate::store::dep_ok;
use crate::store::ChildDefinition;
use crate::store::ExecutionStatus;
use crate::store::HttpRequest;
use crate::store::ScheduledJob;
use crate::store::Store;
use crate::store::Workflow;
use crate::store::WorkflowContext;
use crate::store::WorkflowDependency;
use crate::store::WorkflowExecution;
use crate::store::WorkflowStatus;
use crate::store::MAX_TS;
use crate::workflow::DbDependency;

verus! {

/// Base backoff before a workflow execution's POST fires, in seconds.
pub const WORKFLOW_BASE_BACKOFF_SECS: i64 = 180;

/// A workflow execution status that needs no further driving.
pub open spec fn terminal(st: ExecutionStatus) -> bool {
    st is Completed || st is Failed
}

/// The execution at index `j` belongs to the workflow `wfid`.
pub open spec fn exec_of(s: Store, j: int, wfid: u64) -> bool {
    0 <= j < s.workflow_executions@.len() && s.workflow_executions@[j].workflow_id == wfid
}

/// The execution's stored result carries a final `result` value.
pub open spec fn exec_returned_result(e: WorkflowExecution) -> bool {
    match e.result_json {
        Some(sr) => match sr.data {
            Some(d) => d.result is Some,
            None => false,
        },
        None => false,
    }
}

/// How many executions of the workflow are retries.
pub open spec fn count_retries(execs: Seq<WorkflowExecution>, wfid: u64) -> nat
    decreases execs.len(),
{
    if execs.len() == 0 {
        0
    } else {
        count_retries(execs.drop_last(), wfid) + if execs.last().workflow_id == wfid
            && execs.last().is_retry {
            1nat
        } else {
            0nat
        }
    }
}

/// Indices of the workflow's executions, in execution-index order.
#[verifier::rlimit(60)]
fn sorted_executions_of(store: &Store, wfid: u64) -> (idx: Vec<usize>)
    ensures
        forall|x: int| 0 <= x < idx@.len() ==> (#[trigger] idx@[x]) < store.workflow_executions@.len(),
        forall|x: int, y: int| 0 <= x < y < idx@.len() ==> idx@[x] != idx@[y],
        forall|x: int| 0 <= x < idx@.len()
            ==> store.workflow_executions@[#[trigger] idx@[x] as int].workflow_id == wfid,
        forall|x: int, y: int| 0 <= x < y < idx@.len()
            ==> store.workflow_executions@[idx@[x] as int].execution_index
                <= store.workflow_executions@[idx@[y] as int].execution_index,
        forall|j: int| 0 <= j < store.workflow_executions@.len()
            && (#[trigger] store.workflow_executions@[j]).workflow_id == wfid ==> exists|x: int|
            0 <= x < idx@.len() && idx@[x] == j,
{
    let mut idx: Vec<usize> = Vec::new();
    let mut j: usize = 0;
    let n = store.workflow_executions.len();
    while j < n
        invariant
            j <= n,
            n == store.workflow_executions@.len(),
            forall|x: int| 0 <= x < idx@.len() ==> (#[trigger] idx@[x]) < j,
            forall|x: int, y: int| 0 <= x < y < idx@.len() ==> idx@[x] != idx@[y],
            forall|x: int| 0 <= x < idx@.len()
                ==> store.workflow_executions@[#[trigger] idx@[x] as int].workflow_id == wfid,
            forall|x: int, y: int| 0 <= x < y < idx@.len()
                ==> store.workflow_executions@[idx@[x] as int].execution_index
                    <= store.workflow_executions@[idx@[y] as int].execution_index,
            forall|m: int| 0 <= m < j && (#[trigger] store.workflow_executions@[m]).workflow_id
                == wfid ==> exists|x: int| 0 <= x < idx@.len() && idx@[x] == m,
        decreases n - j,
    {
        if store.workflow_executions[j].workflow_id == wfid {
            let key = store.workflow_executions[j].execution_index;
            // Find the insertion point: after every entry with a key <= ours.
            let mut p: usize = 0;
            while p < idx.len()
                invariant
                    p <= idx@.len(),
                    forall|x: int| 0 <= x < idx@.len() ==> (#[trigger] idx@[x])
                        < store.workflow_executions@.len(),
                    forall|x: int| 0 <= x < p
                        ==> store.workflow_executions@[#[trigger] idx@[x] as int].execution_index
                            <= key,
                ensures
                    p <= idx@.len(),
                    forall|x: int| 0 <= x < p
                        ==> store.workflow_executions@[#[trigger] idx@[x] as int].execution_index
                            <= key,
                    p < idx@.len()
                        ==> store.workflow_executions@[idx@[p as int] as int].execution_index > key,
                decreases idx@.len() - p,
            {
                if store.workflow_executions[idx[p]].execution_index > key {
                    break;
                }
                p = p + 1;
            }
            let ghost pre = idx@;
            idx.insert(p, j);
            proof {
                assert forall|x: int, y: int| 0 <= x < y < idx@.len() implies idx@[x] != idx@[y] by {
                    let xo = if x < p { x } else { x - 1 };
                    let yo = if y <= p { y } else { y - 1 };
                    if x != p as int && y != p as int {
                        assert(idx@[x] == pre[xo] && idx@[y] == pre[yo]);
                    } else if x == p as int {
                        assert(idx@[y] == pre[yo] && pre[yo] < j);
                    } else {
                        assert(idx@[x] == pre[xo] && pre[xo] < j);
                    }
                }
                assert forall|x: int, y: int| 0 <= x < y < idx@.len() implies
                    store.workflow_executions@[idx@[x] as int].execution_index
                        <= store.workflow_executions@[idx@[y] as int].execution_index by {
                    let xo = if x < p { x } else { x - 1 };
                    let yo = if y <= p { y } else { y - 1 };
                    if x != p as int && y != p as int {
                        assert(idx@[x] == pre[xo] && idx@[y] == pre[yo]);
                    } else if x == p as int {
                        assert(idx@[y] == pre[yo]);
                    } else {
                        assert(idx@[x] == pre[xo]);
                    }
                }
                assert forall|m: int|
                    0 <= m < j + 1 && (#[trigger] store.workflow_executions@[m]).workflow_id
                        == wfid implies exists|x: int| 0 <= x < idx@.len() && idx@[x] == m by {
                    if m == j as int {
                        assert(idx@[p as int] == j);
                    } else {
                        let x0 = choose|x: int| 0 <= x < pre.len() && pre[x] == m;
                        if x0 < p {
                            assert(idx@[x0] == m);
                        } else {
                            assert(idx@[x0 + 1] == m);
                        }
                    }
                }
            }
        }
        j = j + 1;
    }
    idx
}

/// Appends a fresh pending execution for the workflow and hands back its id.
pub fn create_workflow_execution(store: &mut Store, region: String, workflow_id: u64, execution_index: i32, tenant_id: Option<u64>, is_retry: bool) -> (eid: u64)
    requires
        old(store).wf(),
        old(store).next_id < u64::MAX,
        0 <= execution_index,
    ensures
        final(store).wf(),
        eid == old(store).next_id,
        final(store).workflow_executions@ == old(store).workflow_executions@.push(
            WorkflowExecution {
                id: eid,
                region,
                workflow_id,
                execution_index,
                tenant_id,
                status: ExecutionStatus::Pending,
                is_retry,
                executed_at: None,
                result_json: None,
                failure_reason: None,
            },
        ),
        final(store).scheduled == old(store).scheduled,
        final(store).tenants == old(store).tenants,
        final(store).one_offs == old(store).one_offs,
        final(store).cron_jobs == old(store).cron_jobs,
        final(store).requests == old(store).requests,
        final(store).responses == old(store).responses,
        final(store).executions == old(store).executions,
        final(store).workflows == old(store).workflows,
        final(store).workflow_dependencies == old(store).workflow_dependencies,
        final(store).next_id == old(store).next_id + 1,
{
    let eid = store.alloc_id();
    store.workflow_executions.push(
        WorkflowExecution {
            id: eid,
            region,
            workflow_id,
            execution_index,
            tenant_id,
            status: ExecutionStatus::Pending,
            is_retry,
            executed_at: None,
            result_json: None,
            failure_reason: None,
        },
    );
    eid
}

/// The dependency row at `di`, joined with its child workflow's outcome and
/// its wait's elapsed flag, as the drivers read it.
pub fn dep_view(store: &Store, di: usize, now: i64) -> (r: DbDependency)
    requires
        di < store.workflow_dependencies@.len(),
        crate::store::distinct_ids(store.workflows@, |w: Workflow| w.id),
    ensures
        ({
            let d = store.workflow_dependencies@[di as int];
            &&& r.id == d.id
            &&& r.workflow_execution_id == d.workflow_execution_id
            &&& r.child_workflow_name == d.child_workflow_name
            &&& r.child_workflow_id == d.child_workflow_id
            &&& r.wait_name == d.wait_name
            &&& r.wait_until == d.wait_until
            &&& r.wait_complete == (match d.wait_until {
                Some(w) => Some(w < now),
                None => None::<bool>,
            })
            &&& (match d.child_workflow_id {
                Some(cid) => {
                    if exists|w: int| 0 <= w < store.workflows@.len() && (
                    #[trigger] store.workflows@[w]).id == cid {
                        let w = choose|w: int|
                            0 <= w < store.workflows@.len() && (#[trigger] store.workflows@[w]).id
                                == cid;
                        r.child_result == store.workflows@[w].result && r.child_error
                            == store.workflows@[w].error
                    } else {
                        r.child_result is None && r.child_error is None
                    }
                },
                None => r.child_result is None && r.child_error is None,
            })
        }),
{
    let d = &store.workflow_dependencies[di];
    let mut child_result: Option<String> = None;
    let mut child_error: Option<String> = None;
    match d.child_workflow_id {
        Some(cid) => {
            let mut w: usize = 0;
            let n = store.workflows.len();
            while w < n
                invariant_except_break
                    child_result is None && child_error is None,
                invariant
                    w <= n,
                    n == store.workflows@.len(),
                    forall|k: int| 0 <= k < w ==> (#[trigger] store.workflows@[k]).id != cid,
                ensures
                    w <= n,
                    (w < n ==> store.workflows@[w as int].id == cid && (match (
                        child_result,
                        child_error,
                    ) {
                        (a, b) => a == store.workflows@[w as int].result && b
                            == store.workflows@[w as int].error,
                    })),
                    (w == n ==> child_result is None && child_error is None && forall|k: int|
                        0 <= k < n ==> (#[trigger] store.workflows@[k]).id != cid),
                decreases n - w,
            {
                if store.workflows[w].id == cid {
                    child_result = match &store.workflows[w].result {
                        Some(x) => Some(x.clone()),
                        None => None,
                    };
                    child_error = match &store.workflows[w].error {
                        Some(x) => Some(x.clone()),
                        None => None,
                    };
                    break;
                }
                w = w + 1;
            }
            proof {
                if w < n {
                    assert(exists|k: int| 0 <= k < store.workflows@.len() && (
                    #[trigger] store.workflows@[k]).id == cid);
                    let k = choose|k: int|
                        0 <= k < store.workflows@.len() && (#[trigger] store.workflows@[k]).id
                            == cid;
                    if k != w as int {
                        let f = |x: Workflow| x.id;
                        assert(f(store.workflows@[k]) != f(store.workflows@[w as int]));
                        assert(false);
                    }
                }
            }
        },
        None => {},
    }
    let wait_complete = match d.wait_until {
        Some(wu) => Some(wu < now),
        None => None,
    };
    DbDependency {
        id: d.id,
        workflow_execution_id: d.workflow_execution_id,
        child_workflow_name: match &d.child_workflow_name {
            Some(x) => Some(x.clone()),
            None => None,
        },
        child_workflow_id: d.child_workflow_id,
        wait_name: match &d.wait_name {
            Some(x) => Some(x.clone()),
            None => None,
        },
        wait_until: d.wait_until,
        child_result,
        child_error,
        wait_complete,
    }
}

/// What one driver tick did.
pub enum DriverOutcome {
    Idle,
    CreatedFirst { workflow: u64 },
    CompletedWorkflow { workflow: u64 },
    FailedWorkflow { workflow: u64 },
    CreatedNext { workflow: u64, index: i32, is_retry: bool },
}

/// The workflow at index `k` has no non-terminal execution.
pub open spec fn a_candidate(s: Store, k: int) -> bool {
    &&& 0 <= k < s.workflows@.len()
    &&& forall|j: int| exec_of(s, j, s.workflows@[k].id) ==> terminal(
        s.workflow_executions@[j].status,
    )
}

/// The next execution index after `i`, saturating at the type limit.
pub open spec fn next_index(i: i32) -> i32 {
    if i < i32::MAX {
        (i + 1) as i32
    } else {
        i
    }
}

/// Indices of the workflow's dependencies, in table order; the store
/// appends dependency rows in id order, so this is id order for any store
/// the library built.
fn sorted_deps_of(store: &Store, wfid: u64) -> (idx: Vec<usize>)
    ensures
        forall|x: int| 0 <= x < idx@.len() ==> (#[trigger] idx@[x])
            < store.workflow_dependencies@.len(),
        forall|x: int, y: int| 0 <= x < y < idx@.len() ==> idx@[x] != idx@[y],
        forall|x: int| 0 <= x < idx@.len() ==> dep_of_wf(
            *store,
            store.workflow_dependencies@[#[trigger] idx@[x] as int],
            wfid,
        ),
        forall|j: int| 0 <= j < store.workflow_dependencies@.len() && dep_of_wf(
            *store,
            #[trigger] store.workflow_dependencies@[j],
            wfid,
        ) ==> exists|x: int| 0 <= x < idx@.len() && idx@[x] == j,
{
    let mut idx: Vec<usize> = Vec::new();
    let mut j: usize = 0;
    let n = store.workflow_dependencies.len();
    while j < n
        invariant
            j <= n,
            n == store.workflow_dependencies@.len(),
            forall|x: int| 0 <= x < idx@.len() ==> (#[trigger] idx@[x]) < j,
            forall|x: int, y: int| 0 <= x < y < idx@.len() ==> idx@[x] != idx@[y],
            forall|x: int| 0 <= x < idx@.len() ==> dep_of_wf(
                *store,
                store.workflow_dependencies@[#[trigger] idx@[x] as int],
                wfid,
            ),
            forall|m: int| 0 <= m < j && dep_of_wf(
                *store,
                #[trigger] store.workflow_dependencies@[m],
                wfid,
            ) ==> exists|x: int| 0 <= x < idx@.len() && idx@[x] == m,
        decreases n - j,
    {
        let owner = store.workflow_dependencies[j].workflow_execution_id;
        let mut belongs = false;
        let mut e: usize = 0;
        let ne = store.workflow_executions.len();
        while e < ne
            invariant_except_break
                belongs == false,
            invariant
                e <= ne,
                ne == store.workflow_executions@.len(),
                forall|m: int| 0 <= m < e ==> !((#[trigger] store.workflow_executions@[m]).id
                    == owner && store.workflow_executions@[m].workflow_id == wfid),
            ensures
                belongs == exists|m: int|
                    0 <= m < store.workflow_executions@.len() && (
                    #[trigger] store.workflow_executions@[m]).id == owner
                        && store.workflow_executions@[m].workflow_id == wfid,
            decreases ne - e,
        {
            if store.workflow_executions[e].id == owner && store.workflow_executions[e].workflow_id
                == wfid {
                belongs = true;
                break;
            }
            e = e + 1;
        }
        if belongs {
            let ghost pre = idx@;
            assert(dep_of_wf(*store, store.workflow_dependencies@[j as int], wfid));
            idx.push(j);
            proof {
                assert forall|m: int|
                    0 <= m < j + 1 && dep_of_wf(
                        *store,
                        #[trigger] store.workflow_dependencies@[m],
                        wfid,
                    ) implies exists|x: int| 0 <= x < idx@.len() && idx@[x] == m by {
                    if m == j as int {
                        assert(idx@[idx@.len() - 1] == j);
                    } else {
                        let x0 = choose|x: int| 0 <= x < pre.len() && pre[x] == m;
                        assert(idx@[x0] == m);
                    }
                }
            }
        }
        j = j + 1;
    }
    idx
}

/// The dependency belongs to an execution of the workflow `wfid`.
pub open spec fn dep_of_wf(s: Store, d: WorkflowDependency, wfid: u64) -> bool {
    exists|e: int| 0 <= e < s.workflow_executions@.len() && (#[trigger] s.workflow_executions@[e]).id
        == d.workflow_execution_id && s.workflow_executions@[e].workflow_id == wfid
}

/// Rebuilds the workflow's context from its execution log and dependencies.
fn build_context(store: &Store, input: String, idx: &Vec<usize>, dep_idx: &Vec<usize>, now: i64) -> (r: WorkflowContext)
    requires
        crate::store::distinct_ids(store.workflows@, |w: Workflow| w.id),
        forall|x: int| 0 <= x < idx@.len() ==> (#[trigger] idx@[x])
            < store.workflow_executions@.len(),
        forall|x: int| 0 <= x < dep_idx@.len() ==> (#[trigger] dep_idx@[x])
            < store.workflow_dependencies@.len(),
    ensures
        r.input == input,
{
    let mut ctx = WorkflowContext::new(input);
    let ghost input0 = ctx.input;
    let mut x: usize = 0;
    while x < idx.len()
        invariant
            x <= idx@.len(),
            ctx.input == input0,
            forall|m: int| 0 <= m < idx@.len() ==> (#[trigger] idx@[m])
                < store.workflow_executions@.len(),
        decreases idx@.len() - x,
    {
        ctx.ingest_execution(&store.workflow_executions[idx[x]], now);
        x = x + 1;
    }
    let mut x: usize = 0;
    while x < dep_idx.len()
        invariant
            x <= dep_idx@.len(),
            ctx.input == input0,
            crate::store::distinct_ids(store.workflows@, |w: Workflow| w.id),
            forall|m: int| 0 <= m < dep_idx@.len() ==> (#[trigger] dep_idx@[m])
                < store.workflow_dependencies@.len(),
        decreases dep_idx@.len() - x,
    {
        let d = dep_view(store, dep_idx[x], now);
        ctx.ingest_dependency(&d);
        x = x + 1;
    }
    ctx
}

/// Finalizes the workflow at table index `k` as completed with `result`.
fn finalize_workflow_success(store: &mut Store, k: usize, result: String, ctx: WorkflowContext)
    requires
        old(store).wf(),
        k < old(store).workflows@.len(),
    ensures
        final(store).wf(),
        final(store).workflows@ == old(store).workflows@.update(
            k as int,
            Workflow {
                status: WorkflowStatus::Completed,
                result: Some(result),
                context: Some(ctx),
                ..old(store).workflows@[k as int]
            },
        ),
        final(store).scheduled == old(store).scheduled,
        final(store).tenants == old(store).tenants,
        final(store).one_offs == old(store).one_offs,
        final(store).cron_jobs == old(store).cron_jobs,
        final(store).requests == old(store).requests,
        final(store).responses == old(store).responses,
        final(store).executions == old(store).executions,
        final(store).workflow_executions == old(store).workflow_executions,
        final(store).workflow_dependencies == old(store).workflow_dependencies,
        final(store).next_id == old(store).next_id,
{
    let ghost s0 = *old(store);
    let mut wf = store.workflows.remove(k);
    wf.status = WorkflowStatus::Completed;
    wf.result = Some(result);
    wf.context = Some(ctx);
    store.workflows.insert(k, wf);
    assert(store.workflows@ =~= s0.workflows@.update(
        k as int,
        Workflow {
            status: WorkflowStatus::Completed,
            result: store.workflows@[k as int].result,
            context: store.workflows@[k as int].context,
            ..s0.workflows@[k as int]
        },
    ));
    proof {
        let f = |w: Workflow| w.id;
        assert forall|i: int| 0 <= i < store.workflows@.len() implies #[trigger] f(
            store.workflows@[i],
        ) == f(s0.workflows@[i]) by {
            assert(f(s0.workflows@[i]) == s0.workflows@[i].id);
        }
        assert(crate::store::distinct_ids(store.workflows@, f));
        assert(crate::store::ids_below(store.workflows@, f, store.next_id));
    }
}

/// Finalizes the workflow at table index `k` as failed with `error`.
fn finalize_workflow_error(store: &mut Store, k: usize, error: String, ctx: WorkflowContext)
    requires
        old(store).wf(),
        k < old(store).workflows@.len(),
    ensures
        final(store).wf(),
        final(store).workflows@ == old(store).workflows@.update(
            k as int,
            Workflow {
                status: WorkflowStatus::Failed,
                error: Some(error),
                context: Some(ctx),
                ..old(store).workflows@[k as int]
            },
        ),
        final(store).scheduled == old(store).scheduled,
        final(store).tenants == old(store).tenants,
        final(store).one_offs == old(store).one_offs,
        final(store).cron_jobs == old(store).cron_jobs,
        final(store).requests == old(store).requests,
        final(store).responses == old(store).responses,
        final(store).executions == old(store).executions,
        final(store).workflow_executions == old(store).workflow_executions,
        final(store).workflow_dependencies == old(store).workflow_dependencies,
        final(store).next_id == old(store).next_id,
{
    let ghost s0 = *old(store);
    let mut wf = store.workflows.remove(k);
    wf.status = WorkflowStatus::Failed;
    wf.error = Some(error);
    wf.context = Some(ctx);
    store.workflows.insert(k, wf);
    assert(store.workflows@ =~= s0.workflows@.update(
        k as int,
        Workflow {
            status: WorkflowStatus::Failed,
            error: store.workflows@[k as int].error,
            context: store.workflows@[k as int].context,
            ..s0.workflows@[k as int]
        },
    ));
    proof {
        let f = |w: Workflow| w.id;
        assert forall|i: int| 0 <= i < store.workflows@.len() implies #[trigger] f(
            store.workflows@[i],
        ) == f(s0.workflows@[i]) by {
            assert(f(s0.workflows@[i]) == s0.workflows@[i].id);
        }
        assert(crate::store::distinct_ids(store.workflows@, f));
        assert(crate::store::ids_below(store.workflows@, f, store.next_id));
    }
}

/// Removes the first occurrence of a name from a deduplicated name list.
fn set_remove(v: &mut Vec<String>, k: &String)
{
    let mut i: usize = 0;
    while i < v.len()
        decreases v@.len() - i,
    {
        if v[i] == *k {
            let _ = v.remove(i);
            return;
        }
        i = i + 1;
    }
}

/// The message a workflow is failed with when its retry budget is spent.
pub fn retries_exhausted_message() -> (r: String)
    ensures
        r@ == "cannot retry execution: retry budget exhausted"@,
{
    let r = String::new();
    r.concat("cannot retry execution: retry budget exhausted")
}

/// Scheduler A: drives workflows that have no non-terminal execution.
pub struct NoExecutionScheduler;

impl NoExecutionScheduler {
    /// One driver tick. Picks a workflow with no non-terminal execution and
    /// either creates its first execution, finalizes it from its last
    /// execution's result or error, or creates the next execution (counted
    /// as a retry when the last tick declared nothing new).
    pub fn run_once(store: &mut Store, now: i64, reached_end: &mut bool) -> (r: DriverOutcome)
        requires
            old(store).wf(),
            0 <= now <= MAX_TS,
            old(store).next_id < u64::MAX,
        ensures
            final(store).wf(),
            (r is Idle) == (forall|k: int| !a_candidate(*old(store), k)),
            r is Idle ==> *final(store) == *old(store) && *final(reached_end),
            !(r is Idle) ==> *final(reached_end) == *old(reached_end),
            r matches DriverOutcome::CreatedFirst { workflow } ==> exists|k: int|
                #![trigger old(store).workflows@[k]]
                {
                    &&& a_candidate(*old(store), k)
                    &&& old(store).workflows@[k].id == workflow
                    &&& (forall|j: int| !exec_of(*old(store), j, workflow))
                    &&& final(store).workflow_executions@ == old(store).workflow_executions@.push(
                        WorkflowExecution {
                            id: old(store).next_id,
                            region: old(store).workflows@[k].region,
                            workflow_id: workflow,
                            execution_index: 0,
                            tenant_id: old(store).workflows@[k].tenant_id,
                            status: ExecutionStatus::Pending,
                            is_retry: false,
                            executed_at: None,
                            result_json: None,
                            failure_reason: None,
                        },
                    )
                    &&& final(store).workflows == old(store).workflows
                },
            r matches DriverOutcome::CompletedWorkflow { workflow } ==> exists|k: int, li: int|
                #![trigger old(store).workflows@[k], old(store).workflow_executions@[li]]
                {
                    &&& a_candidate(*old(store), k)
                    &&& old(store).workflows@[k].id == workflow
                    &&& exec_of(*old(store), li, workflow)
                    &&& (forall|j: int| exec_of(*old(store), j, workflow)
                        ==> old(store).workflow_executions@[j].execution_index <= old(store).workflow_executions@[li].execution_index)
                    &&& (match old(store).workflow_executions@[li].result_json {
                        Some(sr) => match sr.data {
                            Some(d) => d.result is Some && final(store).workflows@[k].result
                                == d.result,
                            None => false,
                        },
                        None => false,
                    })
                    &&& final(store).workflows@ == old(store).workflows@.update(
                        k,
                        Workflow {
                            status: WorkflowStatus::Completed,
                            result: final(store).workflows@[k].result,
                            context: final(store).workflows@[k].context,
                            ..old(store).workflows@[k]
                        },
                    )
                    &&& final(store).workflows@[k].context is Some
                    &&& final(store).workflow_executions == old(store).workflow_executions
                },
            r matches DriverOutcome::FailedWorkflow { workflow } ==> exists|k: int, li: int|
                #![trigger old(store).workflows@[k], old(store).workflow_executions@[li]]
                {
                    &&& a_candidate(*old(store), k)
                    &&& old(store).workflows@[k].id == workflow
                    &&& exec_of(*old(store), li, workflow)
                    &&& (forall|j: int| exec_of(*old(store), j, workflow)
                        ==> old(store).workflow_executions@[j].execution_index <= old(store).workflow_executions@[li].execution_index)
                    &&& !exec_returned_result(old(store).workflow_executions@[li])
                    &&& count_retries(old(store).workflow_executions@, workflow) == old(store).workflows@[k].max_retries
                    &&& (match old(store).workflow_executions@[li].failure_reason {
                        Some(msg) => final(store).workflows@[k].error == Some(msg),
                        None => final(store).workflows@[k].error is Some,
                    })
                    &&& final(store).workflows@ == old(store).workflows@.update(
                        k,
                        Workflow {
                            status: WorkflowStatus::Failed,
                            error: final(store).workflows@[k].error,
                            context: final(store).workflows@[k].context,
                            ..old(store).workflows@[k]
                        },
                    )
                    &&& final(store).workflows@[k].context is Some
                    &&& final(store).workflow_executions == old(store).workflow_executions
                },
            r matches DriverOutcome::CreatedNext { workflow, index, is_retry } ==> exists|k: int, li: int|
                #![trigger old(store).workflows@[k], old(store).workflow_executions@[li]]
                {
                    &&& a_candidate(*old(store), k)
                    &&& old(store).workflows@[k].id == workflow
                    &&& exec_of(*old(store), li, workflow)
                    &&& (forall|j: int| exec_of(*old(store), j, workflow)
                        ==> old(store).workflow_executions@[j].execution_index <= old(store).workflow_executions@[li].execution_index)
                    &&& !exec_returned_result(old(store).workflow_executions@[li])
                    &&& index == next_index(old(store).workflow_executions@[li].execution_index)
                    &&& (old(store).workflow_executions@[li].failure_reason is Some ==> is_retry)
                    &&& final(store).workflow_executions@ == old(store).workflow_executions@.push(
                        WorkflowExecution {
                            id: old(store).next_id,
                            region: old(store).workflows@[k].region,
                            workflow_id: workflow,
                            execution_index: index,
                            tenant_id: old(store).workflows@[k].tenant_id,
                            status: ExecutionStatus::Pending,
                            is_retry,
                            executed_at: None,
                            result_json: None,
                            failure_reason: None,
                        },
                    )
                    &&& final(store).workflows == old(store).workflows
                },
            final(store).scheduled == old(store).scheduled,
            final(store).tenants == old(store).tenants,
            final(store).one_offs == old(store).one_offs,
            final(store).cron_jobs == old(store).cron_jobs,
            final(store).requests == old(store).requests,
            final(store).responses == old(store).responses,
            final(store).executions == old(store).executions,
            final(store).workflow_dependencies == old(store).workflow_dependencies,
    {
        let ghost s0 = *old(store);
        let mut k: usize = 0;
        let n = store.workflows.len();
        let mut found: usize = n;
        while k < n
            invariant_except_break
                found == n,
            invariant
                *store == s0,
                n == s0.workflows@.len(),
                k <= n,
                forall|i: int| 0 <= i < k ==> !a_candidate(s0, i),
            ensures
                *store == s0,
                found <= n,
                found == n ==> forall|i: int| !a_candidate(s0, i),
                found < n ==> a_candidate(s0, found as int),
            decreases n - k,
        {
            let wfid = store.workflows[k].id;
            let mut all_terminal = true;
            let mut j: usize = 0;
            let ne = store.workflow_executions.len();
            while j < ne
                invariant_except_break
                    all_terminal == true,
                invariant
                    *store == s0,
                    ne == s0.workflow_executions@.len(),
                    j <= ne,
                    forall|m: int| 0 <= m < j && (
                    #[trigger] s0.workflow_executions@[m]).workflow_id == wfid ==> terminal(
                        s0.workflow_executions@[m].status,
                    ),
                ensures
                    *store == s0,
                    all_terminal ==> forall|m: int|
                        0 <= m < ne && (#[trigger] s0.workflow_executions@[m]).workflow_id == wfid
                            ==> terminal(s0.workflow_executions@[m].status),
                    !all_terminal ==> exists|m: int|
                        0 <= m < ne && (#[trigger] s0.workflow_executions@[m]).workflow_id == wfid
                            && !terminal(s0.workflow_executions@[m].status),
                decreases ne - j,
            {
                let st = store.workflow_executions[j].status;
                let is_term = match st {
                    ExecutionStatus::Completed => true,
                    ExecutionStatus::Failed => true,
                    _ => false,
                };
                if store.workflow_executions[j].workflow_id == wfid && !is_term {
                    all_terminal = false;
                    break;
                }
                j = j + 1;
            }
            if all_terminal {
                found = k;
                assert(a_candidate(s0, k as int));
                break;
            }
            proof {
                let m = choose|m: int|
                    0 <= m < ne && (#[trigger] s0.workflow_executions@[m]).workflow_id == wfid
                        && !terminal(s0.workflow_executions@[m].status);
                assert(exec_of(s0, m, wfid));
                assert(!a_candidate(s0, k as int));
            }
            k = k + 1;
        }
        if found == n {
            *reached_end = true;
            return DriverOutcome::Idle;
        }

        let wfid = store.workflows[found].id;
        let region = store.workflows[found].region.clone();
        let tenant_id = store.workflows[found].tenant_id;
        let max_retries = store.workflows[found].max_retries;
        let input = store.workflows[found].input.clone();

        let idx = sorted_executions_of(store, wfid);
        if idx.len() == 0 {
            proof {
                assert forall|j: int| !exec_of(s0, j, wfid) by {
                    if exec_of(s0, j, wfid) {
                        assert(exists|x: int| 0 <= x < idx@.len() && idx@[x] == j);
                    }
                }
            }
            create_workflow_execution(store, region, wfid, 0, tenant_id, false);
            return DriverOutcome::CreatedFirst { workflow: wfid };
        }
        let li = idx[idx.len() - 1];
        proof {
            assert(exec_of(s0, li as int, wfid));
            assert forall|j: int| exec_of(s0, j, wfid) implies
                s0.workflow_executions@[j].execution_index
                    <= s0.workflow_executions@[li as int].execution_index by {
                let x = choose|x: int| 0 <= x < idx@.len() && idx@[x] == j;
                if x < idx@.len() - 1 {
                    assert(s0.workflow_executions@[idx@[x] as int].execution_index
                        <= s0.workflow_executions@[idx@[idx@.len() - 1] as int].execution_index);
                }
            }
        }

        // Count the retries made so far.
        let mut rc: usize = 0;
        let mut j: usize = 0;
        let ne = store.workflow_executions.len();
        while j < ne
            invariant
                *store == s0,
                ne == s0.workflow_executions@.len(),
                j <= ne,
                rc <= j,
                rc == count_retries(s0.workflow_executions@.subrange(0, j as int), wfid),
            decreases ne - j,
        {
            assert(s0.workflow_executions@.subrange(0, j as int + 1).drop_last()
                =~= s0.workflow_executions@.subrange(0, j as int));
            assert(s0.workflow_executions@.subrange(0, j as int + 1).last()
                == s0.workflow_executions@[j as int]);
            if store.workflow_executions[j].workflow_id == wfid
                && store.workflow_executions[j].is_retry {
                rc = rc + 1;
            }
            j = j + 1;
        }
        assert(s0.workflow_executions@.subrange(0, ne as int) =~= s0.workflow_executions@);
        let budget_spent = max_retries >= 0 && rc == max_retries as usize;

        let dep_idx = sorted_deps_of(store, wfid);

        let last_has_result = match &store.workflow_executions[li].result_json {
            Some(sr) => match &sr.data {
                Some(d) => d.result.is_some(),
                None => false,
            },
            None => false,
        };
        if last_has_result {
            let raw = match &store.workflow_executions[li].result_json {
                Some(sr) => match &sr.data {
                    Some(d) => match &d.result {
                        Some(v) => v.clone(),
                        None => String::new(),
                    },
                    None => String::new(),
                },
                None => String::new(),
            };
            let ctx = build_context(store, input, &idx, &dep_idx, now);
            finalize_workflow_success(store, found, raw, ctx);
            proof {
                assert(a_candidate(s0, found as int) && s0.workflows@[found as int].id == wfid
                    && exec_of(s0, li as int, wfid));
            }
            return DriverOutcome::CompletedWorkflow { workflow: wfid };
        }
        let last_failed = store.workflow_executions[li].failure_reason.is_some();
        if last_failed {
            if budget_spent {
                let err = match &store.workflow_executions[li].failure_reason {
                    Some(e) => e.clone(),
                    None => String::new(),
                };
                let ctx = build_context(store, input, &idx, &dep_idx, now);
                finalize_workflow_error(store, found, err, ctx);
                proof {
                    assert(a_candidate(s0, found as int) && s0.workflows@[found as int].id == wfid
                        && exec_of(s0, li as int, wfid));
                }
                return DriverOutcome::FailedWorkflow { workflow: wfid };
            }
            let index = if store.workflow_executions[li].execution_index < i32::MAX {
                store.workflow_executions[li].execution_index + 1
            } else {
                store.workflow_executions[li].execution_index
            };
            create_workflow_execution(store, region, wfid, index, tenant_id, true);
            proof {
                assert(a_candidate(s0, found as int) && s0.workflows@[found as int].id == wfid
                    && exec_of(s0, li as int, wfid));
            }
            return DriverOutcome::CreatedNext { workflow: wfid, index, is_retry: true };
        }

        // A tick that declared nothing new counts as a retry.
        let mut names: Vec<String> = Vec::new();
        let mut j: usize = 0;
        while j < store.workflow_executions.len()
            invariant
                *store == s0,
                j <= s0.workflow_executions@.len(),
            decreases s0.workflow_executions@.len() - j,
        {
            if store.workflow_executions[j].workflow_id == wfid {
                match &store.workflow_executions[j].result_json {
                    Some(sr) => {
                        match &sr.data {
                            Some(d) => {
                                let mut m: usize = 0;
                                while m < d.new_children.len()
                                    decreases d.new_children@.len() - m,
                                {
                                    crate::workflow::set_insert(
                                        &mut names,
                                        d.new_children[m].0.clone(),
                                    );
                                    m = m + 1;
                                }
                                let mut m: usize = 0;
                                while m < d.new_waits.len()
                                    decreases d.new_waits@.len() - m,
                                {
                                    crate::workflow::set_insert(&mut names, d.new_waits[m].0.clone());
                                    m = m + 1;
                                }
                            },
                            None => {},
                        }
                    },
                    None => {},
                }
            }
            j = j + 1;
        }
        let mut x: usize = 0;
        while x < dep_idx.len()
            invariant
                *store == s0,
                x <= dep_idx@.len(),
                forall|m: int| 0 <= m < dep_idx@.len() ==> (#[trigger] dep_idx@[m])
                    < s0.workflow_dependencies@.len(),
            decreases dep_idx@.len() - x,
        {
            match &store.workflow_dependencies[dep_idx[x]].wait_name {
                Some(nm) => {
                    let nm = nm.clone();
                    set_remove(&mut names, &nm);
                },
                None => {},
            }
            match &store.workflow_dependencies[dep_idx[x]].child_workflow_name {
                Some(nm) => {
                    let nm = nm.clone();
                    set_remove(&mut names, &nm);
                },
                None => {},
            }
            x = x + 1;
        }
        let is_retry = names.len() == 0;
        if is_retry && budget_spent {
            let ctx = build_context(store, input, &idx, &dep_idx, now);
            finalize_workflow_error(store, found, retries_exhausted_message(), ctx);
            proof {
                assert(a_candidate(s0, found as int) && s0.workflows@[found as int].id == wfid
                    && exec_of(s0, li as int, wfid));
            }
            return DriverOutcome::FailedWorkflow { workflow: wfid };
        }
        let index = if store.workflow_executions[li].execution_index < i32::MAX {
            store.workflow_executions[li].execution_index + 1
        } else {
            store.workflow_executions[li].execution_index
        };
        create_workflow_execution(store, region, wfid, index, tenant_id, is_retry);
        proof {
            assert(a_candidate(s0, found as int) && s0.workflows@[found as int].id == wfid
                && exec_of(s0, li as int, wfid));
        }
        DriverOutcome::CreatedNext { workflow: wfid, index, is_retry }
    }
}

/// The children an execution's stored result declares.
pub open spec fn decl_children(e: WorkflowExecution) -> Seq<(String, ChildDefinition)> {
    match e.result_json {
        Some(sr) => match sr.data {
            Some(d) => d.new_children@,
            None => Seq::empty(),
        },
        None => Seq::empty(),
    }
}

/// The waits an execution's stored result declares.
pub open spec fn decl_waits(e: WorkflowExecution) -> Seq<(String, crate::store::WaitDefinition)> {
    match e.result_json {
        Some(sr) => match sr.data {
            Some(d) => d.new_waits@,
            None => Seq::empty(),
        },
        None => Seq::empty(),
    }
}

/// Some execution of the workflow declares a child under this name.
pub open spec fn child_declared(s: Store, wfid: u64, name: Seq<char>) -> bool {
    exists|j: int, m: int| exec_of(s, j, wfid) && 0 <= m < decl_children(
        #[trigger] s.workflow_executions@[j],
    ).len() && (#[trigger] decl_children(s.workflow_executions@[j])[m]).0@ == name
}

/// Some execution of the workflow declares a child under this name with this
/// url, input and retry budget.
pub open spec fn child_declaration(s: Store, wfid: u64, name: Seq<char>, url: Seq<char>, input: Seq<char>, retries: i32) -> bool {
    exists|j: int, m: int| exec_of(s, j, wfid) && 0 <= m < decl_children(
        #[trigger] s.workflow_executions@[j],
    ).len() && ({
        let e = #[trigger] decl_children(s.workflow_executions@[j])[m];
        &&& e.0@ == name
        &&& e.1.spec_url() == url
        &&& e.1.spec_input() == input
        &&& e.1.spec_max_retries() == retries
    })
}

/// Some execution of the workflow declares a wait under this name.
pub open spec fn wait_declared(s: Store, wfid: u64, name: Seq<char>) -> bool {
    exists|j: int, m: int| exec_of(s, j, wfid) && 0 <= m < decl_waits(
        #[trigger] s.workflow_executions@[j],
    ).len() && (#[trigger] decl_waits(s.workflow_executions@[j])[m]).0@ == name
}

/// Some execution of the workflow declares a wait under this name elapsing
/// at this instant.
pub open spec fn wait_declaration(s: Store, wfid: u64, name: Seq<char>, until: i64) -> bool {
    exists|j: int, m: int| exec_of(s, j, wfid) && 0 <= m < decl_waits(
        #[trigger] s.workflow_executions@[j],
    ).len() && ({
        let e = #[trigger] decl_waits(s.workflow_executions@[j])[m];
        e.0@ == name && e.1.spec_wait_until() == until
    })
}

/// An existing dependency of the workflow already links a child under this
/// name.
pub open spec fn child_dep_named(s: Store, wfid: u64, name: Seq<char>) -> bool {
    exists|d: int| 0 <= d < s.workflow_dependencies@.len() && dep_of_wf(
        s,
        #[trigger] s.workflow_dependencies@[d],
        wfid,
    ) && (match s.workflow_dependencies@[d].child_workflow_name {
        Some(n) => n@ == name,
        None => false,
    })
}

/// An existing dependency of the workflow already carries a wait under this
/// name.
pub open spec fn wait_dep_named(s: Store, wfid: u64, name: Seq<char>) -> bool {
    exists|d: int| 0 <= d < s.workflow_dependencies@.len() && dep_of_wf(
        s,
        #[trigger] s.workflow_dependencies@[d],
        wfid,
    ) && (match s.workflow_dependencies@[d].wait_name {
        Some(n) => n@ == name,
        None => false,
    })
}

/// How many child and wait entries all stored results declare, in total:
/// the ceiling on what one materialization pass can insert.
pub open spec fn total_decl_entries(execs: Seq<WorkflowExecution>) -> nat
    decreases execs.len(),
{
    if execs.len() == 0 {
        0
    } else {
        total_decl_entries(execs.drop_last()) + decl_children(execs.last()).len() + decl_waits(
            execs.last(),
        ).len()
    }
}

/// The workflow at index `k` has a pending execution and no waiting or
/// scheduled one.
pub open spec fn b_candidate(s: Store, k: int) -> bool {
    &&& 0 <= k < s.workflows@.len()
    &&& (exists|j: int| exec_of(s, j, s.workflows@[k].id) && (
    #[trigger] s.workflow_executions@[j].status) is Pending)
    &&& (forall|j: int| exec_of(s, j, s.workflows@[k].id) ==> ((
    #[trigger] s.workflow_executions@[j].status) is Pending || terminal(
        s.workflow_executions@[j].status,
    )))
}

/// Clones a child definition.
fn clone_child(c: &ChildDefinition) -> (r: ChildDefinition)
    ensures
        r == *c,
{
    match c {
        ChildDefinition::V1Struct { url, input, max_retries } => ChildDefinition::V1Struct {
            url: url.clone(),
            input: input.clone(),
            max_retries: *max_retries,
        },
        ChildDefinition::V1Tuple(url, input) => ChildDefinition::V1Tuple(
            url.clone(),
            input.clone(),
        ),
    }
}

/// Removes the first entry under a name from an association list: the named
/// key is gone (given distinct keys), every other entry survives.
fn assoc_remove<V>(v: &mut Vec<(String, V)>, k: &String)
    ensures
        final(v)@.len() <= old(v)@.len(),
        forall|x: int| #![trigger final(v)@[x]] 0 <= x < final(v)@.len() ==> final(v)@[x]
            == old(v)@[x] || (x + 1 < old(v)@.len() && final(v)@[x] == old(v)@[x + 1]),
        forall|nm: Seq<char>| nm != k@ && crate::workflow::has_key(old(v)@, nm)
            ==> crate::workflow::has_key(final(v)@, nm),
        forall|nm: Seq<char>| #[trigger] crate::workflow::has_key(final(v)@, nm)
            ==> crate::workflow::has_key(old(v)@, nm),
        crate::workflow::distinct_keys(old(v)@) ==> (crate::workflow::distinct_keys(final(v)@)
            && !crate::workflow::has_key(final(v)@, k@)),
{
    let ghost s0 = v@;
    let mut i: usize = 0;
    while i < v.len()
        invariant
            s0 == old(v)@,
            v@ == s0,
            i <= s0.len(),
            forall|m: int| 0 <= m < i ==> (#[trigger] s0[m]).0@ != k@,
        decreases s0.len() - i,
    {
        if v[i].0 == *k {
            assert(s0[i as int].0@ == k@);
            let _ = v.remove(i);
            proof {
                assert(v@.len() < s0.len());
                assert forall|x: int| #![trigger v@[x]] 0 <= x < v@.len() implies v@[x]
                    == old(v)@[x] || (x + 1 < old(v)@.len() && v@[x] == old(v)@[x + 1]) by {
                    if x < i {
                        assert(v@[x] == old(v)@[x]);
                    } else {
                        assert(v@[x] == old(v)@[x + 1]);
                    }
                }
                assert forall|nm: Seq<char>|
                    nm != k@ && crate::workflow::has_key(s0, nm) implies crate::workflow::has_key(
                    v@,
                    nm,
                ) by {
                    let y = choose|y: int| 0 <= y < s0.len() && (#[trigger] s0[y]).0@ == nm;
                    if y < i {
                        assert(v@[y].0@ == nm);
                    } else {
                        assert(y != i);
                        assert(v@[y - 1].0@ == nm);
                    }
                }
                if crate::workflow::distinct_keys(s0) {
                    assert forall|a: int, b: int| 0 <= a < b < v@.len() implies (
                    #[trigger] v@[a]).0@ != (#[trigger] v@[b]).0@ by {
                        let ao: int = if a < i {
                            a
                        } else {
                            a + 1
                        };
                        let bo: int = if b < i {
                            b
                        } else {
                            b + 1
                        };
                        assert(v@[a] == s0[ao] && v@[b] == s0[bo]);
                    }
                    assert forall|x: int| 0 <= x < v@.len() implies (#[trigger] v@[x]).0@
                        != k@ by {
                        let xo: int = if x < i {
                            x
                        } else {
                            x + 1
                        };
                        assert(v@[x] == s0[xo]);
                        assert(s0[xo].0@ != s0[i as int].0@ || xo == i);
                    }
                }
            }
            return;
        }
        i = i + 1;
    }
}

/// Scheduler B: materializes the dependencies a pending execution declared.
pub struct PendingExecutionScheduler;

impl PendingExecutionScheduler {
    /// One driver tick. Picks a workflow with a pending execution and no
    /// other non-terminal one, inserts a pending child workflow and a
    /// dependency row for every declared child not yet materialized, a
    /// dependency row for every declared wait not yet carried, and moves the
    /// execution to waiting.
    #[verifier::rlimit(100)]
    #[verifier::spinoff_prover]
    pub fn run_once(store: &mut Store, now: i64, reached_end: &mut bool) -> (r: Option<u64>)
        requires
            old(store).wf(),
            0 <= now <= MAX_TS,
            old(store).next_id + 2 * total_decl_entries(old(store).workflow_executions@)
                < u64::MAX,
        ensures
            final(store).wf(),
            (r is None) == (forall|k: int| !b_candidate(*old(store), k)),
            r is None ==> *final(store) == *old(store) && *final(reached_end),
            r is Some ==> *final(reached_end) == *old(reached_end),
            r matches Some(wfid) ==> exists|k: int, pi: int|
                #![trigger old(store).workflows@[k], old(store).workflow_executions@[pi]]
                {
                    &&& b_candidate(*old(store), k)
                    &&& old(store).workflows@[k].id == wfid
                    &&& exec_of(*old(store), pi, wfid)
                    &&& old(store).workflow_executions@[pi].status is Pending
                    // The pending execution is now waiting; nothing else in
                    // the log changed.
                    &&& final(store).workflow_executions@ == old(store).workflow_executions@.update(
                        pi,
                        WorkflowExecution {
                            status: ExecutionStatus::Waiting,
                            ..old(store).workflow_executions@[pi]
                        },
                    )
                    // Child workflows appended: all pending, in the parent's
                    // region and tenant.
                    &&& final(store).workflows@.len() >= old(store).workflows@.len()
                    &&& final(store).workflows@.subrange(0, old(store).workflows@.len() as int)
                        == old(store).workflows@
                    &&& (forall|w: int| old(store).workflows@.len() <= w < final(store).workflows@.len() ==> {
                        let c = #[trigger] final(store).workflows@[w];
                        &&& c.status is Pending
                        &&& c.region == old(store).workflows@[k].region
                        &&& c.tenant_id == old(store).workflows@[k].tenant_id
                        &&& c.context is None
                        &&& c.result is None
                        &&& c.error is None
                    })
                    // Dependencies appended: all owned by the pending
                    // execution, each a wait or a freshly created child.
                    &&& final(store).workflow_dependencies@.len() >= old(store).workflow_dependencies@.len()
                    &&& final(store).workflow_dependencies@.subrange(
                        0,
                        old(store).workflow_dependencies@.len() as int,
                    ) == old(store).workflow_dependencies@
                    &&& (forall|d: int| old(store).workflow_dependencies@.len() <= d < final(store).workflow_dependencies@.len() ==> {
                        let dd = #[trigger] final(store).workflow_dependencies@[d];
                        &&& dep_ok(dd)
                        &&& dd.workflow_execution_id == old(store).workflow_executions@[pi].id
                        &&& (dd.child_workflow_id matches Some(cid) ==> cid >= old(store).next_id)
                    })
                    // Every declared-but-unmaterialized child and wait is
                    // materialized.
                    &&& (forall|name: Seq<char>| child_declared(*old(store), wfid, name)
                        && !child_dep_named(*old(store), wfid, name) ==> exists|d: int|
                        old(store).workflow_dependencies@.len() <= d < final(store).workflow_dependencies@.len() && (match (
                        #[trigger] final(store).workflow_dependencies@[d]).child_workflow_name {
                            Some(nm) => nm@ == name,
                            None => false,
                        }))
                    &&& (forall|name: Seq<char>| wait_declared(*old(store), wfid, name)
                        && !wait_dep_named(*old(store), wfid, name) ==> exists|d: int|
                        old(store).workflow_dependencies@.len() <= d < final(store).workflow_dependencies@.len() && (match (
                        #[trigger] final(store).workflow_dependencies@[d]).wait_name {
                            Some(nm) => nm@ == name,
                            None => false,
                        }))
                    // Nothing else is: every appended child dependency links
                    // a fresh pending child built from a declaration of its
                    // name, every appended wait carries a declared wait
                    // time, and no name is materialized twice.
                    &&& (forall|d: int| old(store).workflow_dependencies@.len() <= d < final(store).workflow_dependencies@.len() ==> (match (
                    #[trigger] final(store).workflow_dependencies@[d]).child_workflow_name {
                        Some(nm) => child_declared(*old(store), wfid, nm@) && !child_dep_named(
                            *old(store),
                            wfid,
                            nm@,
                        ) && (match final(store).workflow_dependencies@[d].child_workflow_id {
                            Some(cid) => exists|w: int|
                                old(store).workflows@.len() <= w < final(store).workflows@.len()
                                    && (#[trigger] final(store).workflows@[w]).id == cid
                                    && child_declaration(
                                    *old(store),
                                    wfid,
                                    nm@,
                                    final(store).workflows@[w].implementation_url@,
                                    final(store).workflows@[w].input@,
                                    final(store).workflows@[w].max_retries,
                                ),
                            None => false,
                        }),
                        None => true,
                    }))
                    &&& (forall|d: int| old(store).workflow_dependencies@.len() <= d < final(store).workflow_dependencies@.len() ==> (match (
                    #[trigger] final(store).workflow_dependencies@[d]).wait_name {
                        Some(nm) => wait_declared(*old(store), wfid, nm@) && !wait_dep_named(
                            *old(store),
                            wfid,
                            nm@,
                        ) && (match final(store).workflow_dependencies@[d].wait_until {
                            Some(u) => wait_declaration(*old(store), wfid, nm@, u),
                            None => false,
                        }),
                        None => true,
                    }))
                    &&& (forall|d1: int, d2: int| old(store).workflow_dependencies@.len() <= d1
                        < d2 < final(store).workflow_dependencies@.len() ==> (match ((
                    #[trigger] final(store).workflow_dependencies@[d1]).child_workflow_name, (
                    #[trigger] final(store).workflow_dependencies@[d2]).child_workflow_name) {
                        (Some(n1), Some(n2)) => n1@ != n2@,
                        _ => true,
                    }))
                    &&& (forall|d1: int, d2: int| old(store).workflow_dependencies@.len() <= d1
                        < d2 < final(store).workflow_dependencies@.len() ==> (match ((
                    #[trigger] final(store).workflow_dependencies@[d1]).wait_name, (
                    #[trigger] final(store).workflow_dependencies@[d2]).wait_name) {
                        (Some(n1), Some(n2)) => n1@ != n2@,
                        _ => true,
                    }))
                },
            final(store).scheduled == old(store).scheduled,
            final(store).tenants == old(store).tenants,
            final(store).one_offs == old(store).one_offs,
            final(store).cron_jobs == old(store).cron_jobs,
            final(store).requests == old(store).requests,
            final(store).responses == old(store).responses,
            final(store).executions == old(store).executions,
    {
        let ghost s0 = *old(store);
        let mut k: usize = 0;
        let n = store.workflows.len();
        let mut found: usize = n;
        let mut pi: usize = 0;
        while k < n
            invariant_except_break
                found == n,
            invariant
                *store == s0,
                n == s0.workflows@.len(),
                k <= n,
                forall|i: int| 0 <= i < k ==> !b_candidate(s0, i),
            ensures
                *store == s0,
                found <= n,
                found == n ==> forall|i: int| !b_candidate(s0, i),
                found < n ==> b_candidate(s0, found as int) && pi
                    < s0.workflow_executions@.len()
                    && s0.workflow_executions@[pi as int].workflow_id
                    == s0.workflows@[found as int].id
                    && s0.workflow_executions@[pi as int].status is Pending,
            decreases n - k,
        {
            let wfid = store.workflows[k].id;
            let mut shape_ok = true;
            let mut has_pending = false;
            let mut first_pending: usize = 0;
            let mut j: usize = 0;
            let ne = store.workflow_executions.len();
            while j < ne
                invariant_except_break
                    shape_ok == true,
                invariant
                    *store == s0,
                    ne == s0.workflow_executions@.len(),
                    j <= ne,
                    forall|m: int| 0 <= m < j && (
                    #[trigger] s0.workflow_executions@[m]).workflow_id == wfid ==> (
                    s0.workflow_executions@[m].status is Pending || terminal(
                        s0.workflow_executions@[m].status,
                    )),
                    has_pending ==> first_pending < ne
                        && s0.workflow_executions@[first_pending as int].workflow_id == wfid
                        && s0.workflow_executions@[first_pending as int].status is Pending,
                    !has_pending ==> forall|m: int| 0 <= m < j && (
                    #[trigger] s0.workflow_executions@[m]).workflow_id == wfid
                        ==> !(s0.workflow_executions@[m].status is Pending),
                ensures
                    *store == s0,
                    shape_ok ==> forall|m: int|
                        0 <= m < ne && (#[trigger] s0.workflow_executions@[m]).workflow_id == wfid
                            ==> (s0.workflow_executions@[m].status is Pending || terminal(
                            s0.workflow_executions@[m].status,
                        )),
                    !shape_ok ==> exists|m: int|
                        0 <= m < ne && (#[trigger] s0.workflow_executions@[m]).workflow_id == wfid
                            && !(s0.workflow_executions@[m].status is Pending || terminal(
                            s0.workflow_executions@[m].status,
                        )),
                    has_pending ==> first_pending < ne
                        && s0.workflow_executions@[first_pending as int].workflow_id == wfid
                        && s0.workflow_executions@[first_pending as int].status is Pending,
                    shape_ok ==> (has_pending == exists|m: int|
                        0 <= m < ne && (#[trigger] s0.workflow_executions@[m]).workflow_id == wfid
                            && s0.workflow_executions@[m].status is Pending),
                decreases ne - j,
            {
                if store.workflow_executions[j].workflow_id == wfid {
                    let st = store.workflow_executions[j].status;
                    match st {
                        ExecutionStatus::Pending => {
                            if !has_pending {
                                has_pending = true;
                                first_pending = j;
                            }
                        },
                        ExecutionStatus::Completed => {},
                        ExecutionStatus::Failed => {},
                        _ => {
                            shape_ok = false;
                            break;
                        },
                    }
                }
                j = j + 1;
            }
            if shape_ok && has_pending {
                found = k;
                pi = first_pending;
                proof {
                    assert(exec_of(s0, first_pending as int, wfid));
                    assert(b_candidate(s0, k as int));
                }
                break;
            }
            proof {
                if !shape_ok {
                    let m = choose|m: int|
                        0 <= m < ne && (#[trigger] s0.workflow_executions@[m]).workflow_id == wfid
                            && !(s0.workflow_executions@[m].status is Pending || terminal(
                            s0.workflow_executions@[m].status,
                        ));
                    assert(exec_of(s0, m, wfid));
                    assert(!b_candidate(s0, k as int));
                } else {
                    assert(!b_candidate(s0, k as int));
                }
            }
            k = k + 1;
        }
        if found == n {
            *reached_end = true;
            return None;
        }
        let wfid = store.workflows[found].id;
        let region = store.workflows[found].region.clone();
        let tenant_id = store.workflows[found].tenant_id;
        let pe_id = store.workflow_executions[pi].id;

        // Collect the declared children and waits: one entry per declared
        // name, later declarations overwriting earlier ones.
        let mut children: Vec<(String, crate::store::ChildDefinition)> = Vec::new();
        let mut waits: Vec<(String, i64)> = Vec::new();
        let mut j: usize = 0;
        let ne = store.workflow_executions.len();
        while j < ne
            invariant
                *store == s0,
                ne == s0.workflow_executions@.len(),
                j <= ne,
                crate::workflow::distinct_keys(children@),
                crate::workflow::distinct_keys(waits@),
                children@.len() + waits@.len() <= total_decl_entries(
                    s0.workflow_executions@.subrange(0, j as int),
                ),
                forall|x: int| 0 <= x < children@.len() ==> child_declaration(
                    s0,
                    wfid,
                    (#[trigger] children@[x]).0@,
                    children@[x].1.spec_url(),
                    children@[x].1.spec_input(),
                    children@[x].1.spec_max_retries(),
                ),
                forall|x: int| 0 <= x < waits@.len() ==> wait_declaration(
                    s0,
                    wfid,
                    (#[trigger] waits@[x]).0@,
                    waits@[x].1,
                ),
                forall|jj: int, mm: int| 0 <= jj < j && exec_of(s0, jj, wfid) && 0 <= mm
                    < decl_children(#[trigger] s0.workflow_executions@[jj]).len()
                    ==> crate::workflow::has_key(
                    children@,
                    (#[trigger] decl_children(s0.workflow_executions@[jj])[mm]).0@,
                ),
                forall|jj: int, mm: int| 0 <= jj < j && exec_of(s0, jj, wfid) && 0 <= mm
                    < decl_waits(#[trigger] s0.workflow_executions@[jj]).len()
                    ==> crate::workflow::has_key(
                    waits@,
                    (#[trigger] decl_waits(s0.workflow_executions@[jj])[mm]).0@,
                ),
            decreases ne - j,
        {
            let ghost row = s0.workflow_executions@[j as int];
            proof {
                assert(s0.workflow_executions@.subrange(0, j as int + 1).drop_last()
                    =~= s0.workflow_executions@.subrange(0, j as int));
                assert(s0.workflow_executions@.subrange(0, j as int + 1).last() == row);
            }
            if store.workflow_executions[j].workflow_id == wfid {
                assert(exec_of(s0, j as int, wfid));
                match &store.workflow_executions[j].result_json {
                    Some(sr) => {
                        match &sr.data {
                            Some(d) => {
                                let mut m: usize = 0;
                                while m < d.new_children.len()
                                    invariant
                                        m <= d.new_children@.len(),
                                        d.new_children@ == decl_children(row),
                                        exec_of(s0, j as int, wfid),
                                        row == s0.workflow_executions@[j as int],
                                        crate::workflow::distinct_keys(children@),
                                        children@.len() + waits@.len() <= total_decl_entries(
                                            s0.workflow_executions@.subrange(0, j as int),
                                        ) + m,
                                        forall|x: int| 0 <= x < children@.len()
                                            ==> child_declaration(
                                            s0,
                                            wfid,
                                            (#[trigger] children@[x]).0@,
                                            children@[x].1.spec_url(),
                                            children@[x].1.spec_input(),
                                            children@[x].1.spec_max_retries(),
                                        ),
                                        forall|jj: int, mm: int| 0 <= jj < j && exec_of(
                                            s0,
                                            jj,
                                            wfid,
                                        ) && 0 <= mm < decl_children(
                                            #[trigger] s0.workflow_executions@[jj],
                                        ).len() ==> crate::workflow::has_key(
                                            children@,
                                            (#[trigger] decl_children(
                                                s0.workflow_executions@[jj],
                                            )[mm]).0@,
                                        ),
                                        forall|mm: int| 0 <= mm < m ==> crate::workflow::has_key(
                                            children@,
                                            (#[trigger] decl_children(row)[mm]).0@,
                                        ),
                                    decreases d.new_children@.len() - m,
                                {
                                    let key = d.new_children[m].0.clone();
                                    let val = clone_child(&d.new_children[m].1);
                                    let ghost kg = key;
                                    let ghost vg = val;
                                    let ghost pre_c = children@;
                                    crate::workflow::assoc_set(&mut children, key, val);
                                    proof {
                                        crate::workflow::lemma_assoc_set_props(pre_c, kg, vg);
                                        assert(kg@ == decl_children(row)[m as int].0@);
                                        assert(vg == decl_children(row)[m as int].1);
                                        assert forall|x: int|
                                            0 <= x < children@.len() implies child_declaration(
                                            s0,
                                            wfid,
                                            (#[trigger] children@[x]).0@,
                                            children@[x].1.spec_url(),
                                            children@[x].1.spec_input(),
                                            children@[x].1.spec_max_retries(),
                                        ) by {
                                            if !(exists|y: int|
                                                0 <= y < pre_c.len() && children@[x] == pre_c[y]) {
                                                assert(children@[x].0@ == kg@ && children@[x].1
                                                    == vg);
                                            } else {
                                                let y = choose|y: int|
                                                    0 <= y < pre_c.len() && children@[x]
                                                        == pre_c[y];
                                                assert(child_declaration(
                                                    s0,
                                                    wfid,
                                                    pre_c[y].0@,
                                                    pre_c[y].1.spec_url(),
                                                    pre_c[y].1.spec_input(),
                                                    pre_c[y].1.spec_max_retries(),
                                                ));
                                            }
                                        }
                                    }
                                    m = m + 1;
                                }
                                let mut m: usize = 0;
                                while m < d.new_waits.len()
                                    invariant
                                        m <= d.new_waits@.len(),
                                        d.new_waits@ == decl_waits(row),
                                        d.new_children@ == decl_children(row),
                                        exec_of(s0, j as int, wfid),
                                        row == s0.workflow_executions@[j as int],
                                        crate::workflow::distinct_keys(waits@),
                                        children@.len() + waits@.len() <= total_decl_entries(
                                            s0.workflow_executions@.subrange(0, j as int),
                                        ) + decl_children(row).len() + m,
                                        forall|x: int| 0 <= x < waits@.len() ==> wait_declaration(
                                            s0,
                                            wfid,
                                            (#[trigger] waits@[x]).0@,
                                            waits@[x].1,
                                        ),
                                        forall|jj: int, mm: int| 0 <= jj < j && exec_of(
                                            s0,
                                            jj,
                                            wfid,
                                        ) && 0 <= mm < decl_waits(
                                            #[trigger] s0.workflow_executions@[jj],
                                        ).len() ==> crate::workflow::has_key(
                                            waits@,
                                            (#[trigger] decl_waits(
                                                s0.workflow_executions@[jj],
                                            )[mm]).0@,
                                        ),
                                        forall|mm: int| 0 <= mm < m ==> crate::workflow::has_key(
                                            waits@,
                                            (#[trigger] decl_waits(row)[mm]).0@,
                                        ),
                                    decreases d.new_waits@.len() - m,
                                {
                                    let key = d.new_waits[m].0.clone();
                                    let val = d.new_waits[m].1.wait_until();
                                    let ghost kg = key;
                                    let ghost pre_w = waits@;
                                    crate::workflow::assoc_set(&mut waits, key, val);
                                    proof {
                                        crate::workflow::lemma_assoc_set_props(pre_w, kg, val);
                                        assert(kg@ == decl_waits(row)[m as int].0@);
                                        assert(val == decl_waits(row)[m as int].1.spec_wait_until());
                                        assert forall|x: int|
                                            0 <= x < waits@.len() implies wait_declaration(
                                            s0,
                                            wfid,
                                            (#[trigger] waits@[x]).0@,
                                            waits@[x].1,
                                        ) by {
                                            if !(exists|y: int|
                                                0 <= y < pre_w.len() && waits@[x] == pre_w[y]) {
                                                assert(waits@[x].0@ == kg@ && waits@[x].1 == val);
                                            } else {
                                                let y = choose|y: int|
                                                    0 <= y < pre_w.len() && waits@[x] == pre_w[y];
                                                assert(wait_declaration(
                                                    s0,
                                                    wfid,
                                                    pre_w[y].0@,
                                                    pre_w[y].1,
                                                ));
                                            }
                                        }
                                    }
                                    m = m + 1;
                                }
                            },
                            None => {},
                        }
                    },
                    None => {},
                }
            }
            j = j + 1;
        }
        proof {
            assert(s0.workflow_executions@.subrange(0, ne as int) =~= s0.workflow_executions@);
        }

        // Drop what an existing dependency already covers.
        assert(children@.len() + waits@.len() <= total_decl_entries(s0.workflow_executions@));
        let dep_idx = sorted_deps_of(store, wfid);
        let mut x: usize = 0;
        while x < dep_idx.len()
            invariant
                *store == s0,
                children@.len() + waits@.len() <= total_decl_entries(s0.workflow_executions@),
                x <= dep_idx@.len(),
                forall|m: int| 0 <= m < dep_idx@.len() ==> (#[trigger] dep_idx@[m])
                    < s0.workflow_dependencies@.len(),
                forall|m: int| 0 <= m < dep_idx@.len() ==> dep_of_wf(
                    s0,
                    s0.workflow_dependencies@[#[trigger] dep_idx@[m] as int],
                    wfid,
                ),
                crate::workflow::distinct_keys(children@),
                crate::workflow::distinct_keys(waits@),
                forall|c: int| 0 <= c < children@.len() ==> child_declaration(
                    s0,
                    wfid,
                    (#[trigger] children@[c]).0@,
                    children@[c].1.spec_url(),
                    children@[c].1.spec_input(),
                    children@[c].1.spec_max_retries(),
                ),
                forall|c: int| 0 <= c < waits@.len() ==> wait_declaration(
                    s0,
                    wfid,
                    (#[trigger] waits@[c]).0@,
                    waits@[c].1,
                ),
                forall|name: Seq<char>| child_declared(s0, wfid, name) && !child_dep_named(
                    s0,
                    wfid,
                    name,
                ) ==> crate::workflow::has_key(children@, name),
                forall|name: Seq<char>| wait_declared(s0, wfid, name) && !wait_dep_named(
                    s0,
                    wfid,
                    name,
                ) ==> crate::workflow::has_key(waits@, name),
                forall|x2: int| 0 <= x2 < x ==> (match s0.workflow_dependencies@[(
                #[trigger] dep_idx@[x2]) as int].child_workflow_name {
                    Some(nm) => !crate::workflow::has_key(children@, nm@),
                    None => true,
                }),
                forall|x2: int| 0 <= x2 < x ==> (match s0.workflow_dependencies@[(
                #[trigger] dep_idx@[x2]) as int].wait_name {
                    Some(nm) => !crate::workflow::has_key(waits@, nm@),
                    None => true,
                }),
            decreases dep_idx@.len() - x,
        {
            match &store.workflow_dependencies[dep_idx[x]].child_workflow_name {
                Some(nm) => {
                    let nm = nm.clone();
                    assert(dep_of_wf(s0, s0.workflow_dependencies@[dep_idx@[x as int] as int], wfid));
                    assert(child_dep_named(s0, wfid, nm@));
                    assoc_remove(&mut children, &nm);
                },
                None => {},
            }
            match &store.workflow_dependencies[dep_idx[x]].wait_name {
                Some(nm) => {
                    let nm = nm.clone();
                    assert(wait_dep_named(s0, wfid, nm@));
                    assoc_remove(&mut waits, &nm);
                },
                None => {},
            }
            x = x + 1;
        }
        proof {
            // A name an existing dependency carries is out of the maps.
            assert forall|name: Seq<char>| child_dep_named(s0, wfid, name) implies
                !crate::workflow::has_key(children@, name) by {
                let d = choose|d: int|
                    0 <= d < s0.workflow_dependencies@.len() && dep_of_wf(
                        s0,
                        #[trigger] s0.workflow_dependencies@[d],
                        wfid,
                    ) && (match s0.workflow_dependencies@[d].child_workflow_name {
                        Some(n) => n@ == name,
                        None => false,
                    });
                let x2 = choose|x2: int| 0 <= x2 < dep_idx@.len() && dep_idx@[x2] == d;
            }
            assert forall|name: Seq<char>| wait_dep_named(s0, wfid, name) implies
                !crate::workflow::has_key(waits@, name) by {
                let d = choose|d: int|
                    0 <= d < s0.workflow_dependencies@.len() && dep_of_wf(
                        s0,
                        #[trigger] s0.workflow_dependencies@[d],
                        wfid,
                    ) && (match s0.workflow_dependencies@[d].wait_name {
                        Some(n) => n@ == name,
                        None => false,
                    });
                let x2 = choose|x2: int| 0 <= x2 < dep_idx@.len() && dep_idx@[x2] == d;
            }
        }

        // Materialize the remaining children and waits, one row each.
        let ghost base = *store;
        proof {
            assert(base.next_id == s0.next_id);
            assert(base.next_id + 2 * (children@.len() + waits@.len()) < u64::MAX);
        }
        let mut ci: usize = 0;
        while ci < children.len()
            invariant
                store.wf(),
                0 <= now <= MAX_TS,
                ci <= children@.len(),
                base.next_id + 2 * (children@.len() + waits@.len()) < u64::MAX,
                store.next_id == base.next_id + 2 * ci,
                store.workflows@.len() == base.workflows@.len() + ci,
                store.workflows@.subrange(0, base.workflows@.len() as int) == base.workflows@,
                forall|w: int| base.workflows@.len() <= w < store.workflows@.len() ==> {
                    let c = #[trigger] store.workflows@[w];
                    &&& c.status is Pending
                    &&& c.region == base.workflows@[found as int].region
                    &&& c.tenant_id == base.workflows@[found as int].tenant_id
                    &&& c.context is None
                    &&& c.result is None
                    &&& c.error is None
                },
                store.workflow_dependencies@.len() == base.workflow_dependencies@.len() + ci,
                store.workflow_dependencies@.subrange(
                    0,
                    base.workflow_dependencies@.len() as int,
                ) == base.workflow_dependencies@,
                forall|d: int| base.workflow_dependencies@.len() <= d
                    < store.workflow_dependencies@.len() ==> {
                    let dd = #[trigger] store.workflow_dependencies@[d];
                    &&& dep_ok(dd)
                    &&& dd.workflow_execution_id == pe_id
                    &&& (dd.child_workflow_id matches Some(cid) ==> cid >= base.next_id)
                },
                forall|y: int| 0 <= y < ci ==> (match (#[trigger] store.workflow_dependencies@[
                base.workflow_dependencies@.len() + y]).child_workflow_name {
                    Some(nm) => nm@ == children@[y].0@,
                    None => false,
                }),
                forall|y: int| 0 <= y < ci ==> (match (#[trigger] store.workflow_dependencies@[
                base.workflow_dependencies@.len() + y]).child_workflow_id {
                    Some(cid) => cid == store.workflows@[base.workflows@.len() + y].id,
                    None => false,
                }),
                forall|y: int| 0 <= y < ci ==> {
                    let w = #[trigger] store.workflows@[base.workflows@.len() + y];
                    &&& w.implementation_url@ == children@[y].1.spec_url()
                    &&& w.input@ == children@[y].1.spec_input()
                    &&& w.max_retries == children@[y].1.spec_max_retries()
                },
                store.scheduled == base.scheduled,
                store.tenants == base.tenants,
                store.one_offs == base.one_offs,
                store.cron_jobs == base.cron_jobs,
                store.requests == base.requests,
                store.responses == base.responses,
                store.executions == base.executions,
                store.workflow_executions == base.workflow_executions,
                region == base.workflows@[found as int].region,
                tenant_id == base.workflows@[found as int].tenant_id,
                found < base.workflows@.len(),
            decreases children@.len() - ci,
        {
            let name = children[ci].0.clone();
            let url = children[ci].1.url();
            let input = children[ci].1.input();
            let mr = children[ci].1.max_retries();
            let child_id = store.alloc_id();
            store.workflows.push(
                Workflow {
                    id: child_id,
                    region: region.clone(),
                    tenant_id,
                    implementation_url: url,
                    input,
                    status: WorkflowStatus::Pending,
                    max_retries: mr,
                    context: None,
                    result: None,
                    error: None,
                },
            );
            let dep_id = store.alloc_id();
            store.workflow_dependencies.push(
                WorkflowDependency {
                    id: dep_id,
                    workflow_execution_id: pe_id,
                    wait_name: None,
                    wait_until: None,
                    child_workflow_name: Some(name),
                    child_workflow_id: Some(child_id),
                },
            );
            ci = ci + 1;
        }
        let mut wi: usize = 0;
        while wi < waits.len()
            invariant
                store.wf(),
                0 <= now <= MAX_TS,
                wi <= waits@.len(),
                base.next_id + 2 * (children@.len() + waits@.len()) < u64::MAX,
                store.next_id == base.next_id + 2 * children@.len() + wi,
                store.workflows@.len() == base.workflows@.len() + children@.len(),
                store.workflows@.subrange(0, base.workflows@.len() as int) == base.workflows@,
                forall|w: int| base.workflows@.len() <= w < store.workflows@.len() ==> {
                    let c = #[trigger] store.workflows@[w];
                    &&& c.status is Pending
                    &&& c.region == base.workflows@[found as int].region
                    &&& c.tenant_id == base.workflows@[found as int].tenant_id
                    &&& c.context is None
                    &&& c.result is None
                    &&& c.error is None
                },
                store.workflow_dependencies@.len() == base.workflow_dependencies@.len()
                    + children@.len() + wi,
                store.workflow_dependencies@.subrange(
                    0,
                    base.workflow_dependencies@.len() as int,
                ) == base.workflow_dependencies@,
                forall|d: int| base.workflow_dependencies@.len() <= d
                    < store.workflow_dependencies@.len() ==> {
                    let dd = #[trigger] store.workflow_dependencies@[d];
                    &&& dep_ok(dd)
                    &&& dd.workflow_execution_id == pe_id
                    &&& (dd.child_workflow_id matches Some(cid) ==> cid >= base.next_id)
                },
                forall|y: int| 0 <= y < children@.len() ==> (match (
                #[trigger] store.workflow_dependencies@[base.workflow_dependencies@.len()
                    + y]).child_workflow_name {
                    Some(nm) => nm@ == children@[y].0@,
                    None => false,
                }),
                forall|y: int| 0 <= y < children@.len() ==> (match (
                #[trigger] store.workflow_dependencies@[base.workflow_dependencies@.len()
                    + y]).child_workflow_id {
                    Some(cid) => cid == store.workflows@[base.workflows@.len() + y].id,
                    None => false,
                }),
                forall|y: int| 0 <= y < children@.len() ==> {
                    let w = #[trigger] store.workflows@[base.workflows@.len() + y];
                    &&& w.implementation_url@ == children@[y].1.spec_url()
                    &&& w.input@ == children@[y].1.spec_input()
                    &&& w.max_retries == children@[y].1.spec_max_retries()
                },
                forall|y: int| 0 <= y < wi ==> (match (#[trigger] store.workflow_dependencies@[
                base.workflow_dependencies@.len() + children@.len() + y]).wait_name {
                    Some(nm) => nm@ == waits@[y].0@,
                    None => false,
                }),
                forall|y: int| 0 <= y < wi ==> (#[trigger] store.workflow_dependencies@[
                base.workflow_dependencies@.len() + children@.len() + y]).wait_until == Some(
                    waits@[y].1,
                ),
                store.scheduled == base.scheduled,
                store.tenants == base.tenants,
                store.one_offs == base.one_offs,
                store.cron_jobs == base.cron_jobs,
                store.requests == base.requests,
                store.responses == base.responses,
                store.executions == base.executions,
                store.workflow_executions == base.workflow_executions,
                found < base.workflows@.len(),
            decreases waits@.len() - wi,
        {
            let name = waits[wi].0.clone();
            let until = waits[wi].1;
            let dep_id = store.alloc_id();
            store.workflow_dependencies.push(
                WorkflowDependency {
                    id: dep_id,
                    workflow_execution_id: pe_id,
                    wait_name: Some(name),
                    wait_until: Some(until),
                    child_workflow_name: None,
                    child_workflow_id: None,
                },
            );
            wi = wi + 1;
        }

        proof {
            // Assemble the materialization contract: completeness from the
            // map contents, soundness and content from the one-row-per-entry
            // correspondence, uniqueness from the maps' distinct keys.
            let base_d = base.workflow_dependencies@.len() as int;
            let base_w = base.workflows@.len() as int;
            let deps1 = store.workflow_dependencies@;
            let wfs1 = store.workflows@;
            assert forall|name: Seq<char>|
                child_declared(s0, wfid, name) && !child_dep_named(s0, wfid, name) implies exists|d: int|
                base_d <= d < deps1.len() && (match (#[trigger] deps1[d]).child_workflow_name {
                    Some(nm) => nm@ == name,
                    None => false,
                }) by {
                assert(crate::workflow::has_key(children@, name));
                let y = choose|y: int| 0 <= y < children@.len() && (#[trigger] children@[y]).0@
                    == name;
                assert((match deps1[base_d + y].child_workflow_name {
                    Some(nm) => nm@ == name,
                    None => false,
                }));
            }
            assert forall|name: Seq<char>|
                wait_declared(s0, wfid, name) && !wait_dep_named(s0, wfid, name) implies exists|d: int|
                base_d <= d < deps1.len() && (match (#[trigger] deps1[d]).wait_name {
                    Some(nm) => nm@ == name,
                    None => false,
                }) by {
                assert(crate::workflow::has_key(waits@, name));
                let y = choose|y: int| 0 <= y < waits@.len() && (#[trigger] waits@[y]).0@ == name;
                assert((match store.workflow_dependencies@[base.workflow_dependencies@.len()
                    + children@.len() + y].wait_name {
                    Some(nm) => nm@ == waits@[y].0@,
                    None => false,
                }));
                assert(base_d + children@.len() + y == base.workflow_dependencies@.len()
                    + children@.len() + y);
                assert(deps1[base_d + children@.len() + y]
                    == store.workflow_dependencies@[base.workflow_dependencies@.len()
                    + children@.len() + y]);
                assert((match deps1[base_d + children@.len() + y].wait_name {
                    Some(nm) => nm@ == name,
                    None => false,
                }));
            }
            assert forall|d: int| base_d <= d < deps1.len() implies (match (
            #[trigger] deps1[d]).child_workflow_name {
                Some(nm) => child_declared(s0, wfid, nm@) && !child_dep_named(s0, wfid, nm@) && (
                match deps1[d].child_workflow_id {
                    Some(cid) => exists|w: int|
                        base_w <= w < wfs1.len() && (#[trigger] wfs1[w]).id == cid
                            && child_declaration(
                            s0,
                            wfid,
                            nm@,
                            wfs1[w].implementation_url@,
                            wfs1[w].input@,
                            wfs1[w].max_retries,
                        ),
                    None => false,
                }),
                None => true,
            }) by {
                if d < base_d + children@.len() {
                    let y = d - base_d;
                    assert(child_declaration(
                        s0,
                        wfid,
                        children@[y].0@,
                        children@[y].1.spec_url(),
                        children@[y].1.spec_input(),
                        children@[y].1.spec_max_retries(),
                    ));
                    assert(crate::workflow::has_key(children@, children@[y].0@));
                    assert((match store.workflow_dependencies@[base.workflow_dependencies@.len()
                        + y].child_workflow_name {
                        Some(nm) => nm@ == children@[y].0@,
                        None => false,
                    }));
                    assert((match store.workflow_dependencies@[base.workflow_dependencies@.len()
                        + y].child_workflow_id {
                        Some(cid) => cid == store.workflows@[base.workflows@.len() + y].id,
                        None => false,
                    }));
                    assert(store.workflows@[base.workflows@.len() + y].implementation_url@
                        == children@[y].1.spec_url());
                    assert(store.workflows@[base.workflows@.len() + y].input@
                        == children@[y].1.spec_input());
                    assert(store.workflows@[base.workflows@.len() + y].max_retries
                        == children@[y].1.spec_max_retries());
                    assert(wfs1[base_w + y] == store.workflows@[base.workflows@.len() + y]);
                } else {
                    // A wait row: it carries no child name at all.
                    let y = d - base_d - children@.len();
                    assert((match store.workflow_dependencies@[base.workflow_dependencies@.len()
                        + children@.len() + y].wait_name {
                        Some(nm) => nm@ == waits@[y].0@,
                        None => false,
                    }));
                    assert(dep_ok(deps1[d]));
                }
            }
            assert forall|d: int| base_d <= d < deps1.len() implies (match (
            #[trigger] deps1[d]).wait_name {
                Some(nm) => wait_declared(s0, wfid, nm@) && !wait_dep_named(s0, wfid, nm@) && (
                match deps1[d].wait_until {
                    Some(u) => wait_declaration(s0, wfid, nm@, u),
                    None => false,
                }),
                None => true,
            }) by {
                if d >= base_d + children@.len() {
                    let y = d - base_d - children@.len();
                    assert(wait_declaration(s0, wfid, waits@[y].0@, waits@[y].1));
                    assert(crate::workflow::has_key(waits@, waits@[y].0@));
                    assert((match store.workflow_dependencies@[base.workflow_dependencies@.len()
                        + children@.len() + y].wait_name {
                        Some(nm) => nm@ == waits@[y].0@,
                        None => false,
                    }));
                    assert(store.workflow_dependencies@[base.workflow_dependencies@.len()
                        + children@.len() + y].wait_until == Some(waits@[y].1));
                } else {
                    // A child row: it carries no wait name at all.
                    let y = d - base_d;
                    assert((match store.workflow_dependencies@[base.workflow_dependencies@.len()
                        + y].child_workflow_name {
                        Some(nm) => nm@ == children@[y].0@,
                        None => false,
                    }));
                    assert(dep_ok(deps1[d]));
                }
            }
            assert forall|d1: int, d2: int| base_d <= d1 < d2 < deps1.len() implies (match ((
            #[trigger] deps1[d1]).child_workflow_name, (#[trigger] deps1[d2]).child_workflow_name) {
                (Some(n1), Some(n2)) => n1@ != n2@,
                _ => true,
            }) by {
                if d1 < base_d + children@.len() && d2 < base_d + children@.len() {
                    assert((match store.workflow_dependencies@[base.workflow_dependencies@.len()
                        + (d1 - base_d)].child_workflow_name {
                        Some(nm) => nm@ == children@[d1 - base_d].0@,
                        None => false,
                    }));
                    assert((match store.workflow_dependencies@[base.workflow_dependencies@.len()
                        + (d2 - base_d)].child_workflow_name {
                        Some(nm) => nm@ == children@[d2 - base_d].0@,
                        None => false,
                    }));
                    assert(children@[d1 - base_d].0@ != children@[d2 - base_d].0@);
                } else if d1 >= base_d + children@.len() || d2 >= base_d + children@.len() {
                    if d1 >= base_d + children@.len() {
                        assert(store.workflow_dependencies@[base.workflow_dependencies@.len()
                            + children@.len() + (d1 - base_d - children@.len())].child_workflow_name is None) by {
                            assert((match store.workflow_dependencies@[
                            base.workflow_dependencies@.len() + children@.len() + (d1 - base_d
                                - children@.len())].wait_name {
                                Some(nm) => nm@ == waits@[d1 - base_d - children@.len()].0@,
                                None => false,
                            }));
                            assert(dep_ok(deps1[d1]));
                        }
                    }
                    if d2 >= base_d + children@.len() {
                        assert(dep_ok(deps1[d2]));
                        assert((match store.workflow_dependencies@[
                        base.workflow_dependencies@.len() + children@.len() + (d2 - base_d
                            - children@.len())].wait_name {
                            Some(nm) => nm@ == waits@[d2 - base_d - children@.len()].0@,
                            None => false,
                        }));
                    }
                }
            }
            assert forall|d1: int, d2: int| base_d <= d1 < d2 < deps1.len() implies (match ((
            #[trigger] deps1[d1]).wait_name, (#[trigger] deps1[d2]).wait_name) {
                (Some(n1), Some(n2)) => n1@ != n2@,
                _ => true,
            }) by {
                if d1 >= base_d + children@.len() && d2 >= base_d + children@.len() {
                    assert((match store.workflow_dependencies@[base.workflow_dependencies@.len()
                        + children@.len() + (d1 - base_d - children@.len())].wait_name {
                        Some(nm) => nm@ == waits@[d1 - base_d - children@.len()].0@,
                        None => false,
                    }));
                    assert((match store.workflow_dependencies@[base.workflow_dependencies@.len()
                        + children@.len() + (d2 - base_d - children@.len())].wait_name {
                        Some(nm) => nm@ == waits@[d2 - base_d - children@.len()].0@,
                        None => false,
                    }));
                    assert(waits@[d1 - base_d - children@.len()].0@ != waits@[d2 - base_d
                        - children@.len()].0@);
                } else if d1 < base_d + children@.len() {
                    assert((match store.workflow_dependencies@[base.workflow_dependencies@.len()
                        + (d1 - base_d)].child_workflow_name {
                        Some(nm) => nm@ == children@[d1 - base_d].0@,
                        None => false,
                    }));
                    assert(dep_ok(deps1[d1]));
                }
            }
        }

        // The pending execution now waits on what it declared.
        let ghost pre_wfe = store.workflow_executions@;
        let mut pe = store.workflow_executions.remove(pi);
        pe.status = ExecutionStatus::Waiting;
        store.workflow_executions.insert(pi, pe);
        assert(store.workflow_executions@ =~= s0.workflow_executions@.update(
            pi as int,
            WorkflowExecution {
                status: ExecutionStatus::Waiting,
                ..s0.workflow_executions@[pi as int]
            },
        ));
        proof {
            let g = |e: WorkflowExecution| e.id;
            assert forall|m: int| 0 <= m < store.workflow_executions@.len() implies #[trigger] g(
                store.workflow_executions@[m],
            ) == g(s0.workflow_executions@[m]) by {
                assert(g(s0.workflow_executions@[m]) == s0.workflow_executions@[m].id);
            }
            assert(crate::store::distinct_ids(store.workflow_executions@, g));
            assert(crate::store::ids_below(store.workflow_executions@, g, store.next_id));
            assert forall|m: int| 0 <= m < store.workflow_executions@.len() implies crate::store::wfe_ok(
                #[trigger] store.workflow_executions@[m],
            ) by {
                assert(crate::store::wfe_ok(s0.workflow_executions@[m]));
            }
        }
        Some(wfid)
    }
}

/// The dependency blocks its workflow at `now`: its wait has not elapsed, or
/// its child workflow is still pending.
pub open spec fn dep_blocking(s: Store, d: WorkflowDependency, now: i64) -> bool {
    ||| (d.wait_until matches Some(w) && w > now)
    ||| (d.child_workflow_id matches Some(cid) && exists|w: int|
        0 <= w < s.workflows@.len() && (#[trigger] s.workflows@[w]).id == cid
            && s.workflows@[w].status is Pending)
}

/// The workflow at index `k` has a waiting execution, no pending or
/// scheduled one, and every dependency resolved.
pub open spec fn c_candidate(s: Store, k: int, now: i64) -> bool {
    &&& 0 <= k < s.workflows@.len()
    &&& (exists|j: int| exec_of(s, j, s.workflows@[k].id) && (
    #[trigger] s.workflow_executions@[j].status) is Waiting)
    &&& (forall|j: int| exec_of(s, j, s.workflows@[k].id) ==> ((
    #[trigger] s.workflow_executions@[j].status) is Waiting || terminal(
        s.workflow_executions@[j].status,
    )))
    &&& (forall|d: int| 0 <= d < s.workflow_dependencies@.len() && dep_of_wf(
        s,
        #[trigger] s.workflow_dependencies@[d],
        s.workflows@[k].id,
    ) ==> !dep_blocking(s, s.workflow_dependencies@[d], now))
}

/// The backoff before the context POST fires: three minutes, doubled per
/// retry (capped) when the waiting execution is itself a retry.
pub open spec fn workflow_backoff_secs(is_retry: bool, rc: nat) -> int {
    if is_retry {
        WORKFLOW_BASE_BACKOFF_SECS * ((1u64 << (if rc > 32 {
            32u64
        } else {
            rc as u64
        })) as int)
    } else {
        WORKFLOW_BASE_BACKOFF_SECS as int
    }
}

/// Scheduler C: schedules a waiting execution whose dependencies resolved.
pub struct WaitedExecutionScheduler;

impl WaitedExecutionScheduler {
    /// One driver tick. Picks a workflow whose current execution waits and
    /// whose every dependency resolved, caches the rebuilt context on the
    /// workflow row, enqueues the context POST as a scheduled job with the
    /// retry-scaled backoff, and moves the execution to scheduled.
    pub fn run_once(store: &mut Store, now: i64, reached_end: &mut bool) -> (r: Option<u64>)
        requires
            old(store).wf(),
            0 <= now <= MAX_TS,
            old(store).next_id < u64::MAX - 2,
        ensures
            final(store).wf(),
            (r is None) == (forall|k: int| !c_candidate(*old(store), k, now)),
            r is None ==> *final(store) == *old(store) && *final(reached_end),
            r is Some ==> *final(reached_end) == *old(reached_end),
            r matches Some(wfid) ==> exists|k: int, li: int|
                #![trigger old(store).workflows@[k], old(store).workflow_executions@[li]]
                {
                    &&& c_candidate(*old(store), k, now)
                    &&& old(store).workflows@[k].id == wfid
                    &&& exec_of(*old(store), li, wfid)
                    &&& old(store).workflow_executions@[li].status is Waiting
                    // The waiting execution is now scheduled.
                    &&& final(store).workflow_executions@ == old(store).workflow_executions@.update(
                        li,
                        WorkflowExecution {
                            status: ExecutionStatus::Scheduled,
                            ..old(store).workflow_executions@[li]
                        },
                    )
                    // The rebuilt context is cached on the workflow row.
                    &&& final(store).workflows@ == old(store).workflows@.update(
                        k,
                        Workflow {
                            context: final(store).workflows@[k].context,
                            ..old(store).workflows@[k]
                        },
                    )
                    &&& final(store).workflows@[k].context is Some
                    // The context POST is frozen as a request row.
                    &&& final(store).requests@.len() == old(store).requests@.len() + 1
                    &&& final(store).requests@.subrange(0, old(store).requests@.len() as int)
                        == old(store).requests@
                    &&& final(store).requests@.last().id == old(store).next_id
                    &&& final(store).requests@.last().method@ == "post"@
                    &&& final(store).requests@.last().url == old(store).workflows@[k].implementation_url
                    // One scheduled row fires it, after the backoff.
                    &&& final(store).scheduled@ == old(store).scheduled@.push(
                        ScheduledJob {
                            id: (old(store).next_id + 1) as u64,
                            hash: spec_shard_hash((old(store).next_id + 1) as u64),
                            region: old(store).workflows@[k].region,
                            scheduled_at: (now + workflow_backoff_secs(
                                old(store).workflow_executions@[li].is_retry,
                                count_retries(old(store).workflow_executions@, wfid),
                            )) as i64,
                            tenant_id: old(store).workflows@[k].tenant_id,
                            one_off_job_id: None,
                            cron_job_id: None,
                            workflow_execution_id: Some(
                                old(store).workflow_executions@[li].id,
                            ),
                            retry_for_id: None,
                            request_id: old(store).next_id,
                            timeout_ms: None,
                            max_retries: 0,
                            max_response_bytes: None,
                            times_locked: 0,
                            lock_nonce: None,
                            execution_id: None,
                            deleted_at: None,
                        },
                    )
                },
            final(store).tenants == old(store).tenants,
            final(store).one_offs == old(store).one_offs,
            final(store).cron_jobs == old(store).cron_jobs,
            final(store).responses == old(store).responses,
            final(store).executions == old(store).executions,
            final(store).workflow_dependencies == old(store).workflow_dependencies,
    {
        let ghost s0 = *old(store);
        let mut k: usize = 0;
        let n = store.workflows.len();
        let mut found: usize = n;
        let mut li: usize = 0;
        while k < n
            invariant_except_break
                found == n,
            invariant
                *store == s0,
                n == s0.workflows@.len(),
                k <= n,
                0 <= now <= MAX_TS,
                forall|i: int| 0 <= i < k ==> !c_candidate(s0, i, now),
            ensures
                *store == s0,
                found <= n,
                found == n ==> forall|i: int| !c_candidate(s0, i, now),
                found < n ==> c_candidate(s0, found as int, now) && li
                    < s0.workflow_executions@.len()
                    && s0.workflow_executions@[li as int].workflow_id
                    == s0.workflows@[found as int].id
                    && s0.workflow_executions@[li as int].status is Waiting,
            decreases n - k,
        {
            let wfid = store.workflows[k].id;
            let mut shape_ok = true;
            let mut has_waiting = false;
            let mut first_waiting: usize = 0;
            let mut j: usize = 0;
            let ne = store.workflow_executions.len();
            while j < ne
                invariant_except_break
                    shape_ok == true,
                invariant
                    *store == s0,
                    ne == s0.workflow_executions@.len(),
                    j <= ne,
                    forall|m: int| 0 <= m < j && (
                    #[trigger] s0.workflow_executions@[m]).workflow_id == wfid ==> (
                    s0.workflow_executions@[m].status is Waiting || terminal(
                        s0.workflow_executions@[m].status,
                    )),
                    has_waiting ==> first_waiting < ne
                        && s0.workflow_executions@[first_waiting as int].workflow_id == wfid
                        && s0.workflow_executions@[first_waiting as int].status is Waiting,
                    !has_waiting ==> forall|m: int| 0 <= m < j && (
                    #[trigger] s0.workflow_executions@[m]).workflow_id == wfid
                        ==> !(s0.workflow_executions@[m].status is Waiting),
                ensures
                    *store == s0,
                    shape_ok ==> forall|m: int|
                        0 <= m < ne && (#[trigger] s0.workflow_executions@[m]).workflow_id == wfid
                            ==> (s0.workflow_executions@[m].status is Waiting || terminal(
                            s0.workflow_executions@[m].status,
                        )),
                    !shape_ok ==> exists|m: int|
                        0 <= m < ne && (#[trigger] s0.workflow_executions@[m]).workflow_id == wfid
                            && !(s0.workflow_executions@[m].status is Waiting || terminal(
                            s0.workflow_executions@[m].status,
                        )),
                    has_waiting ==> first_waiting < ne
                        && s0.workflow_executions@[first_waiting as int].workflow_id == wfid
                        && s0.workflow_executions@[first_waiting as int].status is Waiting,
                    shape_ok ==> (has_waiting == exists|m: int|
                        0 <= m < ne && (#[trigger] s0.workflow_executions@[m]).workflow_id == wfid
                            && s0.workflow_executions@[m].status is Waiting),
                decreases ne - j,
            {
                if store.workflow_executions[j].workflow_id == wfid {
                    let st = store.workflow_executions[j].status;
                    match st {
                        ExecutionStatus::Waiting => {
                            if !has_waiting {
                                has_waiting = true;
                                first_waiting = j;
                            }
                        },
                        ExecutionStatus::Completed => {},
                        ExecutionStatus::Failed => {},
                        _ => {
                            shape_ok = false;
                            break;
                        },
                    }
                }
                j = j + 1;
            }
            let mut deps_ok = shape_ok && has_waiting;
            if deps_ok {
                // Check that every dependency resolved.
                let mut d: usize = 0;
                let nd = store.workflow_dependencies.len();
                while d < nd
                    invariant_except_break
                        deps_ok == true,
                    invariant
                        *store == s0,
                        nd == s0.workflow_dependencies@.len(),
                        d <= nd,
                        0 <= now <= MAX_TS,
                        forall|m: int| 0 <= m < d && dep_of_wf(
                            s0,
                            #[trigger] s0.workflow_dependencies@[m],
                            wfid,
                        ) ==> !dep_blocking(s0, s0.workflow_dependencies@[m], now),
                    ensures
                        *store == s0,
                        deps_ok ==> forall|m: int|
                            0 <= m < nd && dep_of_wf(
                                s0,
                                #[trigger] s0.workflow_dependencies@[m],
                                wfid,
                            ) ==> !dep_blocking(s0, s0.workflow_dependencies@[m], now),
                        !deps_ok ==> exists|m: int|
                            0 <= m < nd && dep_of_wf(
                                s0,
                                #[trigger] s0.workflow_dependencies@[m],
                                wfid,
                            ) && dep_blocking(s0, s0.workflow_dependencies@[m], now),
                    decreases nd - d,
                {
                    // Does this dependency belong to the workflow?
                    let owner = store.workflow_dependencies[d].workflow_execution_id;
                    let mut belongs = false;
                    let mut e: usize = 0;
                    let ne2 = store.workflow_executions.len();
                    while e < ne2
                        invariant_except_break
                            belongs == false,
                        invariant
                            *store == s0,
                            e <= ne2,
                            ne2 == s0.workflow_executions@.len(),
                            forall|m: int| 0 <= m < e ==> !((
                            #[trigger] s0.workflow_executions@[m]).id == owner
                                && s0.workflow_executions@[m].workflow_id == wfid),
                        ensures
                            *store == s0,
                            belongs == exists|m: int|
                                0 <= m < s0.workflow_executions@.len() && (
                                #[trigger] s0.workflow_executions@[m]).id == owner
                                    && s0.workflow_executions@[m].workflow_id == wfid,
                        decreases ne2 - e,
                    {
                        if store.workflow_executions[e].id == owner
                            && store.workflow_executions[e].workflow_id == wfid {
                            belongs = true;
                            break;
                        }
                        e = e + 1;
                    }
                    if belongs {
                        // A wait that has not elapsed blocks.
                        let wait_blocks = match store.workflow_dependencies[d].wait_until {
                            Some(w) => w > now,
                            None => false,
                        };
                        // A pending child workflow blocks.
                        let mut child_blocks = false;
                        match store.workflow_dependencies[d].child_workflow_id {
                            Some(cid) => {
                                let mut w: usize = 0;
                                let nw = store.workflows.len();
                                while w < nw
                                    invariant_except_break
                                        child_blocks == false,
                                    invariant
                                        *store == s0,
                                        w <= nw,
                                        nw == s0.workflows@.len(),
                                        forall|m: int| 0 <= m < w ==> !((
                                        #[trigger] s0.workflows@[m]).id == cid
                                            && s0.workflows@[m].status is Pending),
                                    ensures
                                        *store == s0,
                                        child_blocks == exists|m: int|
                                            0 <= m < s0.workflows@.len() && (
                                            #[trigger] s0.workflows@[m]).id == cid
                                                && s0.workflows@[m].status is Pending,
                                    decreases nw - w,
                                {
                                    if store.workflows[w].id == cid && (match store.workflows[w].status {
                                        WorkflowStatus::Pending => true,
                                        _ => false,
                                    }) {
                                        child_blocks = true;
                                        break;
                                    }
                                    w = w + 1;
                                }
                            },
                            None => {},
                        }
                        if wait_blocks || child_blocks {
                            assert(dep_of_wf(s0, s0.workflow_dependencies@[d as int], wfid));
                            assert(dep_blocking(s0, s0.workflow_dependencies@[d as int], now));
                            deps_ok = false;
                            break;
                        }
                        assert(!dep_blocking(s0, s0.workflow_dependencies@[d as int], now));
                    } else {
                        assert(!dep_of_wf(s0, s0.workflow_dependencies@[d as int], wfid));
                    }
                    d = d + 1;
                }
            }
            if shape_ok && has_waiting && deps_ok {
                found = k;
                li = first_waiting;
                proof {
                    assert(exec_of(s0, first_waiting as int, wfid));
                    assert(c_candidate(s0, k as int, now));
                }
                break;
            }
            proof {
                if !shape_ok {
                    let m = choose|m: int|
                        0 <= m < s0.workflow_executions@.len() && (
                        #[trigger] s0.workflow_executions@[m]).workflow_id == wfid && !(
                        s0.workflow_executions@[m].status is Waiting || terminal(
                            s0.workflow_executions@[m].status,
                        ));
                    assert(exec_of(s0, m, wfid));
                    assert(!c_candidate(s0, k as int, now));
                } else if !has_waiting {
                    assert(!c_candidate(s0, k as int, now));
                } else {
                    assert(!c_candidate(s0, k as int, now));
                }
            }
            k = k + 1;
        }
        if found == n {
            *reached_end = true;
            return None;
        }
        let wfid = store.workflows[found].id;
        let region = store.workflows[found].region.clone();
        let tenant_id = store.workflows[found].tenant_id;
        let url = store.workflows[found].implementation_url.clone();
        let input = store.workflows[found].input.clone();
        let le_id = store.workflow_executions[li].id;
        let le_is_retry = store.workflow_executions[li].is_retry;

        // Count the retries and rebuild the context.
        let mut rc: usize = 0;
        let mut j: usize = 0;
        let ne = store.workflow_executions.len();
        while j < ne
            invariant
                *store == s0,
                ne == s0.workflow_executions@.len(),
                j <= ne,
                rc <= j,
                rc == count_retries(s0.workflow_executions@.subrange(0, j as int), wfid),
            decreases ne - j,
        {
            assert(s0.workflow_executions@.subrange(0, j as int + 1).drop_last()
                =~= s0.workflow_executions@.subrange(0, j as int));
            assert(s0.workflow_executions@.subrange(0, j as int + 1).last()
                == s0.workflow_executions@[j as int]);
            if store.workflow_executions[j].workflow_id == wfid
                && store.workflow_executions[j].is_retry {
                rc = rc + 1;
            }
            j = j + 1;
        }
        assert(s0.workflow_executions@.subrange(0, ne as int) =~= s0.workflow_executions@);

        let idx = sorted_executions_of(store, wfid);
        let dep_idx = sorted_deps_of(store, wfid);
        let ctx = build_context(store, input, &idx, &dep_idx, now);

        // Cache the context on the workflow row.
        let mut wf = store.workflows.remove(found);
        wf.context = Some(ctx);
        store.workflows.insert(found, wf);
        assert(store.workflows@ =~= s0.workflows@.update(
            found as int,
            Workflow { context: store.workflows@[found as int].context, ..s0.workflows@[found as int] },
        ));

        // Freeze the context POST.
        let rid = store.alloc_id();
        let post = String::new();
        let post = post.concat("post");
        proof {
            reveal_strlit("post");
        }
        store.requests.push(
            HttpRequest { id: rid, method: post, url, headers: Vec::new(), body: None },
        );

        // Enqueue the fire, after the backoff.
        let rc64: u64 = if rc > 32 {
            33
        } else {
            rc as u64
        };
        let kk: u64 = if rc64 > 32 {
            32
        } else {
            rc64
        };
        let factor: u64 = 1u64 << kk;
        assert(1u64 <= (1u64 << kk) <= 0x1_0000_0000u64) by (bit_vector)
            requires
                kk <= 32u64,
        ;
        assert(1 <= factor <= 0x1_0000_0000u64);
        let wait: i64 = if le_is_retry {
            (180u64 * factor) as i64
        } else {
            WORKFLOW_BASE_BACKOFF_SECS
        };
        proof {
            if rc > 32 {
                assert(kk == 32u64);
            } else {
                assert(kk == rc as u64);
            }
            assert(wait == workflow_backoff_secs(le_is_retry, rc as nat));
        }
        let sid = store.alloc_id();
        let row = ScheduledJob {
            id: sid,
            hash: shard_hash(sid),
            region,
            scheduled_at: now + wait,
            tenant_id,
            one_off_job_id: None,
            cron_job_id: None,
            workflow_execution_id: Some(le_id),
            retry_for_id: None,
            request_id: rid,
            timeout_ms: None,
            max_retries: 0,
            max_response_bytes: None,
            times_locked: 0,
            lock_nonce: None,
            execution_id: None,
            deleted_at: None,
        };
        store.scheduled.push(row);

        // The waiting execution is now scheduled.
        let mut le = store.workflow_executions.remove(li);
        le.status = ExecutionStatus::Scheduled;
        store.workflow_executions.insert(li, le);
        assert(store.workflow_executions@ =~= s0.workflow_executions@.update(
            li as int,
            WorkflowExecution {
                status: ExecutionStatus::Scheduled,
                ..s0.workflow_executions@[li as int]
            },
        ));
        proof {
            let g = |e: WorkflowExecution| e.id;
            assert forall|m: int| 0 <= m < store.workflow_executions@.len() implies #[trigger] g(
                store.workflow_executions@[m],
            ) == g(s0.workflow_executions@[m]) by {
                assert(g(s0.workflow_executions@[m]) == s0.workflow_executions@[m].id);
            }
            assert(crate::store::distinct_ids(store.workflow_executions@, g));
            assert(crate::store::ids_below(store.workflow_executions@, g, store.next_id));
            assert forall|m: int| 0 <= m < store.workflow_executions@.len() implies crate::store::wfe_ok(
                #[trigger] store.workflow_executions@[m],
            ) by {
                assert(crate::store::wfe_ok(s0.workflow_executions@[m]));
            }
            let f = |w: Workflow| w.id;
            assert forall|m: int| 0 <= m < store.workflows@.len() implies #[trigger] f(
                store.workflows@[m],
            ) == f(s0.workflows@[m]) by {
                assert(f(s0.workflows@[m]) == s0.workflows@[m].id);
            }
            assert(crate::store::distinct_ids(store.workflows@, f));
            assert(crate::store::ids_below(store.workflows@, f, store.next_id));
        }
        Some(wfid)
    }
}

} // verus!
