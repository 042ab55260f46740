//! Workflow context and execution-result handling.
//!
//! The context is a projection: it is rebuilt from the execution log and the
//! dependency rows on every driver tick, never trusted from the cache on the
//! workflow row. Drone response bodies are classified into completed or
//! failed executions here.

use vstd::prelude::*;

use crate::store::ChildWorkflowResult;
use crate::store::ExecutionStatus;
use crate::store::PreviousError;
use crate::store::ReturnedData;
use crate::store::StoredResult;
use crate::store::WorkflowContext;
use crate::store::WorkflowExecution;

verus! {

/// Index of the first entry with key `k` in an association list, or -1.
pub open spec fn assoc_index<V>(s: Seq<(String, V)>, k: String) -> int
    decreases s.len(),
{
    if s.len() == 0 {
        -1
    } else if s[0].0@ == k@ {
        0
    } else {
        let r = assoc_index(s.subrange(1, s.len() as int), k);
        if r < 0 {
            -1
        } else {
            r + 1
        }
    }
}

/// An association list after a map-style insert: the first entry with the
/// key is replaced, else the pair is appended.
pub open spec fn spec_assoc_set<V>(s: Seq<(String, V)>, k: String, v: V) -> Seq<(String, V)> {
    let i = assoc_index(s, k);
    if i < 0 {
        s.push((k, v))
    } else {
        s.update(i, (s[i].0, v))
    }
}

/// Some entry of the association list carries the name.
pub open spec fn has_key<V>(s: Seq<(String, V)>, name: Seq<char>) -> bool {
    exists|x: int| 0 <= x < s.len() && (#[trigger] s[x]).0@ == name
}

/// The keys of the association list are pairwise distinct.
pub open spec fn distinct_keys<V>(s: Seq<(String, V)>) -> bool {
    forall|a: int, b: int| 0 <= a < b < s.len() ==> (#[trigger] s[a]).0@ != (#[trigger] s[b]).0@
}

/// A found entry means the assoc index is in range, and conversely.
pub proof fn lemma_assoc_index_range<V>(s: Seq<(String, V)>, k: String)
    ensures
        -1 <= assoc_index(s, k) < s.len(),
        assoc_index(s, k) >= 0 ==> s[assoc_index(s, k)].0@ == k@,
        assoc_index(s, k) == -1 ==> forall|m: int| 0 <= m < s.len() ==> (#[trigger] s[m]).0@ != k@,
    decreases s.len(),
{
    if s.len() > 0 && s[0].0@ != k@ {
        let t = s.subrange(1, s.len() as int);
        lemma_assoc_index_range(t, k);
        assert forall|m: int| 1 <= m < s.len() implies t[m - 1] == s[m] by {}
        if assoc_index(t, k) >= 0 {
            assert(s[assoc_index(s, k)] == t[assoc_index(t, k)]);
        }
    }
}

/// What a map-style insert does to an association list: the key is present
/// afterwards, no other key appears or vanishes, every entry is an old entry
/// or carries the inserted key and value, and distinct keys stay distinct.
pub proof fn lemma_assoc_set_props<V>(s: Seq<(String, V)>, k: String, v: V)
    ensures
        ({
            let r = spec_assoc_set(s, k, v);
            &&& r.len() <= s.len() + 1
            &&& (forall|nm: Seq<char>| #[trigger] has_key(r, nm) <==> (has_key(s, nm) || nm == k@))
            &&& (forall|x: int| 0 <= x < r.len() ==> (exists|y: int|
                0 <= y < s.len() && #[trigger] r[x] == s[y]) || (r[x].0@ == k@ && r[x].1 == v))
            &&& (distinct_keys(s) ==> distinct_keys(r))
        }),
{
    lemma_assoc_index_range(s, k);
    let i = assoc_index(s, k);
    let r = spec_assoc_set(s, k, v);
    if i < 0 {
        assert(r == s.push((k, v)));
        assert forall|nm: Seq<char>| #[trigger] has_key(r, nm) implies (has_key(s, nm) || nm
            == k@) by {
            let x = choose|x: int| 0 <= x < r.len() && (#[trigger] r[x]).0@ == nm;
            if x < s.len() {
                assert(s[x].0@ == nm);
            }
        }
        assert forall|nm: Seq<char>| (has_key(s, nm) || nm == k@) implies #[trigger] has_key(
            r,
            nm,
        ) by {
            if has_key(s, nm) {
                let x = choose|x: int| 0 <= x < s.len() && (#[trigger] s[x]).0@ == nm;
                assert(r[x].0@ == nm);
            } else {
                assert(r[r.len() - 1].0@ == nm);
            }
        }
        assert forall|x: int| 0 <= x < r.len() implies (exists|y: int|
            0 <= y < s.len() && #[trigger] r[x] == s[y]) || (r[x].0@ == k@ && r[x].1 == v) by {
            if x < s.len() {
                assert(r[x] == s[x]);
            }
        }
        if distinct_keys(s) {
            assert forall|a: int, b: int| 0 <= a < b < r.len() implies (#[trigger] r[a]).0@ != (
            #[trigger] r[b]).0@ by {
                if b == r.len() - 1 {
                    assert(r[a] == s[a]);
                    assert(s[a].0@ != k@);
                }
            }
        }
    } else {
        assert(r == s.update(i, (s[i].0, v)));
        assert(s[i].0@ == k@);
        assert forall|nm: Seq<char>| #[trigger] has_key(r, nm) implies (has_key(s, nm) || nm
            == k@) by {
            let x = choose|x: int| 0 <= x < r.len() && (#[trigger] r[x]).0@ == nm;
            assert(s[x].0@ == nm);
        }
        assert forall|nm: Seq<char>| (has_key(s, nm) || nm == k@) implies #[trigger] has_key(
            r,
            nm,
        ) by {
            if has_key(s, nm) {
                let x = choose|x: int| 0 <= x < s.len() && (#[trigger] s[x]).0@ == nm;
                assert(r[x].0@ == nm);
            } else {
                assert(r[i].0@ == nm);
            }
        }
        assert forall|x: int| 0 <= x < r.len() implies (exists|y: int|
            0 <= y < s.len() && #[trigger] r[x] == s[y]) || (r[x].0@ == k@ && r[x].1 == v) by {
            if x != i {
                assert(r[x] == s[x]);
            }
        }
        if distinct_keys(s) {
            assert forall|a: int, b: int| 0 <= a < b < r.len() implies (#[trigger] r[a]).0@ != (
            #[trigger] r[b]).0@ by {
                assert(r[a].0@ == s[a].0@ && r[b].0@ == s[b].0@);
            }
        }
    }
}

/// A name list after a set-style insert.
pub open spec fn spec_set_insert(s: Seq<String>, k: String) -> Seq<String> {
    if exists|i: int| 0 <= i < s.len() && (#[trigger] s[i])@ == k@ {
        s
    } else {
        s.push(k)
    }
}

/// Map-style insert into an association list, executable.
pub fn assoc_set<V>(v: &mut Vec<(String, V)>, k: String, val: V)
    ensures
        final(v)@ == spec_assoc_set(old(v)@, k, val),
{
    let ghost s0 = v@;
    let mut i: usize = 0;
    while i < v.len()
        invariant
            v@ == s0,
            i <= s0.len(),
            forall|m: int| 0 <= m < i ==> (#[trigger] s0[m]).0@ != k@,
        ensures
            v@ == s0,
            i <= s0.len(),
            forall|m: int| 0 <= m < i ==> (#[trigger] s0[m]).0@ != k@,
            i < s0.len() ==> s0[i as int].0@ == k@,
        decreases s0.len() - i,
    {
        if v[i].0 == k {
            break;
        }
        i = i + 1;
    }
    proof {
        lemma_assoc_index_from_scan(s0, k, i as int);
    }
    if i < v.len() {
        let mut entry = v.remove(i);
        entry.1 = val;
        v.insert(i, entry);
        assert(v@ =~= spec_assoc_set(s0, k, val));
    } else {
        v.push((k, val));
        assert(v@ =~= spec_assoc_set(s0, k, val));
    }
}

/// A scan that found no earlier match pins down `assoc_index`.
proof fn lemma_assoc_index_from_scan<V>(s: Seq<(String, V)>, k: String, i: int)
    requires
        0 <= i <= s.len(),
        forall|m: int| 0 <= m < i ==> (#[trigger] s[m]).0@ != k@,
        i < s.len() ==> s[i].0@ == k@,
    ensures
        assoc_index(s, k) == if i < s.len() {
            i
        } else {
            -1
        },
    decreases s.len(),
{
    if s.len() > 0 {
        if s[0].0@ == k@ {
            assert(i == 0);
        } else {
            let t = s.subrange(1, s.len() as int);
            assert forall|m: int| 0 <= m < i - 1 implies (#[trigger] t[m]).0@ != k@ by {
                assert(t[m] == s[m + 1]);
            }
            if i - 1 < t.len() {
                assert(t[i - 1] == s[i]);
            }
            lemma_assoc_index_from_scan(t, k, if i == 0 {
                0
            } else {
                i - 1
            });
        }
    }
}

/// Set-style insert into a name list, executable.
pub fn set_insert(v: &mut Vec<String>, k: String)
    ensures
        final(v)@ == spec_set_insert(old(v)@, k),
{
    let ghost s0 = v@;
    let mut i: usize = 0;
    while i < v.len()
        invariant
            v@ == s0,
            i <= s0.len(),
            forall|m: int| 0 <= m < i ==> (#[trigger] s0[m])@ != k@,
        decreases s0.len() - i,
    {
        if v[i] == k {
            assert(s0[i as int]@ == k@);
            return;
        }
        i = i + 1;
    }
    v.push(k);
}

/// A dependency row joined with its child workflow's outcome and its wait's
/// elapsed flag, as the drivers read it.
pub struct DbDependency {
    pub id: u64,
    pub workflow_execution_id: u64,
    pub child_workflow_name: Option<String>,
    pub child_workflow_id: Option<u64>,
    pub wait_name: Option<String>,
    pub wait_until: Option<i64>,
    pub child_result: Option<String>,
    pub child_error: Option<String>,
    pub wait_complete: Option<bool>,
}

impl WorkflowContext {
    /// A fresh context around the workflow's input.
    pub fn new(input: String) -> (r: WorkflowContext)
        ensures
            r.input == input,
            r.steps@.len() == 0,
            r.child_workflows@.len() == 0,
            r.completed_waits@.len() == 0,
            r.prev_errors@.len() == 0,
    {
        WorkflowContext {
            input,
            steps: Vec::new(),
            child_workflows: Vec::new(),
            completed_waits: Vec::new(),
            prev_errors: Vec::new(),
        }
    }

    /// Folds one execution into the context: a failure becomes a prior
    /// error; returned steps overwrite by name; a result whose shape did not
    /// parse becomes a prior error too, stamped `now` when the execution
    /// carries no time.
    pub fn ingest_execution(&mut self, exec: &WorkflowExecution, now: i64)
        ensures
            final(self).input == old(self).input,
            final(self).child_workflows == old(self).child_workflows,
            final(self).completed_waits == old(self).completed_waits,
            ({
                let s0 = *old(self);
                let s1 = *final(self);
                match (exec.failure_reason, exec.executed_at) {
                    (Some(msg), Some(ts)) => s1.prev_errors@ == s0.prev_errors@.push(
                        PreviousError { timestamp: ts, message: msg },
                    ) && s1.steps == s0.steps,
                    _ => match exec.result_json {
                        Some(sr) => match sr.data {
                            Some(d) => s1.steps@ == fold_steps(s0.steps@, d.new_steps@)
                                && s1.prev_errors == s0.prev_errors,
                            None => s1.steps == s0.steps && s1.prev_errors@.len() == s0.prev_errors@.len()
                                + 1 && s1.prev_errors@.subrange(0, s0.prev_errors@.len() as int)
                                == s0.prev_errors@ && s1.prev_errors@.last().timestamp == (
                            match exec.executed_at {
                                Some(ts) => ts,
                                None => now,
                            }),
                        },
                        None => s1.steps == s0.steps && s1.prev_errors == s0.prev_errors,
                    },
                }
            }),
    {
        let failed = exec.failure_reason.is_some() && exec.executed_at.is_some();
        if failed {
            let msg = match &exec.failure_reason {
                Some(m) => m.clone(),
                None => String::new(),
            };
            let ts = match exec.executed_at {
                Some(t) => t,
                None => 0,
            };
            self.prev_errors.push(PreviousError { timestamp: ts, message: msg });
            return;
        }
        match &exec.result_json {
            Some(sr) => {
                match &sr.data {
                    Some(d) => {
                        let ghost pre = *self;
                        let ghost steps0 = self.steps@;
                        let ghost entries = d.new_steps@;
                        assert(entries.subrange(0, entries.len() as int) =~= entries);
                        let mut i: usize = 0;
                        while i < d.new_steps.len()
                            invariant
                                i <= entries.len(),
                                entries == d.new_steps@,
                                self.input == pre.input,
                                self.child_workflows == pre.child_workflows,
                                self.completed_waits == pre.completed_waits,
                                self.prev_errors == pre.prev_errors,
                                steps0 == pre.steps@,
                                fold_steps(steps0, entries) == fold_steps(
                                    self.steps@,
                                    entries.subrange(i as int, entries.len() as int),
                                ),
                            decreases entries.len() - i,
                        {
                            let k = d.new_steps[i].0.clone();
                            let v = d.new_steps[i].1.clone();
                            assert(entries.subrange(i as int, entries.len() as int)[0]
                                == entries[i as int]);
                            assert(entries.subrange(i as int, entries.len() as int).subrange(
                                1,
                                entries.len() - i,
                            ) =~= entries.subrange(i as int + 1, entries.len() as int));
                            assoc_set(&mut self.steps, k, v);
                            i = i + 1;
                        }
                        assert(entries.subrange(entries.len() as int, entries.len() as int)
                            =~= Seq::<(String, String)>::empty());
                    },
                    None => {
                        let ts = match exec.executed_at {
                            Some(t) => t,
                            None => now,
                        };
                        let msg = badly_formed_message();
                        self.prev_errors.push(PreviousError { timestamp: ts, message: msg });
                        assert(self.prev_errors@.subrange(
                            0,
                            old(self).prev_errors@.len() as int,
                        ) =~= old(self).prev_errors@);
                    },
                }
            },
            None => {},
        }
    }

    /// Folds one dependency into the context: an elapsed wait joins the
    /// completed set; a child's result or error lands under its name.
    pub fn ingest_dependency(&mut self, dep: &DbDependency)
        ensures
            final(self).input == old(self).input,
            final(self).steps == old(self).steps,
            final(self).prev_errors == old(self).prev_errors,
            ({
                let s0 = *old(self);
                let s1 = *final(self);
                match (dep.wait_name, dep.wait_complete) {
                    (Some(name), Some(true)) => s1.completed_waits@ == spec_set_insert(
                        s0.completed_waits@,
                        name,
                    ) && s1.child_workflows == s0.child_workflows,
                    _ => s1.completed_waits == s0.completed_waits && (match (
                        dep.child_workflow_name,
                        dep.child_result,
                        dep.child_error,
                    ) {
                        (Some(name), Some(data), _) => s1.child_workflows@ == spec_assoc_set(
                            s0.child_workflows@,
                            name,
                            ChildWorkflowResult::Success { data },
                        ),
                        (Some(name), None, Some(error)) => s1.child_workflows@ == spec_assoc_set(
                            s0.child_workflows@,
                            name,
                            ChildWorkflowResult::Failure { error },
                        ),
                        _ => s1.child_workflows == s0.child_workflows,
                    }),
                }
            }),
    {
        let waited = match (&dep.wait_name, dep.wait_complete) {
            (Some(_), Some(true)) => true,
            _ => false,
        };
        if waited {
            let name = match &dep.wait_name {
                Some(n) => n.clone(),
                None => String::new(),
            };
            set_insert(&mut self.completed_waits, name);
            return;
        }
        match (&dep.child_workflow_name, &dep.child_result, &dep.child_error) {
            (Some(name), Some(data), _) => {
                assoc_set(
                    &mut self.child_workflows,
                    name.clone(),
                    ChildWorkflowResult::Success { data: data.clone() },
                );
            },
            (Some(name), None, Some(error)) => {
                assoc_set(
                    &mut self.child_workflows,
                    name.clone(),
                    ChildWorkflowResult::Failure { error: error.clone() },
                );
            },
            _ => {},
        }
    }
}

/// Steps folded into an accumulator in document order, overwriting by name.
pub open spec fn fold_steps(acc: Seq<(String, String)>, entries: Seq<(String, String)>) -> Seq<(String, String)>
    decreases entries.len(),
{
    if entries.len() == 0 {
        acc
    } else {
        fold_steps(
            spec_assoc_set(acc, entries[0].0, entries[0].1),
            entries.subrange(1, entries.len() as int),
        )
    }
}

/// The message recorded when a prior execution's result did not match the
/// expected shape.
pub fn badly_formed_message() -> (r: String)
    ensures
        r@ == "implementation returned poorly formed data"@,
{
    let r = String::new();
    r.concat("implementation returned poorly formed data")
}

/// A drone response body after the edge has tried to read it as returned
/// workflow data: no body at all, not JSON, JSON of the wrong shape, or
/// parsed data (with the raw text kept alongside).
pub enum BodyParse {
    NoBody { reason: String },
    NotJson { reason: String },
    BadShape { raw: String, reason: String },
    Data { raw: String, data: ReturnedData },
}

/// What the recorder writes onto a workflow execution for one classified
/// body: status, stored result, failure reason.
pub open spec fn spec_classify(p: BodyParse) -> (ExecutionStatus, Option<StoredResult>, Option<String>) {
    match p {
        BodyParse::NoBody { reason } => (ExecutionStatus::Failed, None, Some(reason)),
        BodyParse::NotJson { reason } => (ExecutionStatus::Failed, None, Some(reason)),
        BodyParse::BadShape { raw, reason } => (
            ExecutionStatus::Failed,
            Some(StoredResult { raw, data: None }),
            Some(reason),
        ),
        BodyParse::Data { raw, data } => match data.error {
            Some(err) => (
                ExecutionStatus::Failed,
                Some(StoredResult { raw, data: Some(data) }),
                Some(err),
            ),
            None => (ExecutionStatus::Completed, Some(StoredResult { raw, data: Some(data) }), None),
        },
    }
}

/// Classifies a drone response body: anything but well-shaped JSON without
/// an `error` field fails the execution; the raw JSON is kept whenever it
/// parsed at all.
pub fn classify_execution_result(p: BodyParse) -> (r: (ExecutionStatus, Option<StoredResult>, Option<String>))
    ensures
        r == spec_classify(p),
        r.0 is Completed ==> r.1 is Some && r.2 is None,
{
    match p {
        BodyParse::NoBody { reason } => (ExecutionStatus::Failed, None, Some(reason)),
        BodyParse::NotJson { reason } => (ExecutionStatus::Failed, None, Some(reason)),
        BodyParse::BadShape { raw, reason } => (
            ExecutionStatus::Failed,
            Some(StoredResult { raw, data: None }),
            Some(reason),
        ),
        BodyParse::Data { raw, data } => {
            let has_error = data.error.is_some();
            if has_error {
                let err = match &data.error {
                    Some(e) => e.clone(),
                    None => String::new(),
                };
                (ExecutionStatus::Failed, Some(StoredResult { raw, data: Some(data) }), Some(err))
            } else {
                (ExecutionStatus::Completed, Some(StoredResult { raw, data: Some(data) }), None)
            }
        },
    }
}

} // verus!
