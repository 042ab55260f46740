//! Execution recorder: durably persists one drone-returned execution frame,
//! drives the owning workflow execution forward, and releases the lease.
//!
//! A frame must present both the job id and the lock nonce of the lease it
//! answers; a frame whose lease was already released (or reaped) matches no
//! row and is dropped silently, which makes recording idempotent per
//! `(job_id, lock_nonce)`.

use vstd::prelude::*;

use crate::store::HttpRequest;
use crate::store::HttpResponse;
use crate::store::JobExecution;
use crate::store::ScheduledJob;
use crate::store::Store;
use crate::store::WorkflowExecution;
use crate::store::MAX_TS;
use crate::workflow::spec_classify;
use crate::workflow::BodyParse;
use crate::workflow::classify_execution_result;

verus! {

/// A response payload carried by an execution frame.
pub struct ResponsePayload {
    pub status: i64,
    pub headers: Vec<(String, String)>,
    pub body: String,
}

/// One drone-returned execution: the outcome of one dispatched job, with the
/// request as actually sent.
pub struct ExecutionFrame {
    pub job_id: u64,
    pub lock_nonce: i64,
    pub success: bool,
    pub response: Option<ResponsePayload>,
    pub response_error: Option<String>,
    pub req_method: String,
    pub req_url: String,
    pub req_headers: Vec<(String, String)>,
    pub req_body: Option<String>,
    pub executed_at: i64,
}

/// A header name reserved by the scheduler: it starts with `Rocktick-`.
pub open spec fn is_rocktick_header(k: Seq<char>) -> bool {
    k.len() >= 9 && k.subrange(0, 9) == "Rocktick-"@
}

/// Whether a header name starts with `Rocktick-`, executable.
pub fn starts_with_rocktick(k: &str) -> (r: bool)
    ensures
        r == is_rocktick_header(k@),
{
    let lit = "Rocktick-";
    proof {
        reveal_strlit("Rocktick-");
    }
    if k.unicode_len() < 9 {
        return false;
    }
    let mut i: usize = 0;
    while i < 9
        invariant
            i <= 9,
            k@.len() >= 9,
            lit@ == "Rocktick-"@,
            lit@.len() == 9,
            forall|m: int| 0 <= m < i ==> k@[m] == lit@[m],
        decreases 9 - i,
    {
        if k.get_char(i) != lit.get_char(i) {
            assert(k@.subrange(0, 9) != "Rocktick-"@) by {
                assert(k@.subrange(0, 9)[i as int] == k@[i as int]);
            }
            return false;
        }
        i = i + 1;
    }
    assert(k@.subrange(0, 9) =~= "Rocktick-"@);
    true
}

/// The headers kept when the sent request is persisted: every reserved
/// `Rocktick-` header is dropped.
pub open spec fn filter_headers(h: Seq<(String, String)>) -> Seq<(String, String)>
    decreases h.len(),
{
    if h.len() == 0 {
        Seq::empty()
    } else {
        let rest = filter_headers(h.drop_last());
        if is_rocktick_header(h.last().0@) {
            rest
        } else {
            rest.push(h.last())
        }
    }
}

/// Drops every reserved `Rocktick-` header, executable.
pub fn filter_rocktick_headers(h: &Vec<(String, String)>) -> (r: Vec<(String, String)>)
    ensures
        r@ == filter_headers(h@),
{
    let mut out: Vec<(String, String)> = Vec::new();
    let mut i: usize = 0;
    while i < h.len()
        invariant
            i <= h@.len(),
            out@ == filter_headers(h@.subrange(0, i as int)),
        decreases h@.len() - i,
    {
        assert(h@.subrange(0, i as int + 1).drop_last() =~= h@.subrange(0, i as int));
        assert(h@.subrange(0, i as int + 1).last() == h@[i as int]);
        if !starts_with_rocktick(h[i].0.as_str()) {
            let k = h[i].0.clone();
            let v = h[i].1.clone();
            assert((k, v) == h@[i as int]);
            out.push((k, v));
        }
        i = i + 1;
    }
    assert(h@.subrange(0, h@.len() as int) =~= h@);
    out
}

/// Some scheduled row carries this lease: it has the frame's job id and its
/// lock nonce.
pub open spec fn frame_match(sched: Seq<ScheduledJob>, job_id: u64, nonce: i64) -> bool {
    exists|i: int| 0 <= i < sched.len() && (#[trigger] sched[i]).id == job_id && sched[i].lock_nonce
        == Some(nonce)
}

/// The body classification the recorder applies when the frame carries a
/// response or a transport error: the edge's parse for a response body, else
/// the transport error. A frame carrying neither is classified separately:
/// it fails the execution with the fixed no-response reason.
pub open spec fn effective_parse(frame: ExecutionFrame, body_parse: BodyParse) -> BodyParse {
    match frame.response {
        Some(_) => body_parse,
        None => match frame.response_error {
            Some(e) => BodyParse::NoBody { reason: e },
            None => body_parse,
        },
    }
}

/// The reason recorded when a drone reports neither a response nor a
/// transport error.
pub fn no_response_message() -> (r: String)
    ensures
        r@ == "drone did not respond with a response"@,
{
    let r = String::new();
    r.concat("drone did not respond with a response")
}

/// The drone's `executed_at` when it is a valid timestamp, else `now`.
pub open spec fn effective_executed_at(frame: ExecutionFrame, now: i64) -> i64 {
    if 0 <= frame.executed_at <= MAX_TS {
        frame.executed_at
    } else {
        now
    }
}

/// The frame can commit: its lease is still held, and where the row belongs
/// to a workflow execution, that execution exists.
pub open spec fn can_commit(s: Store, frame: ExecutionFrame) -> bool {
    &&& frame_match(s.scheduled@, frame.job_id, frame.lock_nonce)
    &&& (forall|i: int| 0 <= i < s.scheduled@.len() && (#[trigger] s.scheduled@[i]).id
        == frame.job_id && s.scheduled@[i].lock_nonce == Some(frame.lock_nonce) ==> (match s.scheduled@[i].workflow_execution_id {
        Some(weid) => exists|w: int| 0 <= w < s.workflow_executions@.len() && (
        #[trigger] s.workflow_executions@[w]).id == weid,
        None => true,
    }))
}

/// One recorder transaction for one frame.
///
/// When the lease `(job_id, lock_nonce)` is still held: persists the sent
/// request (reserved headers dropped), the response when one came back, and
/// the execution record; applies the workflow side effect when the row
/// belongs to a workflow execution; then marks the row executed and releases
/// the lease. Returns whether the frame was committed (and is to be acked);
/// a frame whose lease is gone changes nothing, so a retransmitted frame
/// after a commit is a no-op.
///
/// `body_parse` is the edge's reading of the response body as returned
/// workflow data; it is consulted only when the row belongs to a workflow
/// execution and a response body exists.
pub fn record_execution(store: &mut Store, frame: ExecutionFrame, body_parse: BodyParse, now: i64) -> (acked: bool)
    requires
        old(store).wf(),
        0 <= now <= MAX_TS,
        old(store).next_id < u64::MAX - 3,
    ensures
        final(store).wf(),
        acked == can_commit(*old(store), frame),
        !can_commit(*old(store), frame) ==> *final(store) == *old(store),
        // Once recorded, the same frame matches no row: recording is
        // idempotent per (job_id, lock_nonce).
        acked ==> !frame_match(final(store).scheduled@, frame.job_id, frame.lock_nonce),
        // An executed row is never un-executed, and its execution record
        // never changes.
        forall|x: int| 0 <= x < old(store).scheduled@.len() && (
        #[trigger] old(store).scheduled@[x]).execution_id is Some ==> final(store).scheduled@[x]
            == old(store).scheduled@[x],
        acked ==> exists|i: int|
            #![trigger old(store).scheduled@[i]]
            {
                let s0 = *old(store);
                let rid = s0.next_id;
                let eid = if frame.response is Some {
                    (s0.next_id + 2) as u64
                } else {
                    (s0.next_id + 1) as u64
                };
                &&& 0 <= i < s0.scheduled@.len()
                &&& s0.scheduled@[i].id == frame.job_id
                &&& s0.scheduled@[i].lock_nonce == Some(frame.lock_nonce)
                &&& final(store).scheduled@ == s0.scheduled@.update(
                    i,
                    ScheduledJob {
                        execution_id: Some(eid),
                        lock_nonce: None,
                        ..s0.scheduled@[i]
                    },
                )
                &&& final(store).requests@.len() == s0.requests@.len() + 1
                &&& final(store).requests@.subrange(0, s0.requests@.len() as int) == s0.requests@
                &&& final(store).requests@.last().id == rid
                &&& final(store).requests@.last().method == frame.req_method
                &&& final(store).requests@.last().url == frame.req_url
                &&& final(store).requests@.last().headers@ == filter_headers(frame.req_headers@)
                &&& final(store).requests@.last().body == frame.req_body
                &&& (match frame.response {
                    Some(p) => final(store).responses@ == s0.responses@.push(
                        HttpResponse {
                            id: (s0.next_id + 1) as u64,
                            status: p.status,
                            headers: p.headers,
                            body: p.body,
                        },
                    ),
                    None => final(store).responses == s0.responses,
                })
                &&& final(store).executions@ == s0.executions@.push(
                    JobExecution {
                        id: eid,
                        executed_at: effective_executed_at(frame, now),
                        success: frame.success,
                        response_id: if frame.response is Some {
                            Some((s0.next_id + 1) as u64)
                        } else {
                            None
                        },
                        response_error: frame.response_error,
                        request_id: rid,
                    },
                )
                &&& (match s0.scheduled@[i].workflow_execution_id {
                    Some(weid) => exists|w: int|
                        {
                            let c = spec_classify(effective_parse(frame, body_parse));
                            let w1 = final(store).workflow_executions@[w];
                            &&& 0 <= w < s0.workflow_executions@.len()
                            &&& (#[trigger] s0.workflow_executions@[w]).id == weid
                            &&& (if frame.response is Some || frame.response_error is Some {
                                final(store).workflow_executions@
                                    == s0.workflow_executions@.update(
                                    w,
                                    WorkflowExecution {
                                        status: c.0,
                                        executed_at: Some(effective_executed_at(frame, now)),
                                        result_json: c.1,
                                        failure_reason: c.2,
                                        ..s0.workflow_executions@[w]
                                    },
                                )
                            } else {
                                // Neither a response nor a transport error:
                                // the execution fails with the fixed
                                // no-response reason.
                                &&& final(store).workflow_executions@
                                    == s0.workflow_executions@.update(w, w1)
                                &&& w1.status is Failed
                                &&& w1.result_json is None
                                &&& (w1.failure_reason matches Some(m) && m@
                                    == "drone did not respond with a response"@)
                                &&& w1.executed_at == Some(effective_executed_at(frame, now))
                                &&& w1 == WorkflowExecution {
                                    status: w1.status,
                                    executed_at: w1.executed_at,
                                    result_json: w1.result_json,
                                    failure_reason: w1.failure_reason,
                                    ..s0.workflow_executions@[w]
                                }
                            })
                        },
                    None => final(store).workflow_executions == s0.workflow_executions,
                })
            },
        final(store).tenants == old(store).tenants,
        final(store).one_offs == old(store).one_offs,
        final(store).cron_jobs == old(store).cron_jobs,
        final(store).workflows == old(store).workflows,
        final(store).workflow_dependencies == old(store).workflow_dependencies,
{
    let ghost s0 = *old(store);
    // Find the lease.
    let mut ji: usize = 0;
    let n = store.scheduled.len();
    let mut found: bool = false;
    while ji < n
        invariant_except_break
            found == false,
        invariant
            *store == s0,
            n == s0.scheduled@.len(),
            ji <= n,
            forall|k: int| 0 <= k < ji ==> !((#[trigger] s0.scheduled@[k]).id == frame.job_id
                && s0.scheduled@[k].lock_nonce == Some(frame.lock_nonce)),
        ensures
            *store == s0,
            found ==> ji < n && s0.scheduled@[ji as int].id == frame.job_id
                && s0.scheduled@[ji as int].lock_nonce == Some(frame.lock_nonce),
            !found ==> !frame_match(s0.scheduled@, frame.job_id, frame.lock_nonce),
        decreases n - ji,
    {
        let hit = store.scheduled[ji].id == frame.job_id && (match store.scheduled[ji].lock_nonce {
            Some(x) => x == frame.lock_nonce,
            None => false,
        });
        if hit {
            found = true;
            break;
        }
        ji = ji + 1;
    }
    if !found {
        assert(!can_commit(s0, frame));
        return false;
    }
    assert(frame_match(s0.scheduled@, frame.job_id, frame.lock_nonce));

    // Resolve the workflow execution where the row names one.
    let weid_opt = store.scheduled[ji].workflow_execution_id;
    let mut wfe_idx: usize = 0;
    let mut wfe_found: bool = false;
    match weid_opt {
        Some(weid) => {
            let nw = store.workflow_executions.len();
            while wfe_idx < nw
                invariant_except_break
                    wfe_found == false,
                invariant
                    *store == s0,
                    nw == s0.workflow_executions@.len(),
                    wfe_idx <= nw,
                    forall|k: int| 0 <= k < wfe_idx ==> (
                    #[trigger] s0.workflow_executions@[k]).id != weid,
                ensures
                    *store == s0,
                    wfe_found ==> wfe_idx < nw && s0.workflow_executions@[wfe_idx as int].id
                        == weid,
                    !wfe_found ==> forall|k: int| 0 <= k < nw ==> (
                    #[trigger] s0.workflow_executions@[k]).id != weid,
                decreases nw - wfe_idx,
            {
                if store.workflow_executions[wfe_idx].id == weid {
                    wfe_found = true;
                    break;
                }
                wfe_idx = wfe_idx + 1;
            }
            if !wfe_found {
                assert(!can_commit(s0, frame)) by {
                    assert(s0.scheduled@[ji as int].id == frame.job_id
                        && s0.scheduled@[ji as int].lock_nonce == Some(frame.lock_nonce));
                }
                return false;
            }
        },
        None => {},
    }
    proof {
        assert forall|i: int|
            0 <= i < s0.scheduled@.len() && (#[trigger] s0.scheduled@[i]).id == frame.job_id
                && s0.scheduled@[i].lock_nonce == Some(frame.lock_nonce) implies (
        match s0.scheduled@[i].workflow_execution_id {
            Some(weid) => exists|w: int|
                0 <= w < s0.workflow_executions@.len() && (
                #[trigger] s0.workflow_executions@[w]).id == weid,
            None => true,
        }) by {
            let f = |j: ScheduledJob| j.id;
            if i != ji as int {
                assert(f(s0.scheduled@[i]) != f(s0.scheduled@[ji as int]));
                assert(false);
            }
        }
        assert(can_commit(s0, frame));
    }

    // Persist the sent request, reserved headers dropped.
    let headers = filter_rocktick_headers(&frame.req_headers);
    let rid = store.alloc_id();
    store.requests.push(
        HttpRequest {
            id: rid,
            method: frame.req_method,
            url: frame.req_url,
            headers,
            body: frame.req_body,
        },
    );

    // Persist the response when one came back.
    let mut response_id: Option<u64> = None;
    let parse_used: BodyParse = match frame.response {
        Some(p) => {
            let resp_id = store.alloc_id();
            response_id = Some(resp_id);
            store.responses.push(
                HttpResponse { id: resp_id, status: p.status, headers: p.headers, body: p.body },
            );
            body_parse
        },
        None => {
            match &frame.response_error {
                Some(e) => BodyParse::NoBody { reason: e.clone() },
                None => BodyParse::NoBody { reason: no_response_message() },
            }
        },
    };

    // Persist the execution record.
    let executed_at = if 0 <= frame.executed_at && frame.executed_at <= MAX_TS {
        frame.executed_at
    } else {
        now
    };
    let eid = store.alloc_id();
    store.executions.push(
        JobExecution {
            id: eid,
            executed_at,
            success: frame.success,
            response_id,
            response_error: frame.response_error,
            request_id: rid,
        },
    );

    // Drive the owning workflow execution forward.
    if wfe_found {
        let (st, res, fr) = classify_execution_result(parse_used);
        let mut wfe = store.workflow_executions.remove(wfe_idx);
        wfe.status = st;
        wfe.executed_at = Some(executed_at);
        wfe.result_json = res;
        wfe.failure_reason = fr;
        store.workflow_executions.insert(wfe_idx, wfe);
        assert(store.workflow_executions@ =~= s0.workflow_executions@.update(
            wfe_idx as int,
            store.workflow_executions@[wfe_idx as int],
        ));
        proof {
            if frame.response is Some || frame.response_error is Some {
                assert(store.workflow_executions@[wfe_idx as int] == WorkflowExecution {
                    status: spec_classify(effective_parse(frame, body_parse)).0,
                    executed_at: Some(effective_executed_at(frame, now)),
                    result_json: spec_classify(effective_parse(frame, body_parse)).1,
                    failure_reason: spec_classify(effective_parse(frame, body_parse)).2,
                    ..s0.workflow_executions@[wfe_idx as int]
                });
            }
        }
    }

    // Mark the row executed and release the lease.
    let mut row = store.scheduled.remove(ji);
    row.execution_id = Some(eid);
    row.lock_nonce = None;
    store.scheduled.insert(ji, row);
    assert(store.scheduled@ =~= s0.scheduled@.update(
        ji as int,
        ScheduledJob {
            execution_id: Some(eid),
            lock_nonce: None,
            ..s0.scheduled@[ji as int]
        },
    ));

    proof {
        // The store invariant survives: fresh ids, one row updated in each
        // touched table.
        let f = |j: ScheduledJob| j.id;
        assert forall|k: int| 0 <= k < store.scheduled@.len() implies #[trigger] f(
            store.scheduled@[k],
        ) == f(s0.scheduled@[k]) by {
            assert(f(s0.scheduled@[k]) == s0.scheduled@[k].id);
        }
        assert(crate::store::distinct_ids(store.scheduled@, f));
        assert forall|k: int| 0 <= k < store.scheduled@.len() implies crate::store::sj_ok(
            #[trigger] store.scheduled@[k],
        ) by {
            assert(crate::store::sj_ok(s0.scheduled@[k]));
        }
        let g = |e: WorkflowExecution| e.id;
        assert forall|k: int| 0 <= k < store.workflow_executions@.len() implies #[trigger] g(
            store.workflow_executions@[k],
        ) == g(s0.workflow_executions@[k]) by {
            assert(g(s0.workflow_executions@[k]) == s0.workflow_executions@[k].id);
        }
        assert(crate::store::distinct_ids(store.workflow_executions@, g));
        assert forall|k: int| 0 <= k < store.workflow_executions@.len() implies crate::store::wfe_ok(
            #[trigger] store.workflow_executions@[k],
        ) by {
            assert(crate::store::wfe_ok(s0.workflow_executions@[k]));
        }
        // The recorded row no longer matches the frame.
        assert forall|i: int|
            0 <= i < store.scheduled@.len() implies !((#[trigger] store.scheduled@[i]).id
            == frame.job_id && store.scheduled@[i].lock_nonce == Some(frame.lock_nonce)) by {
            if i != ji as int {
                if store.scheduled@[i].id == frame.job_id {
                    assert(f(s0.scheduled@[i]) != f(s0.scheduled@[ji as int]));
                    assert(false);
                }
            }
        }
    }
    true
}

} // verus!
