//! The API layer's decisions: input validation and the store writes behind
//! job, cron-job and tenant endpoints. The HTTP surface itself stays outside
//! the library; it hands plain values in and takes plain values back.

use vstd::prelude::*;

use crate::cron::cron_accepts;
use crate::cron::cron_expr_accepted;
use crate::signing::url_accepts;
use crate::signing::url_is_valid;
use crate::store::lemma_tenant_lookup_unique;
use crate::store::tenant_lookup;
use crate::store::CronJob;
use crate::store::HttpRequest;
use crate::store::OneOffJob as StoreOneOffJob;
use crate::store::ScheduledJob;
use crate::store::Store;
use crate::store::MAX_TS;
use crate::store::TIMEOUT_MS_BOUND;
use crate::tenants::compute_increment_and_period;

verus! {

/// Retries granted to a job whose creator and tenant name none.
pub const FALLBACK_RETRIES: i32 = 3;

/// A request payload as the API receives it.
pub struct Request {
    pub method: String,
    pub url: String,
    pub headers: Vec<(String, String)>,
    pub body: Option<String>,
}

/// A response payload as the API reports it.
pub struct Response {
    pub status: i64,
    pub headers: Vec<(String, String)>,
    pub body: String,
}

/// One dispatch outcome as the API reports it.
pub struct Execution {
    pub id: u64,
    pub region: String,
    pub scheduled_at: i64,
    pub executed_at: Option<i64>,
    pub success: Option<bool>,
    pub response_error: Option<String>,
    pub timeout_ms: Option<i64>,
    pub max_retries: i32,
    pub max_response_bytes: Option<i64>,
    pub tenant_id: Option<u64>,
    pub one_off_job_id: Option<u64>,
    pub cron_job_id: Option<u64>,
    pub retry_for: Option<u64>,
}

/// A one-off job as the API reports it.
pub struct OneOffJob {
    pub id: u64,
    pub region: String,
    pub execute_at: i64,
    pub request: Request,
    pub executions: Vec<Execution>,
    pub timeout_ms: Option<i64>,
    pub max_retries: i32,
    pub max_response_bytes: Option<i64>,
    pub tenant_id: Option<u64>,
}

/// A tenant as the API reports it.
pub struct Tenant {
    pub id: u64,
    pub tokens: i32,
    pub max_tokens: i32,
    pub tok_per_day: i32,
    pub max_timeout: i64,
    pub default_retries: i32,
    pub max_max_response_bytes: i64,
}

/// The caller's tenant scope, extracted by the authentication layer.
pub struct TenantId(pub Option<u64>);

/// A JSON request body, already decoded at the edge.
pub struct JsonBody<T>(pub T);

/// Why the API refused a call.
pub enum ApiRejection {
    BadRequest,
    NotFound,
}

/// The accepted HTTP methods for a stored request.
pub open spec fn method_allowed(m: Seq<char>) -> bool {
    ||| m == "GET"@
    ||| m == "POST"@
    ||| m == "PUT"@
    ||| m == "PATCH"@
    ||| m == "DELETE"@
    ||| m == "HEAD"@
    ||| m == "OPTIONS"@
}

/// A request payload is acceptable: known method, parseable URL.
pub open spec fn request_valid(r: Request) -> bool {
    method_allowed(r.method@) && url_accepts(r.url@)
}

impl Request {
    /// Validates the payload: the method must be known and the URL must
    /// parse.
    pub fn verify(&self) -> (r: bool)
        ensures
            r == request_valid(*self),
    {
        proof {
            reveal_strlit("GET");
            reveal_strlit("POST");
            reveal_strlit("PUT");
            reveal_strlit("PATCH");
            reveal_strlit("DELETE");
            reveal_strlit("HEAD");
            reveal_strlit("OPTIONS");
        }
        let ok = self.method == String::from_str("GET") || self.method == String::from_str("POST")
            || self.method == String::from_str("PUT") || self.method == String::from_str("PATCH")
            || self.method == String::from_str("DELETE") || self.method == String::from_str("HEAD")
            || self.method == String::from_str("OPTIONS");
        ok && url_is_valid(self.url.as_str())
    }
}

/// The region is one the deployment serves.
pub open spec fn region_listed(valid: Seq<String>, region: Seq<char>) -> bool {
    exists|i: int| 0 <= i < valid.len() && (#[trigger] valid[i])@ == region
}

/// Whether the region is listed, executable.
pub fn region_is_listed(valid: &Vec<String>, region: &String) -> (r: bool)
    ensures
        r == region_listed(valid@, region@),
{
    let mut i: usize = 0;
    while i < valid.len()
        invariant
            i <= valid@.len(),
            forall|m: int| 0 <= m < i ==> (#[trigger] valid@[m])@ != region@,
        decreases valid@.len() - i,
    {
        if valid[i] == *region {
            assert(valid@[i as int]@ == region@);
            return true;
        }
        i = i + 1;
    }
    false
}

/// A new one-off job as the API receives it.
pub struct CreateJob {
    pub region: String,
    pub execute_at: i64,
    pub request: Request,
    pub timeout_ms: Option<i64>,
    pub max_retries: Option<i32>,
    pub max_response_bytes: Option<i64>,
}

/// The tenant caps admit these job parameters.
pub open spec fn caps_ok(t: Option<crate::store::Tenant>, timeout_ms: Option<i64>, max_response_bytes: Option<i64>, body_len: int) -> bool {
    match t {
        Some(t) => {
            &&& (timeout_ms matches Some(x) ==> x <= t.max_timeout)
            &&& (max_response_bytes matches Some(x) ==> x <= t.max_max_response_bytes)
            &&& body_len <= t.max_request_bytes
        },
        None => true,
    }
}

/// The creation is accepted: listed region, valid payload, caps kept, sane
/// bounds.
pub open spec fn create_job_ok(s: Store, tenant_id: Option<u64>, opts: CreateJob, valid: Seq<String>) -> bool {
    &&& region_listed(valid, opts.region@)
    &&& request_valid(opts.request)
    &&& 0 <= opts.execute_at <= MAX_TS
    &&& (opts.timeout_ms matches Some(x) ==> 0 <= x <= TIMEOUT_MS_BOUND)
    &&& caps_ok(
        match tenant_id {
            Some(tid) => tenant_lookup(s.tenants@, tid),
            None => None,
        },
        opts.timeout_ms,
        opts.max_response_bytes,
        match opts.request.body {
            Some(b) => b@.len() as int,
            None => 0,
        },
    )
}

/// The retry budget a new job gets: its own, else its tenant's default, else
/// three.
pub open spec fn default_retries(given: Option<i32>, t: Option<crate::store::Tenant>) -> i32 {
    match given {
        Some(r) => r,
        None => match t {
            Some(t) => t.default_retries,
            None => FALLBACK_RETRIES,
        },
    }
}

/// Creates a one-off job: validates the region, the payload and the tenant
/// caps, freezes the request, and stores the definition. Returns the new
/// job's id exactly when every check passes; a rejected call leaves the
/// store untouched.
pub fn create_job(store: &mut Store, tenant_id: Option<u64>, opts: CreateJob, valid_regions: &Vec<String>) -> (r: Result<u64, ApiRejection>)
    requires
        old(store).wf(),
        old(store).next_id < u64::MAX - 2,
    ensures
        final(store).wf(),
        r is Ok == create_job_ok(*old(store), tenant_id, opts, valid_regions@),
        r is Err ==> *final(store) == *old(store),
        r matches Ok(jid) ==> {
            &&& jid == old(store).next_id + 1
            &&& final(store).requests@ == old(store).requests@.push(
                HttpRequest {
                    id: old(store).next_id,
                    method: opts.request.method,
                    url: opts.request.url,
                    headers: opts.request.headers,
                    body: opts.request.body,
                },
            )
            &&& final(store).one_offs@ == old(store).one_offs@.push(
                StoreOneOffJob {
                    id: jid,
                    region: opts.region,
                    tenant_id,
                    request_id: old(store).next_id,
                    execute_at: opts.execute_at,
                    timeout_ms: opts.timeout_ms,
                    max_retries: default_retries(
                        opts.max_retries,
                        match tenant_id {
                            Some(tid) => tenant_lookup(old(store).tenants@, tid),
                            None => None,
                        },
                    ),
                    max_response_bytes: opts.max_response_bytes,
                    deleted_at: None,
                },
            )
            &&& final(store).scheduled == old(store).scheduled
            &&& final(store).tenants == old(store).tenants
            &&& final(store).cron_jobs == old(store).cron_jobs
        },
{
    let ghost s0 = *old(store);
    if !region_is_listed(valid_regions, &opts.region) {
        return Err(ApiRejection::BadRequest);
    }
    if !opts.request.verify() {
        return Err(ApiRejection::BadRequest);
    }
    if !(0 <= opts.execute_at && opts.execute_at <= MAX_TS) {
        return Err(ApiRejection::BadRequest);
    }
    match opts.timeout_ms {
        Some(x) => {
            if !(0 <= x && x <= TIMEOUT_MS_BOUND) {
                return Err(ApiRejection::BadRequest);
            }
        },
        None => {},
    }
    let mut tenant: Option<crate::store::Tenant> = None;
    match tenant_id {
        Some(tid) => {
            match store.find_tenant(tid) {
                Some(ti) => {
                    proof {
                        lemma_tenant_lookup_unique(store.tenants@, ti as int);
                    }
                    tenant = Some(store.tenants[ti]);
                },
                None => {
                    proof {
                        assert(tenant_lookup(s0.tenants@, tid) is None);
                    }
                },
            }
        },
        None => {},
    }
    let body_len: usize = match &opts.request.body {
        Some(b) => b.as_str().unicode_len(),
        None => 0,
    };
    match &tenant {
        Some(t) => {
            let timeout_over = match opts.timeout_ms {
                Some(x) => x > t.max_timeout,
                None => false,
            };
            let resp_over = match opts.max_response_bytes {
                Some(x) => x > t.max_max_response_bytes,
                None => false,
            };
            let body_over = t.max_request_bytes < 0 || (body_len as u64)
                > (t.max_request_bytes as u64);
            if timeout_over || resp_over || body_over {
                return Err(ApiRejection::BadRequest);
            }
        },
        None => {},
    }
    assert(create_job_ok(s0, tenant_id, opts, valid_regions@));
    let rid = store.alloc_id();
    store.requests.push(
        HttpRequest {
            id: rid,
            method: opts.request.method,
            url: opts.request.url,
            headers: opts.request.headers,
            body: opts.request.body,
        },
    );
    let max_retries = match opts.max_retries {
        Some(r) => r,
        None => match &tenant {
            Some(t) => t.default_retries,
            None => FALLBACK_RETRIES,
        },
    };
    let jid = store.alloc_id();
    store.one_offs.push(
        StoreOneOffJob {
            id: jid,
            region: opts.region,
            tenant_id,
            request_id: rid,
            execute_at: opts.execute_at,
            timeout_ms: opts.timeout_ms,
            max_retries,
            max_response_bytes: opts.max_response_bytes,
            deleted_at: None,
        },
    );
    Ok(jid)
}

/// A new cron job as the API receives it.
pub struct CreateCronJob {
    pub region: String,
    pub schedule: String,
    pub request: Request,
    pub timeout_ms: Option<i64>,
    pub max_retries: Option<i32>,
    pub max_response_bytes: Option<i64>,
}

/// The cron creation is accepted: additionally the schedule must parse and a
/// named tenant must exist.
pub open spec fn create_cron_job_ok(s: Store, tenant_id: Option<u64>, opts: CreateCronJob, valid: Seq<String>) -> bool {
    &&& region_listed(valid, opts.region@)
    &&& cron_accepts(opts.schedule@)
    &&& request_valid(opts.request)
    &&& (opts.timeout_ms matches Some(x) ==> 0 <= x <= TIMEOUT_MS_BOUND)
    &&& (tenant_id matches Some(tid) ==> tenant_lookup(s.tenants@, tid) is Some)
    &&& caps_ok(
        match tenant_id {
            Some(tid) => tenant_lookup(s.tenants@, tid),
            None => None,
        },
        opts.timeout_ms,
        opts.max_response_bytes,
        match opts.request.body {
            Some(b) => b@.len() as int,
            None => 0,
        },
    )
}

/// Creates a cron job: validates the region, the schedule, the payload, the
/// tenant and its caps, freezes the request, and stores the definition.
/// Returns the new job's id exactly when every check passes; a rejected call
/// leaves the store untouched.
pub fn create_cron_job(store: &mut Store, tenant_id: Option<u64>, opts: CreateCronJob, valid_regions: &Vec<String>) -> (r: Result<u64, ApiRejection>)
    requires
        old(store).wf(),
        old(store).next_id < u64::MAX - 2,
    ensures
        final(store).wf(),
        r is Ok == create_cron_job_ok(*old(store), tenant_id, opts, valid_regions@),
        r is Err ==> *final(store) == *old(store),
        r matches Ok(jid) ==> {
            &&& jid == old(store).next_id + 1
            &&& final(store).requests@ == old(store).requests@.push(
                HttpRequest {
                    id: old(store).next_id,
                    method: opts.request.method,
                    url: opts.request.url,
                    headers: opts.request.headers,
                    body: opts.request.body,
                },
            )
            &&& final(store).cron_jobs@ == old(store).cron_jobs@.push(
                CronJob {
                    id: jid,
                    region: opts.region,
                    tenant_id,
                    request_id: old(store).next_id,
                    schedule: opts.schedule,
                    timeout_ms: opts.timeout_ms,
                    max_retries: default_retries(
                        opts.max_retries,
                        match tenant_id {
                            Some(tid) => tenant_lookup(old(store).tenants@, tid),
                            None => None,
                        },
                    ),
                    max_response_bytes: opts.max_response_bytes,
                    error: None,
                    deleted_at: None,
                },
            )
            &&& final(store).scheduled == old(store).scheduled
            &&& final(store).tenants == old(store).tenants
            &&& final(store).one_offs == old(store).one_offs
        },
{
    let ghost s0 = *old(store);
    if !region_is_listed(valid_regions, &opts.region) {
        return Err(ApiRejection::BadRequest);
    }
    if !cron_expr_accepted(opts.schedule.as_str()) {
        return Err(ApiRejection::BadRequest);
    }
    if !opts.request.verify() {
        return Err(ApiRejection::BadRequest);
    }
    match opts.timeout_ms {
        Some(x) => {
            if !(0 <= x && x <= TIMEOUT_MS_BOUND) {
                return Err(ApiRejection::BadRequest);
            }
        },
        None => {},
    }
    let mut tenant: Option<crate::store::Tenant> = None;
    match tenant_id {
        Some(tid) => {
            match store.find_tenant(tid) {
                Some(ti) => {
                    proof {
                        lemma_tenant_lookup_unique(store.tenants@, ti as int);
                    }
                    tenant = Some(store.tenants[ti]);
                },
                None => {
                    proof {
                        assert(tenant_lookup(s0.tenants@, tid) is None);
                    }
                    return Err(ApiRejection::BadRequest);
                },
            }
        },
        None => {},
    }
    let body_len: usize = match &opts.request.body {
        Some(b) => b.as_str().unicode_len(),
        None => 0,
    };
    match &tenant {
        Some(t) => {
            let timeout_over = match opts.timeout_ms {
                Some(x) => x > t.max_timeout,
                None => false,
            };
            let resp_over = match opts.max_response_bytes {
                Some(x) => x > t.max_max_response_bytes,
                None => false,
            };
            let body_over = t.max_request_bytes < 0 || (body_len as u64)
                > (t.max_request_bytes as u64);
            if timeout_over || resp_over || body_over {
                return Err(ApiRejection::BadRequest);
            }
        },
        None => {},
    }
    assert(create_cron_job_ok(s0, tenant_id, opts, valid_regions@));
    let rid = store.alloc_id();
    store.requests.push(
        HttpRequest {
            id: rid,
            method: opts.request.method,
            url: opts.request.url,
            headers: opts.request.headers,
            body: opts.request.body,
        },
    );
    let max_retries = match opts.max_retries {
        Some(r) => r,
        None => match &tenant {
            Some(t) => t.default_retries,
            None => FALLBACK_RETRIES,
        },
    };
    let jid = store.alloc_id();
    store.cron_jobs.push(
        CronJob {
            id: jid,
            region: opts.region,
            tenant_id,
            request_id: rid,
            schedule: opts.schedule,
            timeout_ms: opts.timeout_ms,
            max_retries,
            max_response_bytes: opts.max_response_bytes,
            error: None,
            deleted_at: None,
        },
    );
    Ok(jid)
}

/// Changed cron-job parameters as the API receives them.
pub struct UpdateCronJob {
    pub region: Option<String>,
    pub schedule: Option<String>,
    pub request: Option<Request>,
    pub timeout_ms: Option<i64>,
    pub max_retries: Option<i32>,
    pub max_response_bytes: Option<i64>,
}

/// A scheduled row survives a cron-job update: it is not an unexecuted row
/// of that job.
pub open spec fn survives_update(j: ScheduledJob, cid: u64) -> bool {
    !(j.cron_job_id == Some(cid) && j.execution_id is None)
}

/// The scheduled table with the job's unexecuted rows removed.
pub open spec fn purge_unexecuted(sched: Seq<ScheduledJob>, cid: u64) -> Seq<ScheduledJob>
    decreases sched.len(),
{
    if sched.len() == 0 {
        Seq::empty()
    } else {
        let rest = purge_unexecuted(sched.drop_last(), cid);
        if survives_update(sched.last(), cid) {
            rest.push(sched.last())
        } else {
            rest
        }
    }
}

/// Every row of the purged table comes from the table before the purge.
pub proof fn lemma_purge_sub(sched: Seq<ScheduledJob>, cid: u64)
    ensures
        purge_unexecuted(sched, cid).len() <= sched.len(),
        forall|x: int| 0 <= x < purge_unexecuted(sched, cid).len() ==> exists|o: int|
            0 <= o < sched.len() && #[trigger] purge_unexecuted(sched, cid)[x] == sched[o],
    decreases sched.len(),
{
    if sched.len() > 0 {
        lemma_purge_sub(sched.drop_last(), cid);
        let p = purge_unexecuted(sched, cid);
        let rest = purge_unexecuted(sched.drop_last(), cid);
        assert forall|x: int| 0 <= x < p.len() implies exists|o: int|
            0 <= o < sched.len() && #[trigger] p[x] == sched[o] by {
            if survives_update(sched.last(), cid) && x == p.len() - 1 {
                assert(p[x] == sched[sched.len() - 1]);
            } else {
                assert(p[x] == rest[x]);
                let o = choose|o: int| 0 <= o < sched.drop_last().len() && rest[x] == sched.drop_last()[o];
                assert(p[x] == sched[o]);
            }
        }
    }
}

/// Purging keeps ids pairwise distinct.
pub proof fn lemma_purge_distinct(sched: Seq<ScheduledJob>, cid: u64)
    requires
        crate::store::distinct_ids(sched, |j: ScheduledJob| j.id),
    ensures
        crate::store::distinct_ids(purge_unexecuted(sched, cid), |j: ScheduledJob| j.id),
    decreases sched.len(),
{
    let f = |j: ScheduledJob| j.id;
    if sched.len() > 0 {
        assert forall|a: int, b: int|
            0 <= a < sched.drop_last().len() && 0 <= b < sched.drop_last().len() && a != b implies
            #[trigger] f(sched.drop_last()[a]) != #[trigger] f(sched.drop_last()[b]) by {
            assert(f(sched[a]) != f(sched[b]));
        }
        lemma_purge_distinct(sched.drop_last(), cid);
        lemma_purge_sub(sched.drop_last(), cid);
        let rest = purge_unexecuted(sched.drop_last(), cid);
        let p = purge_unexecuted(sched, cid);
        if survives_update(sched.last(), cid) {
            assert forall|a: int, b: int|
                0 <= a < p.len() && 0 <= b < p.len() && a != b implies #[trigger] f(p[a])
                != #[trigger] f(p[b]) by {
                if a < rest.len() && b < rest.len() {
                    assert(f(rest[a]) != f(rest[b]));
                } else {
                    let x = if a < rest.len() {
                        a
                    } else {
                        b
                    };
                    assert(p[x] == rest[x]);
                    let o = choose|o: int|
                        0 <= o < sched.drop_last().len() && rest[x] == sched.drop_last()[o];
                    assert(f(sched[o]) != f(sched[sched.len() - 1]));
                }
            }
        }
    }
}

/// The cron update is accepted: each given field validates as at creation,
/// and a named tenant must exist.
pub open spec fn update_cron_job_ok(s: Store, tenant_id: Option<u64>, opts: UpdateCronJob, valid: Seq<String>) -> bool {
    &&& (opts.region matches Some(r) ==> region_listed(valid, r@))
    &&& (opts.schedule matches Some(c) ==> cron_accepts(c@))
    &&& (opts.request matches Some(q) ==> request_valid(q))
    &&& (opts.timeout_ms matches Some(x) ==> 0 <= x <= TIMEOUT_MS_BOUND)
    &&& (tenant_id matches Some(tid) ==> tenant_lookup(s.tenants@, tid) is Some)
    &&& caps_ok(
        match tenant_id {
            Some(tid) => tenant_lookup(s.tenants@, tid),
            None => None,
        },
        opts.timeout_ms,
        opts.max_response_bytes,
        match opts.request {
            Some(q) => match q.body {
                Some(b) => b@.len() as int,
                None => 0,
            },
            None => 0,
        },
    )
}

/// The caller may see this cron job: it is live and inside the caller's
/// tenant scope.
pub open spec fn cron_job_visible(j: CronJob, job_id: u64, tenant_id: Option<u64>) -> bool {
    &&& j.id == job_id
    &&& j.deleted_at is None
    &&& (tenant_id matches Some(t) ==> j.tenant_id == Some(t))
}

/// Updates a cron job: validates each given field, deletes the job's
/// not-yet-executed scheduled rows (they re-materialize under the new
/// definition), rewrites the frozen request when a new one is given, applies
/// the given fields and clears the job's error, re-enabling it.
pub fn update_cron_job(store: &mut Store, job_id: u64, tenant_id: Option<u64>, opts: UpdateCronJob, valid_regions: &Vec<String>) -> (r: Result<(), ApiRejection>)
    requires
        old(store).wf(),
    ensures
        final(store).wf(),
        // The update succeeds exactly when every given field validates and
        // the caller can see a live job under this id.
        r is Ok == (update_cron_job_ok(*old(store), tenant_id, opts, valid_regions@)
            && exists|k: int|
            0 <= k < old(store).cron_jobs@.len() && cron_job_visible(
                #[trigger] old(store).cron_jobs@[k],
                job_id,
                tenant_id,
            )),
        r is Err ==> *final(store) == *old(store),
        (r matches Err(e) && e is NotFound) ==> forall|k: int|
            0 <= k < old(store).cron_jobs@.len() ==> !cron_job_visible(
                #[trigger] old(store).cron_jobs@[k],
                job_id,
                tenant_id,
            ),
        r is Ok ==> update_cron_job_ok(*old(store), tenant_id, opts, valid_regions@) && exists|k: int|
            #![trigger old(store).cron_jobs@[k]]
            {
                &&& 0 <= k < old(store).cron_jobs@.len()
                &&& cron_job_visible(old(store).cron_jobs@[k], job_id, tenant_id)
                // The job's unexecuted rows are gone.
                &&& final(store).scheduled@ == purge_unexecuted(old(store).scheduled@, job_id)
                // The given fields replace the stored ones; the error is
                // cleared.
                &&& ({
                    let j0 = old(store).cron_jobs@[k];
                    final(store).cron_jobs@ == old(store).cron_jobs@.update(
                        k,
                        CronJob {
                            region: match opts.region {
                                Some(x) => x,
                                None => j0.region,
                            },
                            schedule: match opts.schedule {
                                Some(x) => x,
                                None => j0.schedule,
                            },
                            timeout_ms: match opts.timeout_ms {
                                Some(x) => Some(x),
                                None => j0.timeout_ms,
                            },
                            max_retries: match opts.max_retries {
                                Some(x) => x,
                                None => j0.max_retries,
                            },
                            max_response_bytes: match opts.max_response_bytes {
                                Some(x) => Some(x),
                                None => j0.max_response_bytes,
                            },
                            error: None,
                            ..j0
                        },
                    )
                })
                // A new payload replaces the frozen request in place.
                &&& (match opts.request {
                    Some(q) => {
                        &&& final(store).requests@.len() == old(store).requests@.len()
                        &&& (forall|m: int| 0 <= m < old(store).requests@.len() ==> {
                            let r0 = #[trigger] old(store).requests@[m];
                            let r1 = final(store).requests@[m];
                            if r0.id == old(store).cron_jobs@[k].request_id {
                                r1.id == r0.id && r1.method == q.method && r1.url == q.url
                                    && r1.headers@ == q.headers@ && r1.body == q.body
                            } else {
                                r1 == r0
                            }
                        })
                    },
                    None => final(store).requests == old(store).requests,
                })
            },
        final(store).tenants == old(store).tenants,
        final(store).one_offs == old(store).one_offs,
        final(store).responses == old(store).responses,
        final(store).executions == old(store).executions,
        final(store).workflows == old(store).workflows,
        final(store).workflow_executions == old(store).workflow_executions,
        final(store).workflow_dependencies == old(store).workflow_dependencies,
        final(store).next_id == old(store).next_id,
{
    let ghost s0 = *old(store);
    // Validate each given field.
    match &opts.region {
        Some(rg) => {
            if !region_is_listed(valid_regions, rg) {
                return Err(ApiRejection::BadRequest);
            }
        },
        None => {},
    }
    match &opts.schedule {
        Some(c) => {
            if !cron_expr_accepted(c.as_str()) {
                return Err(ApiRejection::BadRequest);
            }
        },
        None => {},
    }
    match &opts.request {
        Some(q) => {
            if !q.verify() {
                return Err(ApiRejection::BadRequest);
            }
        },
        None => {},
    }
    match opts.timeout_ms {
        Some(x) => {
            if !(0 <= x && x <= TIMEOUT_MS_BOUND) {
                return Err(ApiRejection::BadRequest);
            }
        },
        None => {},
    }
    let mut tenant: Option<crate::store::Tenant> = None;
    match tenant_id {
        Some(tid) => {
            match store.find_tenant(tid) {
                Some(ti) => {
                    proof {
                        lemma_tenant_lookup_unique(store.tenants@, ti as int);
                    }
                    tenant = Some(store.tenants[ti]);
                },
                None => {
                    proof {
                        assert(tenant_lookup(s0.tenants@, tid) is None);
                    }
                    return Err(ApiRejection::BadRequest);
                },
            }
        },
        None => {},
    }
    let body_len: usize = match &opts.request {
        Some(q) => match &q.body {
            Some(b) => b.as_str().unicode_len(),
            None => 0,
        },
        None => 0,
    };
    match &tenant {
        Some(t) => {
            let timeout_over = match opts.timeout_ms {
                Some(x) => x > t.max_timeout,
                None => false,
            };
            let resp_over = match opts.max_response_bytes {
                Some(x) => x > t.max_max_response_bytes,
                None => false,
            };
            let body_over = t.max_request_bytes < 0 || (body_len as u64)
                > (t.max_request_bytes as u64);
            if timeout_over || resp_over || body_over {
                return Err(ApiRejection::BadRequest);
            }
        },
        None => {},
    }
    assert(update_cron_job_ok(s0, tenant_id, opts, valid_regions@));

    // Find the job inside the caller's scope.
    let mut k: usize = 0;
    let n = store.cron_jobs.len();
    let mut found: usize = n;
    while k < n
        invariant_except_break
            found == n,
        invariant
            *store == s0,
            n == s0.cron_jobs@.len(),
            k <= n,
            forall|i: int| 0 <= i < k ==> !cron_job_visible(
                #[trigger] s0.cron_jobs@[i],
                job_id,
                tenant_id,
            ),
        ensures
            *store == s0,
            found <= n,
            found == n ==> forall|i: int| 0 <= i < n ==> !cron_job_visible(
                #[trigger] s0.cron_jobs@[i],
                job_id,
                tenant_id,
            ),
            found < n ==> cron_job_visible(s0.cron_jobs@[found as int], job_id, tenant_id),
        decreases n - k,
    {
        let visible = store.cron_jobs[k].id == job_id && store.cron_jobs[k].deleted_at.is_none()
            && (match tenant_id {
            Some(t) => store.cron_jobs[k].tenant_id == Some(t),
            None => true,
        });
        if visible {
            found = k;
            break;
        }
        k = k + 1;
    }
    if found == n {
        return Err(ApiRejection::NotFound);
    }
    let request_id = store.cron_jobs[found].request_id;

    // Delete the job's unexecuted rows: they re-materialize under the new
    // definition.
    let mut i: usize = 0;
    let ghost n0 = s0.scheduled@.len();
    let total = store.scheduled.len();
    let mut scanned: usize = 0;
    while scanned < total
        invariant
            s0.wf(),
            n0 == s0.scheduled@.len(),
            total == n0,
            scanned <= n0,
            i <= scanned,
            store.scheduled@.len() == purge_unexecuted(
                s0.scheduled@.subrange(0, scanned as int),
                job_id,
            ).len() + (n0 - scanned),
            i as int == purge_unexecuted(s0.scheduled@.subrange(0, scanned as int), job_id).len(),
            store.scheduled@ == purge_unexecuted(s0.scheduled@.subrange(0, scanned as int), job_id)
                + s0.scheduled@.subrange(scanned as int, n0 as int),
            store.cron_jobs == s0.cron_jobs,
            store.tenants == s0.tenants,
            store.one_offs == s0.one_offs,
            store.requests == s0.requests,
            store.responses == s0.responses,
            store.executions == s0.executions,
            store.workflows == s0.workflows,
            store.workflow_executions == s0.workflow_executions,
            store.workflow_dependencies == s0.workflow_dependencies,
            store.next_id == s0.next_id,
        decreases n0 - scanned,
    {
        assert(s0.scheduled@.subrange(0, scanned as int + 1).drop_last() =~= s0.scheduled@.subrange(
            0,
            scanned as int,
        ));
        assert(s0.scheduled@.subrange(0, scanned as int + 1).last()
            == s0.scheduled@[scanned as int]);
        assert(store.scheduled@[i as int] == s0.scheduled@[scanned as int]);
        let survives = !((match store.scheduled[i].cron_job_id {
            Some(c) => c == job_id,
            None => false,
        }) && store.scheduled[i].execution_id.is_none());
        let ghost pre = store.scheduled@;
        if survives {
            i = i + 1;
        } else {
            let _ = store.scheduled.remove(i);
        }
        scanned = scanned + 1;
        proof {
            let p1 = purge_unexecuted(s0.scheduled@.subrange(0, scanned as int), job_id);
            assert(store.scheduled@ =~= p1 + s0.scheduled@.subrange(scanned as int, n0 as int));
        }
    }
    assert(s0.scheduled@.subrange(0, n0 as int) =~= s0.scheduled@);
    assert(s0.scheduled@.subrange(n0 as int, n0 as int) =~= Seq::<ScheduledJob>::empty());
    assert(store.scheduled@ =~= purge_unexecuted(s0.scheduled@, job_id));

    // Rewrite the frozen request when a new payload is given.
    match opts.request {
        Some(q) => {
            let mut m: usize = 0;
            let ghost req0 = store.requests@;
            while m < store.requests.len()
                invariant
                    s0.wf(),
                    req0 == s0.requests@,
                    m <= req0.len(),
                    store.requests@.len() == req0.len(),
                    forall|x: int| 0 <= x < m ==> {
                        let r0 = #[trigger] req0[x];
                        let r1 = store.requests@[x];
                        if r0.id == request_id {
                            r1.id == r0.id && r1.method == q.method && r1.url == q.url
                                && r1.headers@ == q.headers@ && r1.body == q.body
                        } else {
                            r1 == r0
                        }
                    },
                    forall|x: int| m <= x < req0.len() ==> store.requests@[x] == req0[x],
                    store.scheduled@ == purge_unexecuted(s0.scheduled@, job_id),
                    store.cron_jobs == s0.cron_jobs,
                    store.tenants == s0.tenants,
                    store.one_offs == s0.one_offs,
                    store.responses == s0.responses,
                    store.executions == s0.executions,
                    store.workflows == s0.workflows,
                    store.workflow_executions == s0.workflow_executions,
                    store.workflow_dependencies == s0.workflow_dependencies,
                    store.next_id == s0.next_id,
                decreases req0.len() - m,
            {
                if store.requests[m].id == request_id {
                    let ghost prev = store.requests@;
                    let mut row = store.requests.remove(m);
                    row.method = q.method.clone();
                    row.url = q.url.clone();
                    row.headers = clone_headers(&q.headers);
                    row.body = match &q.body {
                        Some(b) => Some(b.clone()),
                        None => None,
                    };
                    store.requests.insert(m, row);
                    assert(store.requests@ =~= prev.update(m as int, store.requests@[m as int]));
                }
                m = m + 1;
            }
            proof {
                let f = |r: HttpRequest| r.id;
                assert forall|x: int| 0 <= x < store.requests@.len() implies #[trigger] f(
                    store.requests@[x],
                ) == f(s0.requests@[x]) by {
                    assert(f(s0.requests@[x]) == s0.requests@[x].id);
                }
                assert(crate::store::distinct_ids(store.requests@, f));
                assert(crate::store::ids_below(store.requests@, f, store.next_id));
            }
        },
        None => {},
    }

    // Apply the given fields; clear the error, re-enabling the job.
    let ghost jobs0 = store.cron_jobs@;
    let mut job = store.cron_jobs.remove(found);
    match opts.region {
        Some(x) => {
            job.region = x;
        },
        None => {},
    }
    match opts.schedule {
        Some(x) => {
            job.schedule = x;
        },
        None => {},
    }
    match opts.timeout_ms {
        Some(x) => {
            job.timeout_ms = Some(x);
        },
        None => {},
    }
    match opts.max_retries {
        Some(x) => {
            job.max_retries = x;
        },
        None => {},
    }
    match opts.max_response_bytes {
        Some(x) => {
            job.max_response_bytes = Some(x);
        },
        None => {},
    }
    job.error = None;
    store.cron_jobs.insert(found, job);
    assert(store.cron_jobs@ =~= s0.cron_jobs@.update(
        found as int,
        store.cron_jobs@[found as int],
    ));
    proof {
        // The purged table and the updated tables keep the invariant.
        lemma_purge_sub(s0.scheduled@, job_id);
        lemma_purge_distinct(s0.scheduled@, job_id);
        let g = |j: ScheduledJob| j.id;
        assert forall|x: int| 0 <= x < store.scheduled@.len() implies crate::store::sj_ok(
            #[trigger] store.scheduled@[x],
        ) && g(store.scheduled@[x]) < store.next_id by {
            let o = choose|o: int|
                0 <= o < s0.scheduled@.len() && #[trigger] store.scheduled@[x] == s0.scheduled@[o];
            assert(crate::store::sj_ok(s0.scheduled@[o]));
            assert(g(s0.scheduled@[o]) == s0.scheduled@[o].id);
        }
        assert(crate::store::ids_below(store.scheduled@, g, store.next_id));
        let f = |c: CronJob| c.id;
        assert forall|x: int| 0 <= x < store.cron_jobs@.len() implies #[trigger] f(
            store.cron_jobs@[x],
        ) == f(s0.cron_jobs@[x]) by {
            assert(f(s0.cron_jobs@[x]) == s0.cron_jobs@[x].id);
        }
        assert(crate::store::distinct_ids(store.cron_jobs@, f));
        assert(crate::store::ids_below(store.cron_jobs@, f, store.next_id));
        assert forall|x: int| 0 <= x < store.cron_jobs@.len() implies crate::store::cj_ok(
            #[trigger] store.cron_jobs@[x],
        ) by {
            assert(crate::store::cj_ok(s0.cron_jobs@[x]));
        }
    }
    Ok(())
}

/// Clones a header list.
fn clone_headers(h: &Vec<(String, String)>) -> (r: Vec<(String, String)>)
    ensures
        r@ == h@,
{
    let mut out: Vec<(String, String)> = Vec::new();
    let mut i: usize = 0;
    while i < h.len()
        invariant
            i <= h@.len(),
            out@ =~= h@.subrange(0, i as int),
        decreases h@.len() - i,
    {
        let k = h[i].0.clone();
        let v = h[i].1.clone();
        assert((k, v) == h@[i as int]);
        out.push((k, v));
        assert(out@ =~= h@.subrange(0, i as int + 1));
        i = i + 1;
    }
    assert(out@ =~= h@);
    out
}

/// New tenant parameters as the API receives them.
pub struct CreateTenantData {
    pub max_tokens: i32,
    pub tokens_per_day: i32,
}

/// The API's answer to a tenant creation.
pub enum CreateTenantResponse {
    Created(Tenant),
    InternalServerError,
}

/// Changed tenant parameters as the API receives them.
pub struct UpdateTenantRequest {
    pub tokens_per_day: Option<i32>,
    pub max_tokens: Option<i32>,
    pub tokens: Option<i32>,
}

/// Default timeout cap of a fresh tenant, in milliseconds.
pub const TENANT_DEFAULT_MAX_TIMEOUT: i64 = 60_000;

/// Default response-size cap of a fresh tenant, in bytes.
pub const TENANT_DEFAULT_MAX_RESPONSE: i64 = 33_554_432;

/// Default request-size cap of a fresh tenant, in bytes.
pub const TENANT_DEFAULT_MAX_REQUEST: i64 = 1_048_576;

/// Default retention of a fresh tenant, in days.
pub const TENANT_DEFAULT_RETAIN_DAYS: i64 = 30;

/// Creates a tenant: derives the refill pair from `tokens_per_day` (the
/// smallest integer increment keeping the period at least a minute), starts
/// the budget at its cap and the refill clock at `now`. Fails exactly when
/// the parameters are unusable.
pub fn create_tenant(store: &mut Store, data: CreateTenantData, now: i64) -> (r: CreateTenantResponse)
    requires
        old(store).wf(),
        0 <= now <= MAX_TS,
        old(store).next_id < u64::MAX,
    ensures
        final(store).wf(),
        (r is Created) == (data.max_tokens >= 0 && data.tokens_per_day >= 1),
        r is InternalServerError ==> *final(store) == *old(store),
        r matches CreateTenantResponse::Created(t) ==> {
            &&& t.id == old(store).next_id
            &&& t.tokens == data.max_tokens
            &&& t.max_tokens == data.max_tokens
            &&& t.tok_per_day == data.tokens_per_day
            &&& final(store).tenants@.len() == old(store).tenants@.len() + 1
            &&& final(store).tenants@.subrange(0, old(store).tenants@.len() as int) == old(
                store,
            ).tenants@
            &&& ({
                let nt = final(store).tenants@.last();
                &&& nt.id == old(store).next_id
                &&& nt.tokens == data.max_tokens
                &&& nt.max_tokens == data.max_tokens
                &&& nt.next_increment == now
                &&& nt.period_secs >= 60
                &&& nt.increment >= 1
                &&& 1440 * nt.increment >= data.tokens_per_day
                &&& (nt.increment == 1 || 1440 * (nt.increment - 1) < data.tokens_per_day)
            })
            &&& final(store).scheduled == old(store).scheduled
        },
{
    if !(data.max_tokens >= 0 && data.tokens_per_day >= 1) {
        return CreateTenantResponse::InternalServerError;
    }
    let (increment, period_ms) = compute_increment_and_period(data.tokens_per_day);
    let period_secs = period_ms / 1000;
    let id = store.alloc_id();
    store.tenants.push(
        crate::store::Tenant {
            id,
            tokens: data.max_tokens,
            max_tokens: data.max_tokens,
            increment,
            period_secs,
            next_increment: now,
            max_timeout: TENANT_DEFAULT_MAX_TIMEOUT,
            default_retries: FALLBACK_RETRIES,
            max_max_response_bytes: TENANT_DEFAULT_MAX_RESPONSE,
            max_request_bytes: TENANT_DEFAULT_MAX_REQUEST,
            retain_for_days: TENANT_DEFAULT_RETAIN_DAYS,
            signing_key: None,
        },
    );
    CreateTenantResponse::Created(
        Tenant {
            id,
            tokens: data.max_tokens,
            max_tokens: data.max_tokens,
            tok_per_day: data.tokens_per_day,
            max_timeout: TENANT_DEFAULT_MAX_TIMEOUT,
            default_retries: FALLBACK_RETRIES,
            max_max_response_bytes: TENANT_DEFAULT_MAX_RESPONSE,
        },
    )
}

/// The tenant update is accepted: the tenant exists, the resulting cap is
/// non-negative, a given budget fits inside it, and a given rate is usable.
pub open spec fn update_tenant_ok(s: Store, id: u64, req: UpdateTenantRequest) -> bool {
    match tenant_lookup(s.tenants@, id) {
        Some(t0) => {
            let new_max = match req.max_tokens {
                Some(m) => m,
                None => t0.max_tokens,
            };
            &&& new_max >= 0
            &&& (req.tokens matches Some(x) ==> 0 <= x <= new_max)
            &&& (req.tokens_per_day matches Some(tpd) ==> tpd >= 1)
        },
        None => false,
    }
}

/// Updates a tenant in place: each given field replaces the stored one, a
/// new rate re-derives the refill pair, and the refill clock rebases to
/// `now`. Fails with not-found for an unknown tenant and with bad-request
/// for a budget outside `[0, max_tokens]` or an unusable rate, exactly.
pub fn update_tenant(store: &mut Store, id: u64, req: UpdateTenantRequest, now: i64) -> (r: Result<Tenant, ApiRejection>)
    requires
        old(store).wf(),
        0 <= now <= MAX_TS,
    ensures
        final(store).wf(),
        r is Ok == update_tenant_ok(*old(store), id, req),
        r is Err ==> *final(store) == *old(store),
        (r matches Err(e) && e is NotFound) ==> tenant_lookup(old(store).tenants@, id) is None,
        r is Ok ==> exists|k: int|
            #![trigger old(store).tenants@[k]]
            {
                &&& 0 <= k < old(store).tenants@.len()
                &&& old(store).tenants@[k].id == id
                &&& final(store).tenants@ == old(store).tenants@.update(
                    k,
                    final(store).tenants@[k],
                )
                &&& ({
                    let t0 = old(store).tenants@[k];
                    let t1 = final(store).tenants@[k];
                    &&& t1.id == id
                    &&& t1.next_increment == now
                    &&& t1.max_tokens == (match req.max_tokens {
                        Some(m) => m,
                        None => t0.max_tokens,
                    })
                    &&& t1.tokens == (match req.tokens {
                        Some(t) => t,
                        None => if t0.tokens <= t1.max_tokens {
                            t0.tokens
                        } else {
                            t1.max_tokens
                        },
                    })
                    &&& (req.tokens_per_day is None ==> t1.increment == t0.increment
                        && t1.period_secs == t0.period_secs)
                })
            },
        final(store).scheduled == old(store).scheduled,
        final(store).one_offs == old(store).one_offs,
        final(store).cron_jobs == old(store).cron_jobs,
        final(store).requests == old(store).requests,
        final(store).responses == old(store).responses,
        final(store).executions == old(store).executions,
        final(store).workflows == old(store).workflows,
        final(store).workflow_executions == old(store).workflow_executions,
        final(store).workflow_dependencies == old(store).workflow_dependencies,
        final(store).next_id == old(store).next_id,
{
    let ghost s0 = *old(store);
    let ti = match store.find_tenant(id) {
        Some(ti) => ti,
        None => {
            proof {
                assert(tenant_lookup(s0.tenants@, id) is None);
            }
            return Err(ApiRejection::NotFound);
        },
    };
    let mut t = store.tenants[ti];
    let ghost t0 = t;
    proof {
        lemma_tenant_lookup_unique(store.tenants@, ti as int);
    }
    assert(crate::store::tenant_ok(s0.tenants@[ti as int]));

    let new_max = match req.max_tokens {
        Some(m) => m,
        None => t.max_tokens,
    };
    if new_max < 0 {
        return Err(ApiRejection::BadRequest);
    }
    let new_tokens = match req.tokens {
        Some(x) => x,
        None => if t.tokens <= new_max {
            t.tokens
        } else {
            new_max
        },
    };
    if !(0 <= new_tokens && new_tokens <= new_max) {
        return Err(ApiRejection::BadRequest);
    }
    match req.tokens_per_day {
        Some(tpd) => {
            if tpd < 1 {
                return Err(ApiRejection::BadRequest);
            }
            let (increment, period_ms) = compute_increment_and_period(tpd);
            t.increment = increment;
            t.period_secs = period_ms / 1000;
        },
        None => {},
    }
    t.max_tokens = new_max;
    t.tokens = new_tokens;
    t.next_increment = now;
    store.tenants.set(ti, t);
    proof {
        assert(store.tenants@ =~= s0.tenants@.update(ti as int, store.tenants@[ti as int]));
        let f = |x: crate::store::Tenant| x.id;
        assert forall|m: int| 0 <= m < store.tenants@.len() implies #[trigger] f(store.tenants@[m])
            == f(s0.tenants@[m]) by {
            assert(f(s0.tenants@[m]) == s0.tenants@[m].id);
        }
        assert(crate::store::distinct_ids(store.tenants@, f));
        assert(crate::store::ids_below(store.tenants@, f, store.next_id));
        assert forall|m: int| 0 <= m < store.tenants@.len() implies crate::store::tenant_ok(
            #[trigger] store.tenants@[m],
        ) by {
            assert(crate::store::tenant_ok(s0.tenants@[m]));
        }
    }
    Ok(
        Tenant {
            id,
            tokens: new_tokens,
            max_tokens: new_max,
            tok_per_day: match req.tokens_per_day {
                Some(tpd) => tpd,
                None => 0,
            },
            max_timeout: t.max_timeout,
            default_retries: t.default_retries,
            max_max_response_bytes: t.max_max_response_bytes,
        },
    )
}

} // verus!
