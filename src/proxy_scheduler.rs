use vstd::prelude::*;

use crate::app_state::{project_ids, AppState};
use crate::database::{
    spec_add_app_version, spec_add_work_unit, spec_set_status, AppVersion, DataBase, WorkUnit,
    STATUS_ASSIGNED,
};
use crate::device_info::HostInfo;

verus! {

/// A workunit descriptor of a scheduler reply. The resource fields are zero
/// when the reply omits them.
pub struct SchedulerWorkUnit {
    /// The name of the task.
    pub name: String,
    pub app_name: String,
    /// Estimated computation, in floating-point operations.
    pub rsc_fpops_est: u64,
    /// Most floating-point operations permitted.
    pub rsc_fpops_bound: u64,
    /// Most memory permitted, in bytes.
    pub rsc_memory_bound: u64,
    /// Most disk permitted, in bytes.
    pub rsc_disk_bound: u64,
}

/// A result descriptor of a scheduler reply.
pub struct SchedulerResult {
    pub wu_name: String,
    pub name: String,
    pub platform: String,
    pub version_num: u64,
    pub plan_class: String,
}

/// An application descriptor of a scheduler reply.
pub struct SchedulerApp {
    pub name: String,
    pub user_friendly_name: String,
}

/// An application-version descriptor of a scheduler reply.
pub struct SchedulerAppVersion {
    pub app_name: String,
    pub version_num: u64,
    pub platform: String,
    pub plan_class: String,
}

/// The parts of an upstream scheduler reply that are recorded.
pub struct SchedulerReply {
    pub workunit: Vec<SchedulerWorkUnit>,
    pub result: Vec<SchedulerResult>,
    pub app: Vec<SchedulerApp>,
    pub app_version: Vec<SchedulerAppVersion>,
}

/// A result state that a device reports.
pub struct ResultQuery {
    pub name: String,
    pub state: u64,
}

/// The parts of a device's scheduler request that are read.
pub struct Query {
    pub result: Vec<ResultQuery>,
    pub host_info: HostInfo,
}

/// Why a scheduler request is refused before any upstream contact.
#[derive(PartialEq, Eq, Structural, Debug, Clone, Copy)]
pub enum ProxyError {
    ProjectNotFound,
    MissingUserAgent,
}

/// The answer relayed to the device.
pub struct RelayResponse {
    pub status: u16,
    pub body: Vec<u8>,
}

/// Position of the first result descriptor for workunit `name`, or -1.
pub open spec fn first_result(rs: Seq<SchedulerResult>, name: Seq<char>) -> int
    decreases rs.len(),
{
    if rs.len() == 0 {
        -1
    } else {
        let p = first_result(rs.drop_last(), name);
        if p >= 0 {
            p
        } else if rs.last().wu_name@ == name {
            rs.len() - 1
        } else {
            -1
        }
    }
}

/// Position of the first application descriptor named `name`, or -1.
pub open spec fn first_app(apps: Seq<SchedulerApp>, name: Seq<char>) -> int
    decreases apps.len(),
{
    if apps.len() == 0 {
        -1
    } else {
        let p = first_app(apps.drop_last(), name);
        if p >= 0 {
            p
        } else if apps.last().name@ == name {
            apps.len() - 1
        } else {
            -1
        }
    }
}

/// The record of a workunit and its result, as assigned to device `cpid`.
pub open spec fn merged_work_unit(
    wu: SchedulerWorkUnit,
    res: SchedulerResult,
    cpid: String,
    project: String,
    timestamp: u64,
) -> WorkUnit {
    WorkUnit {
        cpid: cpid,
        project: project,
        name: wu.name,
        status: STATUS_ASSIGNED,
        app_name: wu.app_name,
        rsc_fpops_est: wu.rsc_fpops_est,
        rsc_fpops_bound: wu.rsc_fpops_bound,
        rsc_memory_bound: wu.rsc_memory_bound,
        rsc_disk_bound: wu.rsc_disk_bound,
        platform: res.platform,
        version_num: res.version_num,
        plan_class: res.plan_class,
        result_name: res.name,
        timestamp: timestamp,
    }
}

/// The record of an application version and its application.
pub open spec fn merged_app_version(av: SchedulerAppVersion, app: SchedulerApp, project: String) -> AppVersion {
    AppVersion {
        project: project,
        app_name: app.name,
        user_friendly_name: app.user_friendly_name,
        version: av.version_num,
        platform: av.platform,
        plan_class: av.plan_class,
    }
}

/// One record per workunit that has a result descriptor, in workunit order,
/// each merged with the first such result.
pub open spec fn correlated_work_units(
    wus: Seq<SchedulerWorkUnit>,
    rs: Seq<SchedulerResult>,
    cpid: String,
    project: String,
    timestamp: u64,
) -> Seq<WorkUnit>
    decreases wus.len(),
{
    if wus.len() == 0 {
        Seq::empty()
    } else {
        let prev = correlated_work_units(wus.drop_last(), rs, cpid, project, timestamp);
        let k = first_result(rs, wus.last().name@);
        if k >= 0 {
            prev.push(merged_work_unit(wus.last(), rs[k], cpid, project, timestamp))
        } else {
            prev
        }
    }
}

/// One record per application version whose application is described, in
/// order, each merged with the first such application.
pub open spec fn correlated_app_versions(avs: Seq<SchedulerAppVersion>, apps: Seq<SchedulerApp>, project: String) -> Seq<AppVersion>
    decreases avs.len(),
{
    if avs.len() == 0 {
        Seq::empty()
    } else {
        let prev = correlated_app_versions(avs.drop_last(), apps, project);
        let k = first_app(apps, avs.last().app_name@);
        if k >= 0 {
            prev.push(merged_app_version(avs.last(), apps[k], project))
        } else {
            prev
        }
    }
}

/// The store after inserting each record once, in order.
pub open spec fn add_all_work_units(s: Seq<WorkUnit>, ws: Seq<WorkUnit>) -> Seq<WorkUnit>
    decreases ws.len(),
{
    if ws.len() == 0 {
        s
    } else {
        spec_add_work_unit(add_all_work_units(s, ws.drop_last()), ws.last())
    }
}

pub open spec fn add_all_app_versions(s: Seq<AppVersion>, avs: Seq<AppVersion>) -> Seq<AppVersion>
    decreases avs.len(),
{
    if avs.len() == 0 {
        s
    } else {
        spec_add_app_version(add_all_app_versions(s, avs.drop_last()), avs.last())
    }
}

/// The store after the status reports of a request, in order.
pub open spec fn apply_reports(s: Seq<WorkUnit>, project: Seq<char>, reports: Seq<ResultQuery>) -> Seq<WorkUnit>
    decreases reports.len(),
{
    if reports.len() == 0 {
        s
    } else {
        spec_set_status(apply_reports(s, project, reports.drop_last()), project, reports.last().name@, reports.last().state)
    }
}

pub open spec fn is_digit_byte(c: u8) -> bool {
    48u8 <= c <= 57u8
}

pub open spec fn is_hex_byte(c: u8) -> bool {
    is_digit_byte(c) || (97u8 <= c <= 102u8) || (65u8 <= c <= 70u8)
}

/// A byte that may stand between `&` and `;` of an entity reference.
pub open spec fn is_entity_byte(c: u8) -> bool {
    c == 35u8 || is_digit_byte(c) || (97u8 <= c <= 122u8) || (65u8 <= c <= 90u8)
}

/// One of the predefined entity names: `amp`, `lt`, `gt`, `quot`, `apos`.
pub open spec fn is_predefined_entity(s: Seq<u8>) -> bool {
    ||| s == seq![97u8, 109u8, 112u8]
    ||| s == seq![108u8, 116u8]
    ||| s == seq![103u8, 116u8]
    ||| s == seq![113u8, 117u8, 111u8, 116u8]
    ||| s == seq![97u8, 112u8, 111u8, 115u8]
}

/// A decimal character reference body: `#` and one or more digits.
pub open spec fn is_decimal_reference(s: Seq<u8>) -> bool {
    s.len() >= 2 && s[0] == 35u8 && forall|k: int| 1 <= k < s.len() ==> is_digit_byte(#[trigger] s[k])
}

/// A hexadecimal character reference body: `#x` and one or more hex digits.
pub open spec fn is_hex_reference(s: Seq<u8>) -> bool {
    s.len() >= 3 && s[0] == 35u8 && s[1] == 120u8 && forall|k: int| 2 <= k < s.len() ==> is_hex_byte(#[trigger] s[k])
}

/// What may stand between `&` and `;` of an entity reference.
pub open spec fn is_entity_body(s: Seq<u8>) -> bool {
    is_predefined_entity(s) || is_decimal_reference(s) || is_hex_reference(s)
}

/// The `&` at position `i` of `b` starts an entity reference.
pub open spec fn starts_entity(b: Seq<u8>, i: int) -> bool {
    exists|j: int| i < j < b.len() && b[j] == 59u8 && is_entity_body(#[trigger] b.subrange(i + 1, j))
}

/// A `&` that starts no entity reference.
pub open spec fn is_bare_ampersand(b: Seq<u8>, i: int) -> bool {
    b[i] == 38u8 && !starts_entity(b, i)
}

/// The bytes of the first `n` positions of `b`, each bare `&` written as
/// `&amp;`.
pub open spec fn escape_prefix(b: Seq<u8>, n: int) -> Seq<u8>
    decreases n,
{
    if n <= 0 {
        Seq::empty()
    } else if is_bare_ampersand(b, n - 1) {
        escape_prefix(b, n - 1) + seq![38u8, 97u8, 109u8, 112u8, 59u8]
    } else {
        escape_prefix(b, n - 1).push(b[n - 1])
    }
}

/// The bytes with every bare `&` written as `&amp;`; entity references are
/// kept as they are.
pub open spec fn escape_bare_ampersands(b: Seq<u8>) -> Seq<u8> {
    escape_prefix(b, b.len() as int)
}

proof fn lemma_entity_body_bytes(s: Seq<u8>)
    requires
        is_entity_body(s),
    ensures
        forall|k: int| 0 <= k < s.len() ==> is_entity_byte(#[trigger] s[k]),
{
    if is_predefined_entity(s) {
        assert forall|k: int| 0 <= k < s.len() implies is_entity_byte(#[trigger] s[k]) by {
            if s == seq![97u8, 109u8, 112u8] {
                assert(s[k] == seq![97u8, 109u8, 112u8][k]);
            } else if s == seq![108u8, 116u8] {
                assert(s[k] == seq![108u8, 116u8][k]);
            } else if s == seq![103u8, 116u8] {
                assert(s[k] == seq![103u8, 116u8][k]);
            } else if s == seq![113u8, 117u8, 111u8, 116u8] {
                assert(s[k] == seq![113u8, 117u8, 111u8, 116u8][k]);
            } else {
                assert(s[k] == seq![97u8, 112u8, 111u8, 115u8][k]);
            }
        }
    }
}

/// Whether an upstream answer with this status is decoded and recorded.
pub open spec fn is_success(status: u16) -> bool {
    status == 200
}

/// Checks a scheduler request before any upstream contact: the project must
/// be registered, then a `User-Agent` must be present. On success, the
/// position of the project in the registry.
pub fn route_request(app_state: &AppState, project_id: &String, has_user_agent: bool) -> (r: Result<usize, ProxyError>)
    ensures
        r == Err::<usize, ProxyError>(ProxyError::ProjectNotFound) <==> !project_ids(app_state.projects@).contains(project_id@),
        r == Err::<usize, ProxyError>(ProxyError::MissingUserAgent) <==> (project_ids(app_state.projects@).contains(project_id@) && !has_user_agent),
        r matches Ok(i) ==> i < app_state.projects@.len() && app_state.projects@[i as int].0@ == project_id@,
{
    match app_state.find_project(project_id) {
        None => Err(ProxyError::ProjectNotFound),
        Some(i) => {
            if has_user_agent {
                Ok(i)
            } else {
                Err(ProxyError::MissingUserAgent)
            }
        },
    }
}

/// Applies the result states that a device reports to the store.
pub fn apply_status_reports(db: &mut DataBase, project_id: &String, query: &Query)
    requires
        old(db).wf(),
    ensures
        final(db).wf(),
        final(db).work_units() == apply_reports(old(db).work_units(), project_id@, query.result@),
        final(db).app_versions() == old(db).app_versions(),
{
    let n = query.result.len();
    let mut i: usize = 0;
    while i < n
        invariant
            n == query.result@.len(),
            i <= n,
            db.wf(),
            db.work_units() == apply_reports(old(db).work_units(), project_id@, query.result@.subrange(0, i as int)),
            db.app_versions() == old(db).app_versions(),
        decreases n - i,
    {
        assert(query.result@.subrange(0, i + 1).drop_last() =~= query.result@.subrange(0, i as int));
        let report = &query.result[i];
        db.update_status(project_id, &report.name, report.state);
        i = i + 1;
    }
    assert(query.result@.subrange(0, n as int) =~= query.result@);
}

fn is_digit_exec(c: u8) -> (r: bool)
    ensures
        r == is_digit_byte(c),
{
    48u8 <= c && c <= 57u8
}

fn is_hex_exec(c: u8) -> (r: bool)
    ensures
        r == is_hex_byte(c),
{
    is_digit_exec(c) || (97u8 <= c && c <= 102u8) || (65u8 <= c && c <= 70u8)
}

/// Whether `b[lo..hi]` is the body of an entity reference.
fn entity_body_at(b: &Vec<u8>, lo: usize, hi: usize) -> (r: bool)
    requires
        lo <= hi <= b@.len(),
    ensures
        r == is_entity_body(b@.subrange(lo as int, hi as int)),
{
    let ghost s = b@.subrange(lo as int, hi as int);
    let len = hi - lo;
    if len == 3 && b[lo] == 97u8 && b[lo + 1] == 109u8 && b[lo + 2] == 112u8 {
        assert(s =~= seq![97u8, 109u8, 112u8]);
        return true;
    }
    if len == 2 && b[lo] == 108u8 && b[lo + 1] == 116u8 {
        assert(s =~= seq![108u8, 116u8]);
        return true;
    }
    if len == 2 && b[lo] == 103u8 && b[lo + 1] == 116u8 {
        assert(s =~= seq![103u8, 116u8]);
        return true;
    }
    if len == 4 && b[lo] == 113u8 && b[lo + 1] == 117u8 && b[lo + 2] == 111u8 && b[lo + 3] == 116u8 {
        assert(s =~= seq![113u8, 117u8, 111u8, 116u8]);
        return true;
    }
    if len == 4 && b[lo] == 97u8 && b[lo + 1] == 112u8 && b[lo + 2] == 111u8 && b[lo + 3] == 115u8 {
        assert(s =~= seq![97u8, 112u8, 111u8, 115u8]);
        return true;
    }
    proof {
        assert(s.len() == len);
        if s == seq![97u8, 109u8, 112u8] {
            assert(s[0] == 97u8 && s[1] == 109u8 && s[2] == 112u8);
            assert(b@[lo as int] == s[0] && b@[lo + 1] == s[1] && b@[lo + 2] == s[2]);
        }
        if s == seq![108u8, 116u8] {
            assert(s[0] == 108u8 && s[1] == 116u8);
            assert(b@[lo as int] == s[0] && b@[lo + 1] == s[1]);
        }
        if s == seq![103u8, 116u8] {
            assert(s[0] == 103u8 && s[1] == 116u8);
            assert(b@[lo as int] == s[0] && b@[lo + 1] == s[1]);
        }
        if s == seq![113u8, 117u8, 111u8, 116u8] {
            assert(s[0] == 113u8 && s[1] == 117u8 && s[2] == 111u8 && s[3] == 116u8);
            assert(b@[lo as int] == s[0] && b@[lo + 1] == s[1] && b@[lo + 2] == s[2] && b@[lo + 3] == s[3]);
        }
        if s == seq![97u8, 112u8, 111u8, 115u8] {
            assert(s[0] == 97u8 && s[1] == 112u8 && s[2] == 111u8 && s[3] == 115u8);
            assert(b@[lo as int] == s[0] && b@[lo + 1] == s[1] && b@[lo + 2] == s[2] && b@[lo + 3] == s[3]);
        }
        assert(!is_predefined_entity(s));
    }
    if len < 2 || b[lo] != 35u8 {
        assert(len >= 2 ==> s[0] == b@[lo as int]);
        return false;
    }
    assert(s[0] == b@[lo as int] && s[1] == b@[lo + 1]);
    let hex = b[lo + 1] == 120u8;
    let start: usize = if hex { 2 } else { 1 };
    if len <= start {
        return false;
    }
    let mut k: usize = start;
    while k < len
        invariant
            lo + len == hi,
            hi <= b@.len(),
            start <= k <= len,
            s == b@.subrange(lo as int, hi as int),
            s.len() == len,
            !is_predefined_entity(s),
            s[0] == 35u8,
            hex == (s[1] == 120u8),
            start == (if hex { 2usize } else { 1usize }),
            hex ==> forall|m: int| 2 <= m < k ==> is_hex_byte(#[trigger] s[m]),
            !hex ==> forall|m: int| 1 <= m < k ==> is_digit_byte(#[trigger] s[m]),
        decreases len - k,
    {
        let c = b[lo + k];
        assert(s[k as int] == c);
        if hex {
            if !is_hex_exec(c) {
                return false;
            }
        } else {
            if !is_digit_exec(c) {
                return false;
            }
        }
        k = k + 1;
    }
    true
}

/// Whether the `&` at position `i` starts an entity reference.
fn entity_at(b: &Vec<u8>, i: usize) -> (r: bool)
    requires
        i < b@.len(),
    ensures
        r == starts_entity(b@, i as int),
{
    let n = b.len();
    let mut j: usize = i + 1;
    let mut scanning = true;
    while scanning && j < n
        invariant
            n == b@.len(),
            i < j <= n,
            forall|k: int| i < k < j ==> is_entity_byte(#[trigger] b@[k]),
            !scanning ==> j < n && !is_entity_byte(b@[j as int]),
        decreases n - j + (if scanning { 1int } else { 0int }),
    {
        let c = b[j];
        if c == 35u8 || is_digit_exec(c) || (97u8 <= c && c <= 122u8) || (65u8 <= c && c <= 90u8) {
            j = j + 1;
        } else {
            scanning = false;
        }
    }
    let found = j < n && b[j] == 59u8 && entity_body_at(b, i + 1, j);
    proof {
        if found {
            assert(b@.subrange(i + 1, j as int) == b@.subrange(i + 1, j as int));
        } else if starts_entity(b@, i as int) {
            let w = choose|w: int| i < w < b@.len() && b@[w] == 59u8 && is_entity_body(#[trigger] b@.subrange(i + 1, w));
            let body = b@.subrange(i + 1, w);
            lemma_entity_body_bytes(body);
            if w < j {
                assert(is_entity_byte(b@[w]));
            } else if w > j {
                assert(body[j - i - 1] == b@[j as int]);
                assert(is_entity_byte(body[j - i - 1]));
            }
        }
    }
    found
}

/// Escapes every bare `&` of an upstream reply, which some schedulers leave
/// unescaped, so that the reply can be decoded; entity references are kept.
pub fn repair_ampersands(body: &Vec<u8>) -> (r: Vec<u8>)
    ensures
        r@ == escape_bare_ampersands(body@),
{
    let mut r: Vec<u8> = Vec::new();
    let n = body.len();
    let mut i: usize = 0;
    while i < n
        invariant
            n == body@.len(),
            i <= n,
            r@ == escape_prefix(body@, i as int),
        decreases n - i,
    {
        let b = body[i];
        if b == 38u8 && !entity_at(body, i) {
            let ghost before = r@;
            r.push(38u8);
            r.push(97u8);
            r.push(109u8);
            r.push(112u8);
            r.push(59u8);
            assert(r@ =~= before + seq![38u8, 97u8, 109u8, 112u8, 59u8]);
        } else {
            r.push(b);
        }
        i = i + 1;
    }
    r
}

/// The first result descriptor for workunit `name`.
fn find_result(rs: &Vec<SchedulerResult>, name: &String) -> (r: Option<usize>)
    ensures
        r matches Some(k) ==> k < rs@.len() && first_result(rs@, name@) == k,
        r is None <==> first_result(rs@, name@) < 0,
{
    let mut found: Option<usize> = None;
    let n = rs.len();
    let mut i: usize = 0;
    while i < n
        invariant
            n == rs@.len(),
            i <= n,
            found matches Some(k) ==> k < i && first_result(rs@.subrange(0, i as int), name@) == k,
            found is None <==> first_result(rs@.subrange(0, i as int), name@) < 0,
        decreases n - i,
    {
        assert(rs@.subrange(0, i + 1).drop_last() =~= rs@.subrange(0, i as int));
        if found.is_none() && rs[i].wu_name == *name {
            found = Some(i);
        }
        i = i + 1;
    }
    assert(rs@.subrange(0, n as int) =~= rs@);
    found
}

/// The first application descriptor named `name`.
fn find_app(apps: &Vec<SchedulerApp>, name: &String) -> (r: Option<usize>)
    ensures
        r matches Some(k) ==> k < apps@.len() && first_app(apps@, name@) == k,
        r is None <==> first_app(apps@, name@) < 0,
{
    let mut found: Option<usize> = None;
    let n = apps.len();
    let mut i: usize = 0;
    while i < n
        invariant
            n == apps@.len(),
            i <= n,
            found matches Some(k) ==> k < i && first_app(apps@.subrange(0, i as int), name@) == k,
            found is None <==> first_app(apps@.subrange(0, i as int), name@) < 0,
        decreases n - i,
    {
        assert(apps@.subrange(0, i + 1).drop_last() =~= apps@.subrange(0, i as int));
        if found.is_none() && apps[i].name == *name {
            found = Some(i);
        }
        i = i + 1;
    }
    assert(apps@.subrange(0, n as int) =~= apps@);
    found
}

/// The work-unit records of a reply: each workunit merged with its first
/// result descriptor, for device `cpid`, assigned at `timestamp`.
pub fn correlate_work_units(reply: &SchedulerReply, cpid: &String, project_id: &String, timestamp: u64) -> (r: Vec<WorkUnit>)
    ensures
        r@ == correlated_work_units(reply.workunit@, reply.result@, *cpid, *project_id, timestamp),
{
    let mut r: Vec<WorkUnit> = Vec::new();
    let n = reply.workunit.len();
    let mut i: usize = 0;
    while i < n
        invariant
            n == reply.workunit@.len(),
            i <= n,
            r@ == correlated_work_units(reply.workunit@.subrange(0, i as int), reply.result@, *cpid, *project_id, timestamp),
        decreases n - i,
    {
        assert(reply.workunit@.subrange(0, i + 1).drop_last() =~= reply.workunit@.subrange(0, i as int));
        let wu = &reply.workunit[i];
        match find_result(&reply.result, &wu.name) {
            Some(k) => {
                let res = &reply.result[k];
                r.push(WorkUnit {
                    cpid: cpid.clone(),
                    project: project_id.clone(),
                    name: wu.name.clone(),
                    status: STATUS_ASSIGNED,
                    app_name: wu.app_name.clone(),
                    rsc_fpops_est: wu.rsc_fpops_est,
                    rsc_fpops_bound: wu.rsc_fpops_bound,
                    rsc_memory_bound: wu.rsc_memory_bound,
                    rsc_disk_bound: wu.rsc_disk_bound,
                    platform: res.platform.clone(),
                    version_num: res.version_num,
                    plan_class: res.plan_class.clone(),
                    result_name: res.name.clone(),
                    timestamp: timestamp,
                });
            },
            None => {},
        }
        i = i + 1;
    }
    assert(reply.workunit@.subrange(0, n as int) =~= reply.workunit@);
    r
}

/// The application-version records of a reply: each version merged with its
/// first application descriptor.
pub fn correlate_app_versions(reply: &SchedulerReply, project_id: &String) -> (r: Vec<AppVersion>)
    ensures
        r@ == correlated_app_versions(reply.app_version@, reply.app@, *project_id),
{
    let mut r: Vec<AppVersion> = Vec::new();
    let n = reply.app_version.len();
    let mut i: usize = 0;
    while i < n
        invariant
            n == reply.app_version@.len(),
            i <= n,
            r@ == correlated_app_versions(reply.app_version@.subrange(0, i as int), reply.app@, *project_id),
        decreases n - i,
    {
        assert(reply.app_version@.subrange(0, i + 1).drop_last() =~= reply.app_version@.subrange(0, i as int));
        let av = &reply.app_version[i];
        match find_app(&reply.app, &av.app_name) {
            Some(k) => {
                let app = &reply.app[k];
                r.push(AppVersion {
                    project: project_id.clone(),
                    app_name: app.name.clone(),
                    user_friendly_name: app.user_friendly_name.clone(),
                    version: av.version_num,
                    platform: av.platform.clone(),
                    plan_class: av.plan_class.clone(),
                });
            },
            None => {},
        }
        i = i + 1;
    }
    assert(reply.app_version@.subrange(0, n as int) =~= reply.app_version@);
    r
}

/// Records what a successful upstream reply dispatched to device `cpid`:
/// the correlated work units, then the correlated application versions, each
/// inserted once.
pub fn record_reply(db: &mut DataBase, reply: &SchedulerReply, cpid: &String, project_id: &String, timestamp: u64)
    requires
        old(db).wf(),
    ensures
        final(db).wf(),
        final(db).work_units() == add_all_work_units(
            old(db).work_units(),
            correlated_work_units(reply.workunit@, reply.result@, *cpid, *project_id, timestamp),
        ),
        final(db).app_versions() == add_all_app_versions(
            old(db).app_versions(),
            correlated_app_versions(reply.app_version@, reply.app@, *project_id),
        ),
{
    let wus = correlate_work_units(reply, cpid, project_id, timestamp);
    let ghost ws = wus@;
    let mut wus = wus;
    let n = wus.len();
    let mut i: usize = 0;
    while i < n
        invariant
            n == ws.len(),
            i <= n,
            wus@ == ws.subrange(i as int, n as int),
            db.wf(),
            db.work_units() == add_all_work_units(old(db).work_units(), ws.subrange(0, i as int)),
            db.app_versions() == old(db).app_versions(),
        decreases n - i,
    {
        let w = wus.remove(0);
        assert(w == ws[i as int]);
        assert(wus@ =~= ws.subrange(i + 1, n as int));
        assert(ws.subrange(0, i + 1).drop_last() =~= ws.subrange(0, i as int));
        db.add_work_unit(w);
        i = i + 1;
    }
    assert(ws.subrange(0, n as int) =~= ws);
    let avs = correlate_app_versions(reply, project_id);
    let ghost vs = avs@;
    let mut avs = avs;
    let m = avs.len();
    let mut k: usize = 0;
    while k < m
        invariant
            m == vs.len(),
            k <= m,
            avs@ == vs.subrange(k as int, m as int),
            db.wf(),
            db.app_versions() == add_all_app_versions(old(db).app_versions(), vs.subrange(0, k as int)),
            db.work_units() == add_all_work_units(old(db).work_units(), ws),
        decreases m - k,
    {
        let a = avs.remove(0);
        assert(a == vs[k as int]);
        assert(avs@ =~= vs.subrange(k + 1, m as int));
        assert(vs.subrange(0, k + 1).drop_last() =~= vs.subrange(0, k as int));
        db.add_app_version(a);
        k = k + 1;
    }
    assert(vs.subrange(0, m as int) =~= vs);
}

/// Ends a scheduler exchange once the upstream has answered: a successful
/// answer that could be decoded (`reply`) is recorded for device `cpid`;
/// the device gets the upstream status and body unchanged in every case.
pub fn finish_exchange(
    db: &mut DataBase,
    project_id: &String,
    cpid: &String,
    now: u64,
    upstream_status: u16,
    upstream_body: Vec<u8>,
    reply: Option<SchedulerReply>,
) -> (r: RelayResponse)
    requires
        old(db).wf(),
    ensures
        r.status == upstream_status,
        r.body@ == upstream_body@,
        final(db).wf(),
        (is_success(upstream_status) && reply is Some) ==> {
            let rep = reply->Some_0;
            &&& final(db).work_units() == add_all_work_units(
                old(db).work_units(),
                correlated_work_units(rep.workunit@, rep.result@, *cpid, *project_id, now),
            )
            &&& final(db).app_versions() == add_all_app_versions(
                old(db).app_versions(),
                correlated_app_versions(rep.app_version@, rep.app@, *project_id),
            )
        },
        !(is_success(upstream_status) && reply is Some) ==> *final(db) == *old(db),
{
    if upstream_status == 200 {
        match &reply {
            Some(rep) => record_reply(db, rep, cpid, project_id, now),
            None => {},
        }
    }
    RelayResponse { status: upstream_status, body: upstream_body }
}

} // verus!
