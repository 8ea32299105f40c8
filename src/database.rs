use vstd::prelude::*;

verus! {

/// Status code of a work unit that was handed to a device.
pub const STATUS_ASSIGNED: u64 = 1;

/// Status code of a work unit that was cancelled.
pub const STATUS_CANCELLED: u64 = 6;

/// A version of an application of one project.
pub struct AppVersion {
    pub project: String,
    pub app_name: String,
    pub user_friendly_name: String,
    pub version: u64,
    pub platform: String,
    pub plan_class: String,
}

/// One unit of work dispatched to a device. The resource fields are in
/// floating-point operations and bytes.
pub struct WorkUnit {
    pub cpid: String,
    pub project: String,
    pub name: String,
    pub status: u64,
    pub app_name: String,
    pub rsc_fpops_est: u64,
    pub rsc_fpops_bound: u64,
    pub rsc_memory_bound: u64,
    pub rsc_disk_bound: u64,
    pub platform: String,
    pub version_num: u64,
    pub plan_class: String,
    pub result_name: String,
    pub timestamp: u64,
}

/// Outcome of a status update.
#[derive(PartialEq, Eq, Structural, Debug, Clone, Copy)]
pub enum StatusUpdate {
    Updated,
    NoSuchRecord,
}

/// The identity of a work unit: its project and its result name.
pub open spec fn wu_key_eq(a: WorkUnit, b: WorkUnit) -> bool {
    a.project@ == b.project@ && a.result_name@ == b.result_name@
}

pub open spec fn wu_has_key(w: WorkUnit, project: Seq<char>, result_name: Seq<char>) -> bool {
    w.project@ == project && w.result_name@ == result_name
}

/// The identity of an application version.
pub open spec fn av_key_eq(a: AppVersion, b: AppVersion) -> bool {
    a.project@ == b.project@ && a.app_name@ == b.app_name@ && a.version == b.version
        && a.platform@ == b.platform@ && a.plan_class@ == b.plan_class@
}

pub open spec fn wu_keys_unique(s: Seq<WorkUnit>) -> bool {
    forall|i: int, j: int| 0 <= i < s.len() && 0 <= j < s.len() && i != j ==> !wu_key_eq(#[trigger] s[i], #[trigger] s[j])
}

pub open spec fn av_keys_unique(s: Seq<AppVersion>) -> bool {
    forall|i: int, j: int| 0 <= i < s.len() && 0 <= j < s.len() && i != j ==> !av_key_eq(#[trigger] s[i], #[trigger] s[j])
}

/// The store after an insert-once of `w`: unchanged when a record with the
/// same key is present, else `w` is appended.
pub open spec fn spec_add_work_unit(s: Seq<WorkUnit>, w: WorkUnit) -> Seq<WorkUnit> {
    if exists|i: int| 0 <= i < s.len() && wu_key_eq(#[trigger] s[i], w) {
        s
    } else {
        s.push(w)
    }
}

pub open spec fn spec_add_app_version(s: Seq<AppVersion>, a: AppVersion) -> Seq<AppVersion> {
    if exists|i: int| 0 <= i < s.len() && av_key_eq(#[trigger] s[i], a) {
        s
    } else {
        s.push(a)
    }
}

/// `w` with its status replaced.
pub open spec fn with_status(w: WorkUnit, status: u64) -> WorkUnit {
    WorkUnit { status: status, ..w }
}

/// The store after setting the status of every record with the key.
pub open spec fn spec_set_status(s: Seq<WorkUnit>, project: Seq<char>, result_name: Seq<char>, status: u64) -> Seq<WorkUnit> {
    s.map_values(|w: WorkUnit| if wu_has_key(w, project, result_name) { with_status(w, status) } else { w })
}

pub open spec fn is_sent_since(w: WorkUnit, cpid: Seq<char>, t: u64) -> bool {
    w.cpid@ == cpid && w.timestamp > t
}

/// The records of device `cpid` dispatched strictly after `t`, in store order.
pub open spec fn sent_since(s: Seq<WorkUnit>, cpid: Seq<char>, t: u64) -> Seq<WorkUnit>
    decreases s.len(),
{
    if s.len() == 0 {
        Seq::empty()
    } else {
        let prev = sent_since(s.drop_last(), cpid, t);
        if is_sent_since(s.last(), cpid, t) {
            prev.push(s.last())
        } else {
            prev
        }
    }
}

/// Inserting a second record under a key that is already stored changes
/// nothing: the first record's fields are kept.
pub proof fn lemma_insert_once(s: Seq<WorkUnit>, w1: WorkUnit, w2: WorkUnit)
    requires
        wu_key_eq(w1, w2),
    ensures
        spec_add_work_unit(spec_add_work_unit(s, w1), w2) == spec_add_work_unit(s, w1),
{
    let s1 = spec_add_work_unit(s, w1);
    if exists|i: int| 0 <= i < s.len() && wu_key_eq(#[trigger] s[i], w1) {
        let i = choose|i: int| 0 <= i < s.len() && wu_key_eq(#[trigger] s[i], w1);
        assert(wu_key_eq(s1[i], w2));
    } else {
        assert(wu_key_eq(s1[s.len() as int], w2));
    }
}

/// Every record listed for `cpid` since `t` is a stored record of that
/// device with a timestamp after `t`.
pub proof fn lemma_sent_since_sound(s: Seq<WorkUnit>, cpid: Seq<char>, t: u64)
    ensures
        forall|j: int| 0 <= j < sent_since(s, cpid, t).len() ==> {
            &&& is_sent_since(#[trigger] sent_since(s, cpid, t)[j], cpid, t)
            &&& s.contains(sent_since(s, cpid, t)[j])
        },
    decreases s.len(),
{
    if s.len() > 0 {
        lemma_sent_since_sound(s.drop_last(), cpid, t);
        let r = sent_since(s, cpid, t);
        let p = sent_since(s.drop_last(), cpid, t);
        assert forall|j: int| 0 <= j < r.len() implies is_sent_since(#[trigger] r[j], cpid, t) && s.contains(r[j]) by {
            if j < p.len() {
                let k = choose|k: int| 0 <= k < s.drop_last().len() && s.drop_last()[k] == p[j];
                assert(s[k] == r[j]);
            } else {
                assert(s[s.len() - 1] == r[j]);
            }
        }
    }
}

/// Every stored record of `cpid` with a timestamp after `t` is listed.
pub proof fn lemma_sent_since_complete(s: Seq<WorkUnit>, cpid: Seq<char>, t: u64)
    ensures
        forall|i: int| 0 <= i < s.len() && is_sent_since(#[trigger] s[i], cpid, t) ==> sent_since(s, cpid, t).contains(s[i]),
    decreases s.len(),
{
    if s.len() > 0 {
        lemma_sent_since_complete(s.drop_last(), cpid, t);
        let r = sent_since(s, cpid, t);
        let p = sent_since(s.drop_last(), cpid, t);
        assert forall|i: int| 0 <= i < s.len() && is_sent_since(#[trigger] s[i], cpid, t) implies r.contains(s[i]) by {
            if i < s.len() - 1 {
                assert(s.drop_last()[i] == s[i]);
                let k = choose|k: int| 0 <= k < p.len() && p[k] == s[i];
                assert(r[k] == s[i]);
            } else {
                assert(r[r.len() - 1] == s[i]);
            }
        }
    }
}

/// A listing never holds a record of another device, nor one dispatched at
/// or before the cutoff.
pub proof fn lemma_list_since_filters(s: Seq<WorkUnit>, cpid: Seq<char>, t: u64)
    ensures
        forall|j: int| 0 <= j < sent_since(s, cpid, t).len() ==> {
            &&& (#[trigger] sent_since(s, cpid, t)[j]).cpid@ == cpid
            &&& sent_since(s, cpid, t)[j].timestamp > t
        },
{
    lemma_sent_since_sound(s, cpid, t);
}

/// After a status update, a listing that covers the updated record shows the
/// new status and never the former one.
pub proof fn lemma_status_then_list(
    s: Seq<WorkUnit>,
    project: Seq<char>,
    result_name: Seq<char>,
    status: u64,
    cpid: Seq<char>,
    t: u64,
)
    ensures
        forall|j: int| 0 <= j < sent_since(spec_set_status(s, project, result_name, status), cpid, t).len()
            && wu_has_key(#[trigger] sent_since(spec_set_status(s, project, result_name, status), cpid, t)[j], project, result_name)
            ==> sent_since(spec_set_status(s, project, result_name, status), cpid, t)[j].status == status,
        forall|i: int| 0 <= i < s.len() && wu_has_key(#[trigger] s[i], project, result_name) && is_sent_since(s[i], cpid, t)
            ==> sent_since(spec_set_status(s, project, result_name, status), cpid, t).contains(with_status(s[i], status)),
{
    let s2 = spec_set_status(s, project, result_name, status);
    let r = sent_since(s2, cpid, t);
    lemma_sent_since_sound(s2, cpid, t);
    lemma_sent_since_complete(s2, cpid, t);
    assert forall|j: int| 0 <= j < r.len() && wu_has_key(#[trigger] r[j], project, result_name) implies r[j].status == status by {
        let k = choose|k: int| 0 <= k < s2.len() && s2[k] == r[j];
    }
    assert forall|i: int| 0 <= i < s.len() && wu_has_key(#[trigger] s[i], project, result_name) && is_sent_since(s[i], cpid, t)
        implies r.contains(with_status(s[i], status)) by {
        assert(s2[i] == with_status(s[i], status));
        assert(is_sent_since(s2[i], cpid, t));
    }
}

impl WorkUnit {
    /// A field-by-field copy.
    pub fn duplicate(&self) -> (r: WorkUnit)
        ensures
            r == *self,
    {
        WorkUnit {
            cpid: self.cpid.clone(),
            project: self.project.clone(),
            name: self.name.clone(),
            status: self.status,
            app_name: self.app_name.clone(),
            rsc_fpops_est: self.rsc_fpops_est,
            rsc_fpops_bound: self.rsc_fpops_bound,
            rsc_memory_bound: self.rsc_memory_bound,
            rsc_disk_bound: self.rsc_disk_bound,
            platform: self.platform.clone(),
            version_num: self.version_num,
            plan_class: self.plan_class.clone(),
            result_name: self.result_name.clone(),
            timestamp: self.timestamp,
        }
    }
}

/// The work-unit store: work units keyed by project and result name, and
/// application versions keyed by all of their fields but the friendly name.
pub struct DataBase {
    work_units: Vec<WorkUnit>,
    app_versions: Vec<AppVersion>,
}

impl DataBase {
    pub closed spec fn work_units(&self) -> Seq<WorkUnit> {
        self.work_units@
    }

    pub closed spec fn app_versions(&self) -> Seq<AppVersion> {
        self.app_versions@
    }

    /// At most one record per key.
    pub open spec fn wf(&self) -> bool {
        wu_keys_unique(self.work_units()) && av_keys_unique(self.app_versions())
    }

    /// An empty store.
    pub fn new() -> (r: DataBase)
        ensures
            r.wf(),
            r.work_units() == Seq::<WorkUnit>::empty(),
            r.app_versions() == Seq::<AppVersion>::empty(),
    {
        DataBase { work_units: Vec::new(), app_versions: Vec::new() }
    }

    /// Inserts the application version unless one with its key is stored;
    /// returns whether it was inserted.
    pub fn add_app_version(&mut self, app_version: AppVersion) -> (inserted: bool)
        requires
            old(self).wf(),
        ensures
            final(self).wf(),
            final(self).app_versions() == spec_add_app_version(old(self).app_versions(), app_version),
            final(self).work_units() == old(self).work_units(),
            inserted == !(exists|i: int| 0 <= i < old(self).app_versions().len() && av_key_eq(#[trigger] old(self).app_versions()[i], app_version)),
    {
        let n = self.app_versions.len();
        let mut i: usize = 0;
        while i < n
            invariant
                n == self.app_versions@.len(),
                i <= n,
                self.app_versions@ == old(self).app_versions@,
                self.work_units@ == old(self).work_units@,
                old(self).wf(),
                forall|j: int| 0 <= j < i ==> !av_key_eq(#[trigger] self.app_versions@[j], app_version),
            decreases n - i,
        {
            let a = &self.app_versions[i];
            if a.project == app_version.project && a.app_name == app_version.app_name
                && a.version == app_version.version && a.platform == app_version.platform
                && a.plan_class == app_version.plan_class {
                return false;
            }
            i = i + 1;
        }
        self.app_versions.push(app_version);
        true
    }

    /// Inserts the work unit unless one with its key is stored; returns
    /// whether it was inserted.
    pub fn add_work_unit(&mut self, workunit: WorkUnit) -> (inserted: bool)
        requires
            old(self).wf(),
        ensures
            final(self).wf(),
            final(self).work_units() == spec_add_work_unit(old(self).work_units(), workunit),
            final(self).app_versions() == old(self).app_versions(),
            inserted == !(exists|i: int| 0 <= i < old(self).work_units().len() && wu_key_eq(#[trigger] old(self).work_units()[i], workunit)),
    {
        let n = self.work_units.len();
        let mut i: usize = 0;
        while i < n
            invariant
                n == self.work_units@.len(),
                i <= n,
                self.app_versions@ == old(self).app_versions@,
                self.work_units@ == old(self).work_units@,
                old(self).wf(),
                forall|j: int| 0 <= j < i ==> !wu_key_eq(#[trigger] self.work_units@[j], workunit),
            decreases n - i,
        {
            let w = &self.work_units[i];
            if w.project == workunit.project && w.result_name == workunit.result_name {
                return false;
            }
            i = i + 1;
        }
        self.work_units.push(workunit);
        true
    }

    /// Sets the status of the record with key `(project, name)`, if any.
    pub fn update_status(&mut self, project: &String, name: &String, status: u64) -> (r: StatusUpdate)
        requires
            old(self).wf(),
        ensures
            final(self).wf(),
            final(self).work_units() == spec_set_status(old(self).work_units(), project@, name@, status),
            final(self).app_versions() == old(self).app_versions(),
            r == (if exists|i: int| 0 <= i < old(self).work_units().len() && wu_has_key(#[trigger] old(self).work_units()[i], project@, name@) {
                StatusUpdate::Updated
            } else {
                StatusUpdate::NoSuchRecord
            }),
    {
        let ghost s0 = self.work_units@;
        let n = self.work_units.len();
        let mut i: usize = 0;
        while i < n
            invariant
                n == self.work_units@.len(),
                i <= n,
                self.work_units@ == s0,
                s0 == old(self).work_units@,
                self.app_versions@ == old(self).app_versions@,
                wu_keys_unique(s0),
                av_keys_unique(self.app_versions@),
                forall|j: int| 0 <= j < i ==> !wu_has_key(#[trigger] s0[j], project@, name@),
            decreases n - i,
        {
            if self.work_units[i].project == *project && self.work_units[i].result_name == *name {
                assert(wu_has_key(s0[i as int], project@, name@));
                let mut w = self.work_units.remove(i);
                w.status = status;
                self.work_units.insert(i, w);
                proof {
                    let f = |w: WorkUnit| if wu_has_key(w, project@, name@) { with_status(w, status) } else { w };
                    assert forall|j: int| 0 <= j < n implies #[trigger] self.work_units@[j] == f(s0[j]) by {
                        if j != i {
                            assert(!wu_has_key(s0[j], project@, name@)) by {
                                if j > i {
                                    assert(!wu_key_eq(s0[j], s0[i as int]));
                                }
                            }
                        }
                    }
                    assert(self.work_units@ =~= spec_set_status(s0, project@, name@, status));
                    assert forall|a: int, b: int| 0 <= a < n && 0 <= b < n && a != b implies !wu_key_eq(#[trigger] self.work_units@[a], #[trigger] self.work_units@[b]) by {
                        assert(!wu_key_eq(s0[a], s0[b]));
                    }
                }
                return StatusUpdate::Updated;
            }
            i = i + 1;
        }
        assert(self.work_units@ =~= spec_set_status(s0, project@, name@, status));
        StatusUpdate::NoSuchRecord
    }

    /// The records of device `cpid` dispatched strictly after `timestamp`.
    pub fn list_workunit_sent_since(&self, cpid: &String, timestamp: u64) -> (r: Vec<WorkUnit>)
        ensures
            r@ == sent_since(self.work_units(), cpid@, timestamp),
    {
        let mut r: Vec<WorkUnit> = Vec::new();
        let n = self.work_units.len();
        let mut i: usize = 0;
        while i < n
            invariant
                n == self.work_units@.len(),
                i <= n,
                r@ == sent_since(self.work_units@.subrange(0, i as int), cpid@, timestamp),
            decreases n - i,
        {
            let w = &self.work_units[i];
            assert(self.work_units@.subrange(0, i + 1).drop_last() =~= self.work_units@.subrange(0, i as int));
            if w.cpid == *cpid && w.timestamp > timestamp {
                r.push(w.duplicate());
            }
            i = i + 1;
        }
        assert(self.work_units@.subrange(0, n as int) =~= self.work_units@);
        r
    }
}

} // verus!
