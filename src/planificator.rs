use vstd::prelude::*;

use vstd::arithmetic::div_mod::lemma_div_is_ordered_by_denominator;

use crate::app_state::{project_ids, AppState};
use crate::database::{sent_since, WorkUnit, STATUS_CANCELLED};
use crate::device_info::DeviceInfo;

verus! {

/// Priority every project starts from.
pub const BASE_PRIORITY: u16 = 100;

/// Boost of a project that never sent work to the device.
pub const NEW_PROJECT_BOOST: u16 = 1000;

/// The lower-case form of a string, as `str::to_lowercase` computes it.
pub uninterp spec fn lower_of(s: Seq<char>) -> Seq<char>;

/// Relies on `str::to_lowercase`: its result depends on the characters alone.
#[verifier::external_body]
fn lowercase(s: &str) -> (r: String)
    ensures
        r@ == lower_of(s@),
{
    s.to_lowercase()
}

/// `needle` occurs in `hay` at some position.
pub open spec fn seq_contains(hay: Seq<char>, needle: Seq<char>) -> bool {
    exists|i: int| 0 <= i && i + needle.len() <= hay.len() && #[trigger] hay.subrange(i, i + needle.len()) == needle
}

/// Whether two strings hold the same characters.
pub fn str_eq(a: &str, b: &str) -> (r: bool)
    ensures
        r == (a@ == b@),
{
    let n = a.unicode_len();
    if n != b.unicode_len() {
        return false;
    }
    let mut i: usize = 0;
    while i < n
        invariant
            n == a@.len(),
            n == b@.len(),
            i <= n,
            forall|j: int| 0 <= j < i ==> a@[j] == b@[j],
        decreases n - i,
    {
        if a.get_char(i) != b.get_char(i) {
            return false;
        }
        i = i + 1;
    }
    assert(a@ =~= b@);
    true
}

/// Whether `needle` occurs in `hay`.
pub fn contains_str(hay: &str, needle: &str) -> (r: bool)
    ensures
        r == seq_contains(hay@, needle@),
{
    let n = hay.unicode_len();
    let m = needle.unicode_len();
    if m > n {
        return false;
    }
    let mut i: usize = 0;
    while i <= n - m
        invariant
            n == hay@.len(),
            m == needle@.len(),
            m <= n,
            i <= n - m + 1,
            forall|k: int| 0 <= k < i ==> #[trigger] hay@.subrange(k, k + m) != needle@,
        decreases n - m + 1 - i,
    {
        let mut j: usize = 0;
        let mut same = true;
        while j < m
            invariant
                n == hay@.len(),
                m == needle@.len(),
                i + m <= n,
                j <= m,
                same == (forall|k: int| 0 <= k < j ==> hay@[i + k] == needle@[k]),
            decreases m - j,
        {
            if hay.get_char(i + j) != needle.get_char(j) {
                same = false;
            }
            j = j + 1;
        }
        if same {
            assert(hay@.subrange(i as int, i + m) =~= needle@);
            return true;
        }
        proof {
            if hay@.subrange(i as int, i + m) == needle@ {
                assert forall|k: int| 0 <= k < m implies hay@[i + k] == needle@[k] by {
                    assert(hay@.subrange(i as int, i + m)[k] == hay@[i + k]);
                }
            }
        }
        i = i + 1;
    }
    proof {
        assert forall|k: int| 0 <= k && k + m <= n implies #[trigger] hay@.subrange(k, k + m) != needle@ by {
            assert(k < i);
        }
    }
    false
}

/// A device whose lower-cased OS name is `lowered` is kept from the project
/// that does not serve that OS.
pub open spec fn os_excluded(lowered: Seq<char>) -> bool {
    seq_contains(lowered, "nixos"@)
}

/// The project left out for such a device.
pub open spec fn excluded_project() -> Seq<char> {
    "loda"@
}

/// The project whose load is halved before use.
pub open spec fn discounted_project() -> Seq<char> {
    "worldcommunitygrid"@
}

/// Whether the lower-cased OS name `lowered` triggers the exclusion.
pub fn is_excluded_os(lowered: &str) -> (r: bool)
    ensures
        r == os_excluded(lowered@),
{
    contains_str(lowered, "nixos")
}

/// A work unit that counts toward the load of project `id`.
pub open spec fn counts_for(w: WorkUnit, id: Seq<char>) -> bool {
    w.project@ == id && w.status != STATUS_CANCELLED
}

/// Sum of the estimated computation of the non-cancelled work units of `id`;
/// `None` when there is none.
pub open spec fn aggregate(s: Seq<WorkUnit>, id: Seq<char>) -> Option<int>
    decreases s.len(),
{
    if s.len() == 0 {
        None
    } else {
        let prev = aggregate(s.drop_last(), id);
        if counts_for(s.last(), id) {
            Some(
                match prev {
                    Some(v) => v,
                    None => 0,
                } + s.last().rsc_fpops_est,
            )
        } else {
            prev
        }
    }
}

/// The boost for a load of `total` operations:
/// `floor(1000 * 10^16 / max(total, 10^16))`, with the load halved for the
/// discounted project.
pub open spec fn priority_boost(total: int, discounted: bool) -> int {
    if discounted {
        20_000_000_000_000_000_000int / (if total > 20_000_000_000_000_000int { total } else { 20_000_000_000_000_000int })
    } else {
        10_000_000_000_000_000_000int / (if total > 10_000_000_000_000_000int { total } else { 10_000_000_000_000_000int })
    }
}

/// The priority of project `id` for a device whose history is `s`.
pub open spec fn project_priority(s: Seq<WorkUnit>, id: Seq<char>) -> int {
    match aggregate(s, id) {
        Some(v) => BASE_PRIORITY + priority_boost(v, id == discounted_project()),
        None => BASE_PRIORITY + NEW_PROJECT_BOOST,
    }
}

/// The planned priorities: the registry's identifiers in order, less the
/// excluded project when `excluded`, each with its priority.
pub open spec fn planned(ids: Seq<Seq<char>>, excluded: bool, s: Seq<WorkUnit>) -> Seq<(Seq<char>, int)>
    decreases ids.len(),
{
    if ids.len() == 0 {
        Seq::empty()
    } else {
        let prev = planned(ids.drop_last(), excluded, s);
        if excluded && ids.last() == excluded_project() {
            prev
        } else {
            prev.push((ids.last(), project_priority(s, ids.last())))
        }
    }
}

/// The planned weight of one project.
pub struct PlanificatorProject {
    pub priority: u16,
}

/// Weights per project identifier.
pub struct PlanificatorResult {
    /// (identifier, weight) pairs in registry order; a list rather than a
    /// hash map, since Verus specifies no map operations over `String` keys.
    pub projects: Vec<(String, PlanificatorProject)>,
}

/// The last weight listed for `id`.
pub open spec fn lookup(entries: Seq<(Seq<char>, int)>, id: Seq<char>) -> Option<int>
    decreases entries.len(),
{
    if entries.len() == 0 {
        None
    } else if entries.last().0 == id {
        Some(entries.last().1)
    } else {
        lookup(entries.drop_last(), id)
    }
}

/// Identifiers and weights of a list of planned projects.
pub open spec fn entries_of(s: Seq<(String, PlanificatorProject)>) -> Seq<(Seq<char>, int)> {
    s.map_values(|e: (String, PlanificatorProject)| (e.0@, e.1.priority as int))
}

impl PlanificatorResult {
    /// The identifiers and weights, in order.
    pub open spec fn entries(&self) -> Seq<(Seq<char>, int)> {
        entries_of(self.projects@)
    }

    /// Every registered project with the same weight.
    pub fn new_from_app_state(app_state: &AppState, default_priority: u16) -> (r: Self)
        ensures
            r.entries() == project_ids(app_state.projects@).map_values(|id: Seq<char>| (id, default_priority as int)),
    {
        let mut projects: Vec<(String, PlanificatorProject)> = Vec::new();
        let n = app_state.projects.len();
        let mut i: usize = 0;
        while i < n
            invariant
                n == app_state.projects@.len(),
                i <= n,
                projects@.len() == i,
                forall|j: int| 0 <= j < i ==> (#[trigger] projects@[j]).0@ == app_state.projects@[j].0@ && projects@[j].1.priority == default_priority,
            decreases n - i,
        {
            projects.push((app_state.projects[i].0.clone(), PlanificatorProject { priority: default_priority }));
            i = i + 1;
        }
        let r = PlanificatorResult { projects };
        assert(r.entries() =~= project_ids(app_state.projects@).map_values(|id: Seq<char>| (id, default_priority as int)));
        r
    }

    /// The weight of `id`, if it is listed.
    pub fn priority_of(&self, id: &String) -> (r: Option<u16>)
        ensures
            r matches Some(p) ==> lookup(self.entries(), id@) == Some(p as int),
            r is None <==> lookup(self.entries(), id@) is None,
    {
        let mut r: Option<u16> = None;
        let n = self.projects.len();
        let mut i: usize = 0;
        while i < n
            invariant
                n == self.projects@.len(),
                i <= n,
                r matches Some(p) ==> lookup(self.entries().subrange(0, i as int), id@) == Some(p as int),
                r is None <==> lookup(self.entries().subrange(0, i as int), id@) is None,
            decreases n - i,
        {
            assert(self.entries().subrange(0, i + 1).drop_last() =~= self.entries().subrange(0, i as int));
            if self.projects[i].0 == *id {
                r = Some(self.projects[i].1.priority);
            }
            i = i + 1;
        }
        assert(self.entries().subrange(0, n as int) =~= self.entries());
        r
    }
}

proof fn lemma_aggregate_bound(s: Seq<WorkUnit>, id: Seq<char>)
    ensures
        aggregate(s, id) matches Some(v) ==> 0 <= v <= s.len() * 0xFFFF_FFFF_FFFF_FFFFint,
    decreases s.len(),
{
    if s.len() > 0 {
        lemma_aggregate_bound(s.drop_last(), id);
    }
}

/// Cancelled work units do not count: a project whose history holds only
/// cancelled ones gets the new-project priority.
pub proof fn lemma_cancelled_not_counted(s: Seq<WorkUnit>, id: Seq<char>)
    requires
        forall|i: int| 0 <= i < s.len() ==> (#[trigger] s[i]).status == STATUS_CANCELLED,
    ensures
        aggregate(s, id) is None,
        project_priority(s, id) == BASE_PRIORITY + NEW_PROJECT_BOOST,
    decreases s.len(),
{
    if s.len() > 0 {
        assert(s.last() == s[s.len() - 1]);
        lemma_cancelled_not_counted(s.drop_last(), id);
    }
}

/// A device with no history and no exclusion gets every registered project,
/// in order, at the base priority plus the new-project boost.
pub proof fn lemma_fresh_device(ids: Seq<Seq<char>>, s: Seq<WorkUnit>)
    requires
        s.len() == 0,
    ensures
        planned(ids, false, s) == ids.map_values(|id: Seq<char>| (id, (BASE_PRIORITY + NEW_PROJECT_BOOST) as int)),
    decreases ids.len(),
{
    if ids.len() > 0 {
        lemma_fresh_device(ids.drop_last(), s);
        assert(aggregate(s, ids.last()) is None);
        assert(planned(ids, false, s) =~= ids.map_values(|id: Seq<char>| (id, (BASE_PRIORITY + NEW_PROJECT_BOOST) as int)));
    }
}

/// With the exclusion in force the excluded project never appears, whatever
/// the history.
pub proof fn lemma_excluded_absent(ids: Seq<Seq<char>>, s: Seq<WorkUnit>)
    ensures
        forall|j: int| 0 <= j < planned(ids, true, s).len() ==> (#[trigger] planned(ids, true, s)[j]).0 != excluded_project(),
    decreases ids.len(),
{
    if ids.len() > 0 {
        lemma_excluded_absent(ids.drop_last(), s);
        let p = planned(ids.drop_last(), true, s);
        let r = planned(ids, true, s);
        assert forall|j: int| 0 <= j < r.len() implies (#[trigger] r[j]).0 != excluded_project() by {
            if j < p.len() {
                assert(r[j] == p[j]);
            }
        }
    }
}

/// A load at or under 10^16 operations (10,000 TFLOP) gives the full boost.
pub proof fn lemma_boost_full_under_threshold(total: int)
    requires
        0 <= total <= 10_000_000_000_000_000int,
    ensures
        priority_boost(total, false) == NEW_PROJECT_BOOST,
{
}

/// The load of project `id` in the history `wus`.
pub fn aggregate_of(wus: &Vec<WorkUnit>, id: &String) -> (r: Option<u128>)
    ensures
        r matches Some(v) ==> aggregate(wus@, id@) == Some(v as int),
        r is None <==> aggregate(wus@, id@) is None,
{
    let mut r: Option<u128> = None;
    let n = wus.len();
    let mut i: usize = 0;
    while i < n
        invariant
            n == wus@.len(),
            i <= n,
            r matches Some(v) ==> aggregate(wus@.subrange(0, i as int), id@) == Some(v as int),
            r is None <==> aggregate(wus@.subrange(0, i as int), id@) is None,
        decreases n - i,
    {
        let ghost pre = wus@.subrange(0, i as int);
        assert(wus@.subrange(0, i + 1).drop_last() =~= pre);
        proof {
            lemma_aggregate_bound(pre, id@);
        }
        let w = &wus[i];
        if w.project == *id && w.status != STATUS_CANCELLED {
            let prev: u128 = match r {
                Some(v) => v,
                None => 0,
            };
            assert(prev + w.rsc_fpops_est <= (i + 1) * 0xFFFF_FFFF_FFFF_FFFFint);
            r = Some(prev + w.rsc_fpops_est as u128);
        }
        i = i + 1;
    }
    assert(wus@.subrange(0, n as int) =~= wus@);
    r
}

/// The boost for a load of `total` operations (see `priority_boost`).
pub fn priority_boost_of(total: u128, discounted: bool) -> (r: u16)
    ensures
        r as int == priority_boost(total as int, discounted),
        r <= NEW_PROJECT_BOOST,
{
    let floor: u128 = if discounted { 20_000_000_000_000_000 } else { 10_000_000_000_000_000 };
    let num: u128 = if discounted { 20_000_000_000_000_000_000 } else { 10_000_000_000_000_000_000 };
    let den: u128 = if total > floor { total } else { floor };
    let q = num / den;
    proof {
        lemma_div_is_ordered_by_denominator(num as int, floor as int, den as int);
        assert(num / floor == 1000);
    }
    q as u16
}

/// The weights for one device contact: every registered project starts at
/// the base priority; the excluded project is left out for a device whose
/// OS name names the excluded OS; a project with no counted history gets the
/// new-project boost, the others a boost that falls with their load.
pub fn planify_action(app_state: &AppState, device_info: &DeviceInfo) -> (r: PlanificatorResult)
    ensures
        r.entries() == planned(
            project_ids(app_state.projects@),
            os_excluded(lower_of(device_info.host_info.os_name@)),
            sent_since(app_state.database.work_units(), device_info.host_info.host_cpid@, 0),
        ),
{
    let lowered = lowercase(device_info.host_info.os_name.as_str());
    let excluded = is_excluded_os(lowered.as_str());
    let workunits = app_state.database.list_workunit_sent_since(&device_info.host_info.host_cpid, 0);
    let ghost ids = project_ids(app_state.projects@);
    let ghost history = workunits@;
    let mut projects: Vec<(String, PlanificatorProject)> = Vec::new();
    let n = app_state.projects.len();
    let mut i: usize = 0;
    while i < n
        invariant
            n == app_state.projects@.len(),
            ids == project_ids(app_state.projects@),
            history == workunits@,
            i <= n,
            entries_of(projects@) == planned(ids.subrange(0, i as int), excluded, history),
        decreases n - i,
    {
        assert(ids.subrange(0, i + 1).drop_last() =~= ids.subrange(0, i as int));
        let id = &app_state.projects[i].0;
        assert(ids.subrange(0, i + 1).last() == id@);
        let ghost before = projects@;
        if !(excluded && str_eq(id.as_str(), "loda")) {
            let boost: u16 = match aggregate_of(&workunits, id) {
                Some(total) => priority_boost_of(total, str_eq(id.as_str(), "worldcommunitygrid")),
                None => NEW_PROJECT_BOOST,
            };
            projects.push((id.clone(), PlanificatorProject { priority: BASE_PRIORITY + boost }));
            assert(entries_of(projects@) =~= entries_of(before).push((id@, (BASE_PRIORITY + boost) as int)));
        }
        i = i + 1;
    }
    assert(ids.subrange(0, n as int) =~= ids);
    PlanificatorResult { projects }
}

} // verus!
