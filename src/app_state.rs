use vstd::prelude::*;

use crate::database::DataBase;

verus! {

/// One project of the registry.
pub struct Project {
    pub name: String,
    pub scheduler_url: String,
    pub url_signature: String,
    pub authenticator: String,
}

/// Why a configuration was refused.
#[derive(PartialEq, Eq, Structural, Debug, Clone, Copy)]
pub enum ConfigError {
    /// Two registry entries carry the same identifier.
    DuplicateProject,
}

/// The identifiers of a registry, in order.
pub open spec fn project_ids(projects: Seq<(String, Project)>) -> Seq<Seq<char>> {
    projects.map_values(|e: (String, Project)| e.0@)
}

pub open spec fn ids_unique(ids: Seq<Seq<char>>) -> bool {
    forall|i: int, j: int| 0 <= i < ids.len() && 0 <= j < ids.len() && i != j ==> #[trigger] ids[i] != #[trigger] ids[j]
}

/// The process-wide state: the project registry, the account-manager
/// identity and the work-unit store.
pub struct AppState {
    /// The registry as (identifier, project) pairs with unique identifiers
    /// (see `wf`). A list rather than a hash map, since Verus specifies no
    /// map operations over `String` keys.
    pub projects: Vec<(String, Project)>,
    pub account_manager_name: String,
    pub signing_key: String,
    pub base_url: String,
    pub database: DataBase,
    pub weak_auth: String,
}

impl AppState {
    /// Registry identifiers are unique and the store is well formed.
    pub open spec fn wf(&self) -> bool {
        ids_unique(project_ids(self.projects@)) && self.database.wf()
    }

    /// Builds the state from a loaded configuration; refuses a registry that
    /// names one identifier twice.
    pub fn new(
        projects: Vec<(String, Project)>,
        account_manager_name: String,
        signing_key: String,
        base_url: String,
        database: DataBase,
        weak_auth: String,
    ) -> (r: Result<AppState, ConfigError>)
        requires
            database.wf(),
        ensures
            ids_unique(project_ids(projects@)) <==> r.is_ok(),
            r matches Ok(st) ==> {
                &&& st.wf()
                &&& st.projects@ == projects@
                &&& st.account_manager_name == account_manager_name
                &&& st.signing_key == signing_key
                &&& st.base_url == base_url
                &&& st.database == database
                &&& st.weak_auth == weak_auth
            },
    {
        let n = projects.len();
        let mut i: usize = 0;
        while i < n
            invariant
                n == projects@.len(),
                i <= n,
                forall|a: int, b: int| 0 <= a < i && 0 <= b < n && a != b ==> projects@[a].0@ != projects@[b].0@,
            decreases n - i,
        {
            let mut j: usize = 0;
            while j < n
                invariant
                    n == projects@.len(),
                    i < n,
                    j <= n,
                    forall|a: int, b: int| 0 <= a < i && 0 <= b < n && a != b ==> projects@[a].0@ != projects@[b].0@,
                    forall|b: int| 0 <= b < j && b != i ==> projects@[i as int].0@ != projects@[b].0@,
                decreases n - j,
            {
                if j != i && projects[i].0 == projects[j].0 {
                    proof {
                        let ids = project_ids(projects@);
                        assert(ids[i as int] == ids[j as int]);
                    }
                    return Err(ConfigError::DuplicateProject);
                }
                j = j + 1;
            }
            i = i + 1;
        }
        proof {
            let ids = project_ids(projects@);
            assert forall|a: int, b: int| 0 <= a < ids.len() && 0 <= b < ids.len() && a != b implies #[trigger] ids[a] != #[trigger] ids[b] by {
                assert(projects@[a].0@ != projects@[b].0@);
            }
        }
        Ok(AppState { projects, account_manager_name, signing_key, base_url, database, weak_auth })
    }

    /// The proxy address that devices are given for `project`.
    pub fn get_proxy_url(&self, project: &str) -> (r: String)
        ensures
            r@ == self.base_url@ + "/proxy/"@ + project@ + "/"@,
    {
        let mut r = self.base_url.clone();
        r.append("/proxy/");
        r.append(project);
        r.append("/");
        r
    }

    /// The scheduler address of the proxy for `project`.
    pub fn get_scheduler_url(&self, project: &str) -> (r: String)
        ensures
            r@ == self.base_url@ + "/proxy/"@ + project@ + "/scheduler"@,
    {
        let mut r = self.base_url.clone();
        r.append("/proxy/");
        r.append(project);
        r.append("/scheduler");
        r
    }

    /// The position of the registry entry named `id`, if there is one.
    pub fn find_project(&self, id: &String) -> (r: Option<usize>)
        ensures
            r matches Some(i) ==> i < self.projects@.len() && self.projects@[i as int].0@ == id@,
            r is None <==> !project_ids(self.projects@).contains(id@),
    {
        let n = self.projects.len();
        let mut i: usize = 0;
        while i < n
            invariant
                n == self.projects@.len(),
                i <= n,
                forall|j: int| 0 <= j < i ==> self.projects@[j].0@ != id@,
            decreases n - i,
        {
            if self.projects[i].0 == *id {
                assert(project_ids(self.projects@)[i as int] == id@);
                return Some(i);
            }
            i = i + 1;
        }
        proof {
            if project_ids(self.projects@).contains(id@) {
                let k = choose|k: int| 0 <= k < project_ids(self.projects@).len() && project_ids(self.projects@)[k] == id@;
                assert(self.projects@[k].0@ == id@);
            }
        }
        None
    }
}

} // verus!
