use boinc_account_manager::planificator::{contains_str, is_excluded_os, priority_boost_of, str_eq};
use boinc_account_manager::{
    planify_action, AppState, ConfigError, DataBase, DeviceInfo, HostInfo, PlanificatorResult, Project, WorkUnit,
};

fn project(name: &str) -> Project {
    Project {
        name: name.to_string(),
        scheduler_url: format!("https://{}.example/cgi-bin/cgi", name),
        url_signature: format!("sig-{}", name),
        authenticator: format!("auth-{}", name),
    }
}

fn state(ids: &[&str], db: DataBase) -> AppState {
    let projects = ids.iter().map(|id| (id.to_string(), project(id))).collect();
    AppState::new(
        projects,
        "manager".to_string(),
        "key".to_string(),
        "https://gw.example".to_string(),
        db,
        "secret".to_string(),
    )
    .ok()
    .unwrap()
}

fn device(os: &str, cpid: &str) -> DeviceInfo {
    DeviceInfo {
        host_info: HostInfo { os_name: os.to_string(), os_version: "1".to_string(), host_cpid: cpid.to_string() },
    }
}

fn wu(cpid: &str, project: &str, result_name: &str, fpops: u64, status: u64) -> WorkUnit {
    WorkUnit {
        cpid: cpid.to_string(),
        project: project.to_string(),
        name: result_name.to_string(),
        status,
        app_name: "app".to_string(),
        rsc_fpops_est: fpops,
        rsc_fpops_bound: 0,
        rsc_memory_bound: 0,
        rsc_disk_bound: 0,
        platform: "p".to_string(),
        version_num: 1,
        plan_class: String::new(),
        result_name: result_name.to_string(),
        timestamp: 100,
    }
}

fn priority(r: &PlanificatorResult, id: &str) -> Option<u16> {
    r.priority_of(&id.to_string())
}

#[test]
fn fresh_device_gets_new_project_priority() {
    let st = state(&["loda", "rosetta", "worldcommunitygrid"], DataBase::new());
    let r = planify_action(&st, &device("Linux", "dev"));
    assert_eq!(r.projects.len(), 3);
    for (_, p) in &r.projects {
        assert_eq!(p.priority, 1100);
    }
}

#[test]
fn nixos_device_loses_excluded_project() {
    let mut db = DataBase::new();
    db.add_work_unit(wu("dev", "loda", "r1", 5, 1));
    let st = state(&["loda", "rosetta"], db);
    for os in ["NixOS", "nixos", "NIXOS 23.11"] {
        let r = planify_action(&st, &device(os, "dev"));
        assert_eq!(priority(&r, "loda"), None);
        assert_eq!(priority(&r, "rosetta"), Some(1100));
        assert_eq!(r.projects.len(), 1);
    }
    let r = planify_action(&st, &device("Debian", "dev"));
    assert!(priority(&r, "loda").is_some());
}

#[test]
fn boost_at_threshold_is_full() {
    assert_eq!(priority_boost_of(10_000_000_000_000_000, false), 1000);
    assert_eq!(priority_boost_of(0, false), 1000);
    assert_eq!(priority_boost_of(20_000_000_000_000_000, false), 500);
    assert_eq!(priority_boost_of(30_000_000_000_000_000, false), 333);
    assert_eq!(priority_boost_of(40_000_000_000_000_000, true), 500);
}

#[test]
fn load_at_threshold_gives_1100() {
    let mut db = DataBase::new();
    db.add_work_unit(wu("dev", "rosetta", "r1", 6_000_000_000_000_000, 1));
    db.add_work_unit(wu("dev", "rosetta", "r2", 4_000_000_000_000_000, 1));
    let st = state(&["rosetta"], db);
    let r = planify_action(&st, &device("Linux", "dev"));
    assert_eq!(priority(&r, "rosetta"), Some(1100));
}

#[test]
fn heavy_load_lowers_priority() {
    let mut db = DataBase::new();
    db.add_work_unit(wu("dev", "rosetta", "r1", 20_000_000_000_000_000, 1));
    db.add_work_unit(wu("dev", "worldcommunitygrid", "r2", 40_000_000_000_000_000, 1));
    db.add_work_unit(wu("other", "rosetta", "r3", 40_000_000_000_000_000, 1));
    let st = state(&["rosetta", "worldcommunitygrid"], db);
    let r = planify_action(&st, &device("Linux", "dev"));
    assert_eq!(priority(&r, "rosetta"), Some(600));
    assert_eq!(priority(&r, "worldcommunitygrid"), Some(600));
}

#[test]
fn cancelled_history_falls_back_to_new_project_boost() {
    let mut db = DataBase::new();
    db.add_work_unit(wu("dev", "rosetta", "r1", 90_000_000_000_000_000, 6));
    db.add_work_unit(wu("dev", "rosetta", "r2", 90_000_000_000_000_000, 6));
    let st = state(&["rosetta"], db);
    let r = planify_action(&st, &device("Linux", "dev"));
    assert_eq!(priority(&r, "rosetta"), Some(1100));
}

#[test]
fn default_priorities_cover_registry() {
    let st = state(&["a", "b"], DataBase::new());
    let r = PlanificatorResult::new_from_app_state(&st, 42);
    assert_eq!(priority(&r, "a"), Some(42));
    assert_eq!(priority(&r, "b"), Some(42));
    assert_eq!(priority(&r, "c"), None);
}

#[test]
fn duplicate_project_is_refused() {
    let r = AppState::new(
        vec![("a".to_string(), project("a")), ("a".to_string(), project("b"))],
        "m".to_string(),
        "k".to_string(),
        "u".to_string(),
        DataBase::new(),
        "s".to_string(),
    );
    assert_eq!(r.err(), Some(ConfigError::DuplicateProject));
}

#[test]
fn urls_of_a_project() {
    let st = state(&["rosetta"], DataBase::new());
    assert_eq!(st.get_proxy_url("rosetta"), "https://gw.example/proxy/rosetta/");
    assert_eq!(st.get_scheduler_url("rosetta"), "https://gw.example/proxy/rosetta/scheduler");
    assert_eq!(st.find_project(&"rosetta".to_string()), Some(0));
    assert_eq!(st.find_project(&"loda".to_string()), None);
}

#[test]
fn string_helpers() {
    assert!(contains_str("my nixos box", "nixos"));
    assert!(!contains_str("nixo", "nixos"));
    assert!(contains_str("abc", ""));
    assert!(is_excluded_os("nixos"));
    assert!(!is_excluded_os("NixOS"));
    assert!(str_eq("loda", "loda"));
    assert!(!str_eq("loda", "lod"));
}
