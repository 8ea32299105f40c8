use boinc_account_manager::{AppVersion, DataBase, StatusUpdate, WorkUnit};

fn wu(cpid: &str, project: &str, result_name: &str, fpops: u64, timestamp: u64) -> WorkUnit {
    WorkUnit {
        cpid: cpid.to_string(),
        project: project.to_string(),
        name: format!("wu_{}", result_name),
        status: 1,
        app_name: "app".to_string(),
        rsc_fpops_est: fpops,
        rsc_fpops_bound: fpops * 10,
        rsc_memory_bound: 1000,
        rsc_disk_bound: 2000,
        platform: "x86_64-pc-linux-gnu".to_string(),
        version_num: 7,
        plan_class: String::new(),
        result_name: result_name.to_string(),
        timestamp,
    }
}

#[test]
fn insert_twice_keeps_first_payload() {
    let mut db = DataBase::new();
    assert!(db.add_work_unit(wu("dev", "p", "r1", 5, 10)));
    let mut second = wu("other", "p", "r1", 99, 20);
    second.app_name = "changed".to_string();
    assert!(!db.add_work_unit(second));
    let listed = db.list_workunit_sent_since(&"dev".to_string(), 0);
    assert_eq!(listed.len(), 1);
    assert_eq!(listed[0].rsc_fpops_est, 5);
    assert_eq!(listed[0].app_name, "app");
    assert_eq!(listed[0].timestamp, 10);
    assert!(db.list_workunit_sent_since(&"other".to_string(), 0).is_empty());
}

#[test]
fn same_result_name_in_two_projects_is_two_records() {
    let mut db = DataBase::new();
    assert!(db.add_work_unit(wu("dev", "p", "r1", 5, 10)));
    assert!(db.add_work_unit(wu("dev", "q", "r1", 6, 10)));
    assert_eq!(db.list_workunit_sent_since(&"dev".to_string(), 0).len(), 2);
}

#[test]
fn status_update_is_listed() {
    let mut db = DataBase::new();
    db.add_work_unit(wu("dev", "p", "r1", 5, 10));
    db.add_work_unit(wu("dev", "p", "r2", 5, 10));
    let r = db.update_status(&"p".to_string(), &"r1".to_string(), 6);
    assert_eq!(r, StatusUpdate::Updated);
    let listed = db.list_workunit_sent_since(&"dev".to_string(), 5);
    assert_eq!(listed.len(), 2);
    for w in &listed {
        if w.result_name == "r1" {
            assert_eq!(w.status, 6);
        } else {
            assert_eq!(w.status, 1);
        }
    }
}

#[test]
fn status_update_of_unknown_record() {
    let mut db = DataBase::new();
    db.add_work_unit(wu("dev", "p", "r1", 5, 10));
    let r = db.update_status(&"q".to_string(), &"r1".to_string(), 6);
    assert_eq!(r, StatusUpdate::NoSuchRecord);
    assert_eq!(db.list_workunit_sent_since(&"dev".to_string(), 0)[0].status, 1);
}

#[test]
fn listing_filters_device_and_cutoff() {
    let mut db = DataBase::new();
    db.add_work_unit(wu("dev", "p", "r1", 5, 10));
    db.add_work_unit(wu("dev", "p", "r2", 5, 11));
    db.add_work_unit(wu("dev", "p", "r3", 5, 12));
    db.add_work_unit(wu("other", "p", "r4", 5, 20));
    let listed = db.list_workunit_sent_since(&"dev".to_string(), 11);
    assert_eq!(listed.len(), 1);
    assert_eq!(listed[0].result_name, "r3");
    for w in &db.list_workunit_sent_since(&"dev".to_string(), 0) {
        assert_eq!(w.cpid, "dev");
    }
    assert!(db.list_workunit_sent_since(&"dev".to_string(), 12).is_empty());
}

#[test]
fn app_version_inserted_once() {
    let mut db = DataBase::new();
    let av = |friendly: &str| AppVersion {
        project: "p".to_string(),
        app_name: "a".to_string(),
        user_friendly_name: friendly.to_string(),
        version: 3,
        platform: "x".to_string(),
        plan_class: String::new(),
    };
    assert!(db.add_app_version(av("first")));
    assert!(!db.add_app_version(av("second")));
    let mut other = av("first");
    other.version = 4;
    assert!(db.add_app_version(other));
}
