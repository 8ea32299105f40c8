use boinc_account_manager::proxy_scheduler::{
    apply_status_reports, correlate_app_versions, correlate_work_units, finish_exchange, repair_ampersands,
    route_request, ProxyError, Query, ResultQuery, SchedulerApp, SchedulerAppVersion, SchedulerReply,
    SchedulerResult, SchedulerWorkUnit,
};
use boinc_account_manager::rpc::{rpc_reply, RpcQuery};
use boinc_account_manager::{AppState, DataBase, HostInfo, Project, StatusUpdate};

fn swu(name: &str, fpops: u64) -> SchedulerWorkUnit {
    SchedulerWorkUnit {
        name: name.to_string(),
        app_name: "app".to_string(),
        rsc_fpops_est: fpops,
        rsc_fpops_bound: 2 * fpops,
        rsc_memory_bound: 0,
        rsc_disk_bound: 0,
    }
}

fn sres(wu_name: &str, name: &str) -> SchedulerResult {
    SchedulerResult {
        wu_name: wu_name.to_string(),
        name: name.to_string(),
        platform: "x86_64".to_string(),
        version_num: 3,
        plan_class: "mt".to_string(),
    }
}

fn reply() -> SchedulerReply {
    SchedulerReply {
        workunit: vec![swu("wu_a", 10), swu("wu_b", 20)],
        result: vec![sres("wu_b", "wu_b_0"), sres("wu_c", "wu_c_0")],
        app: vec![],
        app_version: vec![],
    }
}

fn state(db: DataBase) -> AppState {
    let project = Project {
        name: "Rosetta".to_string(),
        scheduler_url: "https://r.example/sched".to_string(),
        url_signature: "sig".to_string(),
        authenticator: "auth".to_string(),
    };
    let loda = Project {
        name: "LODA".to_string(),
        scheduler_url: "https://l.example/sched".to_string(),
        url_signature: "sig2".to_string(),
        authenticator: "auth2".to_string(),
    };
    AppState::new(
        vec![("rosetta".to_string(), project), ("loda".to_string(), loda)],
        "manager".to_string(),
        "key".to_string(),
        "https://gw.example".to_string(),
        db,
        "secret".to_string(),
    )
    .ok()
    .unwrap()
}

#[test]
fn one_matching_pair_gives_one_record() {
    let rep = reply();
    let wus = correlate_work_units(&rep, &"dev".to_string(), &"rosetta".to_string(), 77);
    assert_eq!(wus.len(), 1);
    let w = &wus[0];
    assert_eq!(w.name, "wu_b");
    assert_eq!(w.result_name, "wu_b_0");
    assert_eq!(w.cpid, "dev");
    assert_eq!(w.project, "rosetta");
    assert_eq!(w.status, 1);
    assert_eq!(w.rsc_fpops_est, 20);
    assert_eq!(w.rsc_fpops_bound, 40);
    assert_eq!(w.plan_class, "mt");
    assert_eq!(w.timestamp, 77);

    let mut db = DataBase::new();
    let out = finish_exchange(&mut db, &"rosetta".to_string(), &"dev".to_string(), 77, 200, b"<reply/>".to_vec(), Some(rep));
    assert_eq!(out.status, 200);
    assert_eq!(db.list_workunit_sent_since(&"dev".to_string(), 0).len(), 1);
}

#[test]
fn first_matching_result_wins() {
    let rep = SchedulerReply {
        workunit: vec![swu("wu_a", 1)],
        result: vec![sres("wu_a", "first"), sres("wu_a", "second")],
        app: vec![],
        app_version: vec![],
    };
    let wus = correlate_work_units(&rep, &"dev".to_string(), &"p".to_string(), 1);
    assert_eq!(wus.len(), 1);
    assert_eq!(wus[0].result_name, "first");
}

#[test]
fn app_versions_correlate_by_name() {
    let rep = SchedulerReply {
        workunit: vec![],
        result: vec![],
        app: vec![
            SchedulerApp { name: "a".to_string(), user_friendly_name: "App A".to_string() },
            SchedulerApp { name: "b".to_string(), user_friendly_name: "App B".to_string() },
        ],
        app_version: vec![
            SchedulerAppVersion { app_name: "b".to_string(), version_num: 2, platform: "x".to_string(), plan_class: String::new() },
            SchedulerAppVersion { app_name: "z".to_string(), version_num: 1, platform: "x".to_string(), plan_class: String::new() },
        ],
    };
    let avs = correlate_app_versions(&rep, &"p".to_string());
    assert_eq!(avs.len(), 1);
    assert_eq!(avs[0].user_friendly_name, "App B");
    assert_eq!(avs[0].version, 2);
    assert_eq!(avs[0].project, "p");
}

#[test]
fn relay_is_transparent() {
    for status in [200u16, 404, 500, 503] {
        let body = b"<scheduler_reply>\x00\xff&</scheduler_reply>".to_vec();
        let mut db = DataBase::new();
        let out = finish_exchange(&mut db, &"rosetta".to_string(), &"dev".to_string(), 5, status, body.clone(), Some(reply()));
        assert_eq!(out.status, status);
        assert_eq!(out.body, body);
        let recorded = db.list_workunit_sent_since(&"dev".to_string(), 0).len();
        assert_eq!(recorded, if status == 200 { 1 } else { 0 });
    }
    let mut db = DataBase::new();
    let out = finish_exchange(&mut db, &"rosetta".to_string(), &"dev".to_string(), 5, 200, b"garbage".to_vec(), None);
    assert_eq!(out.body, b"garbage".to_vec());
    assert!(db.list_workunit_sent_since(&"dev".to_string(), 0).is_empty());
}

#[test]
fn ampersands_are_escaped() {
    assert_eq!(repair_ampersands(&b"a&b&&c".to_vec()), b"a&amp;b&amp;&amp;c".to_vec());
    assert_eq!(repair_ampersands(&b"plain".to_vec()), b"plain".to_vec());
    assert_eq!(repair_ampersands(&Vec::new()), Vec::<u8>::new());
    assert_eq!(repair_ampersands(&b"AT&T".to_vec()), b"AT&amp;T".to_vec());
    assert_eq!(repair_ampersands(&b"&".to_vec()), b"&amp;".to_vec());
}

#[test]
fn entity_references_are_kept() {
    let kept = b"&amp;&lt;&gt;&quot;&apos;&#38;&#x26;&#xaF;".to_vec();
    assert_eq!(repair_ampersands(&kept), kept);
    assert_eq!(repair_ampersands(&b"a &amp; b & c".to_vec()), b"a &amp; b &amp; c".to_vec());
    assert_eq!(repair_ampersands(&b"&foo;".to_vec()), b"&amp;foo;".to_vec());
    assert_eq!(repair_ampersands(&b"&#;&#x;&#12a;".to_vec()), b"&amp;#;&amp;#x;&amp;#12a;".to_vec());
    assert_eq!(repair_ampersands(&b"&amp".to_vec()), b"&amp;amp".to_vec());
    assert_eq!(repair_ampersands(&b"&AMP;".to_vec()), b"&amp;AMP;".to_vec());
    assert_eq!(repair_ampersands(&b"q=1&lt=2;".to_vec()), b"q=1&amp;lt=2;".to_vec());
}

#[test]
fn routing_errors() {
    let st = state(DataBase::new());
    assert_eq!(route_request(&st, &"nope".to_string(), true), Err(ProxyError::ProjectNotFound));
    assert_eq!(route_request(&st, &"nope".to_string(), false), Err(ProxyError::ProjectNotFound));
    assert_eq!(route_request(&st, &"loda".to_string(), false), Err(ProxyError::MissingUserAgent));
    assert_eq!(route_request(&st, &"loda".to_string(), true), Ok(1));
}

#[test]
fn reported_states_update_the_store() {
    let mut db = DataBase::new();
    finish_exchange(&mut db, &"rosetta".to_string(), &"dev".to_string(), 5, 200, Vec::new(), Some(reply()));
    let query = Query {
        result: vec![
            ResultQuery { name: "wu_b_0".to_string(), state: 5 },
            ResultQuery { name: "unknown".to_string(), state: 3 },
        ],
        host_info: HostInfo { os_name: "Linux".to_string(), os_version: "6".to_string(), host_cpid: "dev".to_string() },
    };
    apply_status_reports(&mut db, &"rosetta".to_string(), &query);
    assert_eq!(db.list_workunit_sent_since(&"dev".to_string(), 0)[0].status, 5);
    assert_eq!(db.update_status(&"other".to_string(), &"wu_b_0".to_string(), 2), StatusUpdate::NoSuchRecord);
}

#[test]
fn account_reply_lists_every_project() {
    let st = state(DataBase::new());
    let host = || HostInfo { os_name: "NixOS".to_string(), os_version: "24".to_string(), host_cpid: "dev".to_string() };
    assert!(rpc_reply(&st, RpcQuery { name: "wrong".to_string(), host_info: host() }).is_none());
    let r = rpc_reply(&st, RpcQuery { name: "secret".to_string(), host_info: host() }).unwrap();
    assert_eq!(r.name, "manager");
    assert_eq!(r.signing_key, "key");
    assert_eq!(r.account.len(), 2);
    assert_eq!(r.account[0].url, "https://gw.example/proxy/rosetta/");
    assert_eq!(r.account[0].url_signature, "sig");
    assert_eq!(r.account[0].authenticator, "auth");
    assert_eq!(r.account[0].resource_share, 1100);
    assert_eq!(r.account[0].detach, 0);
    assert_eq!(r.account[1].url, "https://gw.example/proxy/loda/");
    assert_eq!(r.account[1].resource_share, 0);
    assert_eq!(r.account[1].detach, 1);
}
