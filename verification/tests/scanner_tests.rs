use kube_inventory::passwd::{PasswordCache, PasswordInfo};
use kube_inventory::rules::{
    compile_rules, OsProcRegexp, ProcRegRewrite, RegExpAction, RuleError,
};
use kube_inventory::scanner::{
    calc_process_datas_sha1, digest_sorted, scan_filter, scan_one, scan_processes,
    sort_processes_by_pid, tag_fetch_enabled, write_u64_be, OsAppTagKV, ProcessData, ScanError,
    TagMap,
};

fn proc(pid: u64, process_name: &str, cmd: &[&str], start_time: u64) -> ProcessData {
    ProcessData {
        name: process_name.to_string(),
        pid,
        process_name: process_name.to_string(),
        cmd: cmd.iter().map(|s| s.to_string()).collect(),
        user_id: 0,
        user: String::new(),
        start_time,
        os_app_tags: vec![],
    }
}

fn rule(match_type: &str, regex: &str, action: &str, rewrite: &str) -> OsProcRegexp {
    OsProcRegexp {
        match_regex: regex.to_string(),
        match_type: match_type.to_string(),
        action: action.to_string(),
        rewrite_name: rewrite.to_string(),
    }
}

#[test]
fn scanner_rewrite_from_cmdline() {
    let cfg = vec![rule("cmd", "^/usr/bin/python3 (.*)\\.py$", "accept", "py:$1")];
    let rules = compile_rules(&cfg).unwrap();
    let p = proc(10, "python3", &["/usr/bin/python3", "app.py"], 0);
    let out = scan_one(p, &rules, 0, 100).expect("accept rule matched");
    assert_eq!(out.name, "py:app");
    assert_eq!(out.process_name, "python3");
    let digest = calc_process_datas_sha1(&vec![out]);
    assert_eq!(digest.len(), 20);
}

#[test]
fn scanner_drop_rule_wins_first() {
    let cfg = vec![
        rule("process_name", "^sshd$", "drop", ""),
        rule("process_name", ".*", "accept", ""),
    ];
    let rules = compile_rules(&cfg).unwrap();
    assert!(scan_one(proc(1, "sshd", &["sshd"], 0), &rules, 0, 100).is_none());
    let kept = scan_one(proc(2, "nginx", &["nginx"], 0), &rules, 0, 100).unwrap();
    assert_eq!(kept.name, "nginx");
}

#[test]
fn first_match_wins_over_later_rewrites() {
    let cfg = vec![
        rule("process_name", "^nginx$", "accept", "first"),
        rule("process_name", "^nginx$", "accept", "second"),
    ];
    let rules = compile_rules(&cfg).unwrap();
    let out = scan_one(proc(1, "nginx", &["nginx"], 0), &rules, 0, 100).unwrap();
    assert_eq!(out.name, "first");
}

#[test]
fn no_matching_rule_discards() {
    let cfg = vec![rule("process_name", "^redis$", "accept", "")];
    let rules = compile_rules(&cfg).unwrap();
    assert!(scan_one(proc(1, "nginx", &["nginx"], 0), &rules, 0, 100).is_none());
}

#[test]
fn short_lived_processes_are_filtered() {
    let cfg = vec![rule("process_name", ".*", "accept", "")];
    let rules = compile_rules(&cfg).unwrap();
    // Started at t=90, now t=100: 10 s alive, below the 30 s floor.
    assert!(scan_one(proc(1, "a", &["a"], 90), &rules, 30, 100).is_none());
    assert!(scan_one(proc(1, "a", &["a"], 60), &rules, 30, 100).is_some());
    // Start time after `now` is an error and the process is skipped.
    assert!(scan_one(proc(1, "a", &["a"], 200), &rules, 0, 100).is_none());
}

#[test]
fn up_sec_rejects_future_start() {
    let p = proc(1, "a", &["a"], 200);
    assert_eq!(p.up_sec(100), Err(ScanError::StartTimeInFuture));
    assert_eq!(p.up_sec(250), Ok(50));
}

#[test]
fn rule_parsing_defaults_and_errors() {
    let r = ProcRegRewrite::try_new(&rule("", "x", "", "")).unwrap();
    assert!(matches!(r, ProcRegRewrite::ProcessName(_, RegExpAction::Accept, _)));
    let r = ProcRegRewrite::try_new(&rule("cmd", "x", "drop", "")).unwrap();
    assert!(matches!(r, ProcRegRewrite::Cmd(_, RegExpAction::Drop, _)));
    assert_eq!(r.action(), RegExpAction::Drop);
    assert!(matches!(
        ProcRegRewrite::try_new(&rule("", "(", "", "")),
        Err(RuleError::BadPattern)
    ));
    assert!(matches!(
        ProcRegRewrite::try_new(&rule("", "x", "reject", "")),
        Err(RuleError::BadAction)
    ));
    assert!(matches!(
        ProcRegRewrite::try_new(&rule("exe", "x", "", "")),
        Err(RuleError::BadMatchType)
    ));
}

#[test]
fn rewrite_template_expands_unknown_vars_to_empty() {
    let r = ProcRegRewrite::try_new(&rule(
        "",
        ".*",
        "accept",
        "%KUBE_INVENTORY_SURELY_UNSET_VAR%",
    ))
    .unwrap();
    match &r {
        ProcRegRewrite::ProcessName(_, _, rewrite) => assert_eq!(rewrite, ""),
        _ => panic!("expected a process-name rule"),
    }
    let r = ProcRegRewrite::try_new(&rule("", ".*", "accept", "plain")).unwrap();
    match &r {
        ProcRegRewrite::ProcessName(_, _, rewrite) => assert_eq!(rewrite, "plain"),
        _ => panic!("expected a process-name rule"),
    }
}

#[test]
fn digest_ignores_names_users_and_times() {
    let mut a = proc(7, "a", &["a"], 1);
    a.os_app_tags = vec![OsAppTagKV { key: "k".to_string(), value: "v".to_string() }];
    let mut b = proc(7, "totally-different", &["b", "c"], 999);
    b.user = "root".to_string();
    b.os_app_tags = vec![OsAppTagKV { key: "k".to_string(), value: "v".to_string() }];
    assert_eq!(
        calc_process_datas_sha1(&vec![a.clone()]),
        calc_process_datas_sha1(&vec![b])
    );
    let mut c = a.clone();
    c.os_app_tags = vec![OsAppTagKV { key: "k".to_string(), value: "other".to_string() }];
    assert_ne!(calc_process_datas_sha1(&vec![a]), calc_process_datas_sha1(&vec![c]));
}

#[test]
fn digest_of_empty_set_is_sha1_of_nothing() {
    let digest = calc_process_datas_sha1(&vec![]);
    let expected: [u8; 20] = [
        0xda, 0x39, 0xa3, 0xee, 0x5e, 0x6b, 0x4b, 0x0d, 0x32, 0x55, 0xbf, 0xef, 0x95, 0x60,
        0x18, 0x90, 0xaf, 0xd8, 0x07, 0x09,
    ];
    assert_eq!(digest, expected.to_vec());
}

#[test]
fn write_u64_be_bytes() {
    assert_eq!(write_u64_be(0x0102030405060708), vec![1, 2, 3, 4, 5, 6, 7, 8]);
    assert_eq!(write_u64_be(0), vec![0; 8]);
}

#[test]
fn tag_map_later_record_wins_and_is_consumed() {
    let mut tags = TagMap::from_records(vec![
        (5, vec![OsAppTagKV { key: "old".to_string(), value: "1".to_string() }]),
        (5, vec![OsAppTagKV { key: "new".to_string(), value: "2".to_string() }]),
    ]);
    let got = tags.remove(5).unwrap();
    assert_eq!(got[0].key, "new");
    assert!(tags.remove(7).is_none());
}

#[test]
fn scan_filter_attaches_tags() {
    let cfg = vec![rule("process_name", ".*", "accept", "")];
    let rules = compile_rules(&cfg).unwrap();
    let mut tags = TagMap::from_records(vec![(
        2,
        vec![OsAppTagKV { key: "team".to_string(), value: "infra".to_string() }],
    )]);
    let procs = vec![
        proc(1, "a", &["a"], 0),
        proc(2, "b", &["b"], 0),
        proc(3, "young", &["young"], 95),
    ];
    let out = scan_filter(procs, &rules, 30, 100, &mut tags);
    assert_eq!(out.len(), 2);
    assert_eq!(out[0].pid, 1);
    assert!(out[0].os_app_tags.is_empty());
    assert_eq!(out[1].pid, 2);
    assert_eq!(out[1].os_app_tags.len(), 1);
    assert_eq!(out[1].os_app_tags[0].key, "team");
}

#[test]
fn passwd_parse_and_lookup() {
    let content = b"root:x:0:0:root:/root:/bin/bash\n\
daemon:x:1:1:daemon:/usr/sbin:/usr/sbin/nologin\n\
broken line without colons\n\
bob:x:notanumber:100::/home/bob:/bin/sh\n\
alice:x:1000:1000::/home/alice:/bin/sh\n";
    let info = PasswordInfo::parse(content);
    assert_eq!(info.get_username_by_uid(0), Some("root".to_string()));
    assert_eq!(info.get_username_by_uid(1000), Some("alice".to_string()));
    assert_eq!(info.get_username_by_uid(12345), None);
    assert_eq!(info.get_uid_by_username("daemon"), Some(1));
    assert_eq!(info.get_uid_by_username("bob"), None);
}

#[test]
fn set_username_through_cache() {
    let content = b"svc:x:500:500::/:/bin/false\n";
    let mut cache = PasswordCache::new();
    assert!(!cache.contains(99));
    cache.insert(99, PasswordInfo::parse(content));
    assert!(cache.contains(99));
    let mut p = proc(1, "a", &["a"], 0);
    p.user_id = 500;
    p.set_username(cache.lookup(99).unwrap());
    assert_eq!(p.user, "svc");
    let mut q = proc(2, "b", &["b"], 0);
    q.user_id = 777;
    q.set_username(cache.lookup(99).unwrap());
    assert_eq!(q.user, "");
}

#[test]
fn tag_fetch_runs_only_when_configured() {
    assert!(!tag_fetch_enabled(&String::new(), &vec!["cmd".to_string()]));
    assert!(!tag_fetch_enabled(&"user".to_string(), &vec![]));
    assert!(tag_fetch_enabled(&"user".to_string(), &vec!["cmd".to_string()]));
}

#[test]
fn scan_processes_from_raw_config() {
    let cfg = vec![rule("process_name", "^sshd$", "drop", ""), rule("", ".*", "", "")];
    let mut tags = TagMap::from_records(vec![]);
    let procs = vec![proc(1, "sshd", &["sshd"], 0), proc(2, "cron", &["cron"], 0)];
    let out = scan_processes(&cfg, procs, 0, 100, &mut tags).unwrap();
    assert_eq!(out.len(), 1);
    assert_eq!(out[0].process_name, "cron");

    let bad = vec![rule("", "(", "", "")];
    let mut tags = TagMap::from_records(vec![]);
    assert!(matches!(
        scan_processes(&bad, vec![], 0, 100, &mut tags),
        Err(RuleError::BadPattern)
    ));
}


#[test]
fn digest_is_independent_of_discovery_order() {
    let mk = |pid: u64, name: &str| {
        let mut p = proc(pid, name, &[name], 0);
        p.os_app_tags =
            vec![OsAppTagKV { key: format!("k{}", pid), value: "v".to_string() }];
        p
    };
    let mut forward = vec![mk(1, "a"), mk(2, "b"), mk(3, "c")];
    let mut backward = vec![mk(3, "z"), mk(1, "y"), mk(2, "x")];
    let d1 = digest_sorted(&mut forward);
    let d2 = digest_sorted(&mut backward);
    assert_eq!(d1, d2);
    assert_eq!(forward.iter().map(|p| p.pid).collect::<Vec<u64>>(), vec![1, 2, 3]);
    assert_eq!(backward.iter().map(|p| p.pid).collect::<Vec<u64>>(), vec![1, 2, 3]);
}

#[test]
fn sort_by_pid_orders_and_keeps_everything() {
    let mut v = vec![
        proc(5, "e", &["e"], 0),
        proc(1, "a", &["a"], 0),
        proc(4, "d", &["d"], 0),
        proc(2, "b", &["b"], 0),
    ];
    sort_processes_by_pid(&mut v);
    let pids: Vec<u64> = v.iter().map(|p| p.pid).collect();
    assert_eq!(pids, vec![1, 2, 4, 5]);
    let names: Vec<String> = v.iter().map(|p| p.name.clone()).collect();
    assert_eq!(names, vec!["a", "b", "d", "e"]);
}


#[test]
fn tag_record_is_consumed_at_most_once() {
    let cfg = vec![rule("process_name", ".*", "accept", "")];
    let rules = compile_rules(&cfg).unwrap();
    let mut tags = TagMap::from_records(vec![(
        9,
        vec![OsAppTagKV { key: "only".to_string(), value: "once".to_string() }],
    )]);
    // Two processes share the pid: the first takes the record, the
    // second finds the map empty for it.
    let procs = vec![proc(9, "first", &["first"], 0), proc(9, "second", &["second"], 0)];
    let out = scan_filter(procs, &rules, 0, 100, &mut tags);
    assert_eq!(out.len(), 2);
    assert_eq!(out[0].os_app_tags.len(), 1);
    assert!(out[1].os_app_tags.is_empty());
    assert!(tags.remove(9).is_none());
}
