use networkd_broker::error::ErrorKind;
use networkd_broker::script::{
    EnvVar, LaunchAction, LaunchEvent, Script, ScriptBuilder, ScriptEntry, SkipReason,
    DEFAULT_TIMEOUT,
};

fn entry(path: &str, mode: u32, uid: u32, gid: u32) -> ScriptEntry {
    ScriptEntry {
        path: path.to_string(),
        is_dir: false,
        mode,
        uid,
        gid,
    }
}

fn paths(builders: Vec<ScriptBuilder>) -> Vec<String> {
    builders
        .into_iter()
        .map(|b| b.build().path().clone())
        .collect()
}

#[test]
fn should_run_nowait() {
    assert!(!ScriptBuilder::should_run_nowait("/a/b/c/script.sh"));
    assert!(!ScriptBuilder::should_run_nowait("/a/b/c/script"));
    assert!(ScriptBuilder::should_run_nowait("/a/b/c/script-nowait.sh"));
    assert!(ScriptBuilder::should_run_nowait("/a/b/c/script-nowait"));
    assert!(!ScriptBuilder::should_run_nowait("/a/b/c/script.sh-nowait"));
    assert!(!ScriptBuilder::should_run_nowait("/a/b/c/script.-nowait"));
    assert!(ScriptBuilder::should_run_nowait("/a/b/c/script.-nowait.sh"));
}

#[test]
fn nowait_edge_cases() {
    // a leading dot starts no extension
    assert!(!ScriptBuilder::should_run_nowait("/a/.nowait"));
    assert!(ScriptBuilder::should_run_nowait("/a/.x-nowait"));
    assert!(ScriptBuilder::should_run_nowait("-nowait"));
    assert!(!ScriptBuilder::should_run_nowait("/a/b-nowait/script"));
    assert!(!ScriptBuilder::should_run_nowait(""));
    assert!(!ScriptBuilder::should_run_nowait("/a/b/"));
}

#[test]
fn build_new_script() {
    // Script without extension
    let script = Script::builder()
        .set_path("/etc/networkd/broker.d/carrier.d/00-script")
        .build();
    assert_eq!(script.timeout(), Some(DEFAULT_TIMEOUT));

    // Script with extension
    let script = Script::builder()
        .set_path("/etc/networkd/broker.d/carrier.d/00-script.sh")
        .build();
    assert_eq!(script.timeout(), Some(DEFAULT_TIMEOUT));

    // No-wait script without extension
    let script = Script::builder()
        .set_path("/etc/networkd/broker.d/carrier.d/00-script-nowait")
        .build();
    assert_eq!(script.timeout(), None);

    // No-wait script with extension
    let script = Script::builder()
        .set_path("/etc/networkd/broker.d/carrier.d/00-script-nowait.sh")
        .build();
    assert_eq!(script.timeout(), None);
}

#[test]
fn builder_sets_arguments_environment_and_timeout() {
    let script = Script::builder()
        .set_path("/s/10-c")
        .set_arg0("routable")
        .set_arg1("wlan0")
        .add_env(EnvVar::DeviceIface("wlan0".to_string()))
        .add_env(EnvVar::Custom {
            key: "SCRIPT_TEST_CASE".to_string(),
            value: "2".to_string(),
        })
        .set_default_timeout(2)
        .build();
    assert_eq!(script.path(), "/s/10-c");
    assert_eq!(
        script.args(),
        &vec!["routable".to_string(), "wlan0".to_string()]
    );
    assert_eq!(script.timeout(), Some(2));
    assert_eq!(script.envs().len(), 2);
    assert_eq!(
        script.envs().get("NWD_DEVICE_IFACE"),
        Some(&"wlan0".to_string())
    );
    assert_eq!(
        script.envs().get("NWD_SCRIPT_TEST_CASE"),
        Some(&"2".to_string())
    );
}

#[test]
fn env_var_names() {
    assert_eq!(EnvVar::DeviceIface(String::new()).name(), "NWD_DEVICE_IFACE");
    assert_eq!(EnvVar::BrokerAction(String::new()).name(), "NWD_BROKER_ACTION");
    assert_eq!(EnvVar::Json(String::new()).name(), "NWD_JSON");
    let custom = EnvVar::Custom {
        key: "KEY".to_string(),
        value: "v".to_string(),
    };
    assert_eq!(custom.name(), "NWD_KEY");
    assert_eq!(custom.value(), "v");
}

#[test]
fn discovery_orders_by_file_name() {
    let entries = vec![
        entry("/s/carrier.d/10-c", 0o555, 0, 0),
        entry("/s/carrier.d/00-a", 0o555, 0, 0),
        entry("/s/carrier.d/05-b-nowait", 0o555, 0, 0),
    ];
    let builders = ScriptBuilder::build_from(entries, None, None);
    assert_eq!(
        paths(builders),
        vec![
            "/s/carrier.d/00-a".to_string(),
            "/s/carrier.d/05-b-nowait".to_string(),
            "/s/carrier.d/10-c".to_string(),
        ]
    );
}

#[test]
fn discovery_security_filter() {
    let mut dir = entry("/s/carrier.d/03-dir", 0o755, 0, 0);
    dir.is_dir = true;
    let entries = vec![
        entry("/s/carrier.d/00-readonly", 0o444, 0, 0),
        entry("/s/carrier.d/01-other-user", 0o555, 1000, 0),
        entry("/s/carrier.d/02-other-group", 0o555, 0, 1000),
        dir,
        entry("/s/carrier.d/04-no-read", 0o100, 0, 0),
        entry("/s/carrier.d/05-ok", 0o555, 0, 0),
        entry("/s/carrier.d/06-owner-only", 0o500, 0, 0),
    ];
    let builders = ScriptBuilder::build_from(entries, None, None);
    assert_eq!(
        paths(builders),
        vec![
            "/s/carrier.d/05-ok".to_string(),
            "/s/carrier.d/06-owner-only".to_string(),
        ]
    );
}

#[test]
fn discovery_with_configured_owner() {
    let entries = vec![
        entry("/s/degraded.d/00-root", 0o555, 0, 0),
        entry("/s/degraded.d/01-user", 0o555, 1000, 100),
    ];
    let builders = ScriptBuilder::build_from(entries, Some(1000), Some(100));
    assert_eq!(paths(builders), vec!["/s/degraded.d/01-user".to_string()]);
    assert!(ScriptBuilder::build_from(Vec::new(), None, None).is_empty());
}

#[test]
fn discovery_sorts_by_name_not_by_path() {
    let entries = vec![
        entry("/b/00-x", 0o555, 0, 0),
        entry("/a/10-y", 0o555, 0, 0),
        entry("/c/05-z", 0o555, 0, 0),
    ];
    let builders = ScriptBuilder::build_from(entries, None, None);
    assert_eq!(
        paths(builders),
        vec![
            "/b/00-x".to_string(),
            "/c/05-z".to_string(),
            "/a/10-y".to_string(),
        ]
    );
}

#[test]
fn wait_job_waits_then_times_out() {
    let script = Script::builder().set_path("/s/00-a").set_default_timeout(2).build();
    assert!(matches!(
        script.on_event(LaunchEvent::Spawned),
        LaunchAction::WaitAtMost(2)
    ));
    assert!(matches!(
        script.on_event(LaunchEvent::TimedOut),
        LaunchAction::Terminate
    ));
    match script.on_event(LaunchEvent::Reaped("signal: 9 (SIGKILL)".to_string())) {
        LaunchAction::Fail(e) => {
            assert_eq!(e.kind, ErrorKind::ExecuteTimeout);
            assert_eq!(e.detail, "signal: 9 (SIGKILL)");
        }
        _ => panic!("a reaped job fails with a timeout"),
    }
    assert!(matches!(
        script.on_event(LaunchEvent::Exited("exit status: 0".to_string())),
        LaunchAction::Done
    ));
}

#[test]
fn nowait_job_is_detached() {
    let script = Script::builder().set_path("/s/05-b-nowait").build();
    assert!(matches!(
        script.on_event(LaunchEvent::Spawned),
        LaunchAction::Detach
    ));
}

#[test]
fn spawn_failure_is_reported() {
    let script = Script::builder().set_path("/tmp/not-exist-script.sh").build();
    match script.on_event(LaunchEvent::SpawnFailed("No such file or directory".to_string())) {
        LaunchAction::Fail(e) => {
            assert_eq!(e.kind, ErrorKind::ExecuteFailed);
            assert_eq!(e.detail, "No such file or directory");
        }
        _ => panic!("a spawn failure fails the job"),
    }
    match script.on_event(LaunchEvent::WaitFailed("wait".to_string())) {
        LaunchAction::Fail(e) => assert_eq!(e.kind, ErrorKind::ExecuteFailed),
        _ => panic!("a wait failure fails the job"),
    }
}

#[test]
fn nowait_follows_path_components() {
    // trailing separators and `.` components name no file
    assert!(ScriptBuilder::should_run_nowait("/a/x-nowait/"));
    assert!(ScriptBuilder::should_run_nowait("/a/x-nowait//"));
    assert!(ScriptBuilder::should_run_nowait("/a/x-nowait.sh/."));
    assert!(ScriptBuilder::should_run_nowait("x-nowait/./"));
    // no file name at all
    assert!(!ScriptBuilder::should_run_nowait("/a/x-nowait/.."));
    assert!(!ScriptBuilder::should_run_nowait("/"));
    assert!(!ScriptBuilder::should_run_nowait("."));
    let script = Script::builder().set_path("/a/x-nowait/").build();
    assert_eq!(script.timeout(), None);
}

#[test]
fn skip_reasons() {
    let mut dir = entry("/s/d", 0o755, 0, 0);
    dir.is_dir = true;
    assert_eq!(
        ScriptBuilder::skip_reason(&dir, None, None),
        Some(SkipReason::Directory)
    );
    assert_eq!(
        ScriptBuilder::skip_reason(&entry("/s/a", 0o444, 0, 0), None, None),
        Some(SkipReason::NotExecutable)
    );
    assert_eq!(
        ScriptBuilder::skip_reason(&entry("/s/a", 0o555, 1000, 0), None, None),
        Some(SkipReason::WrongOwner)
    );
    assert_eq!(
        ScriptBuilder::skip_reason(&entry("/s/a", 0o555, 0, 1000), None, None),
        Some(SkipReason::WrongGroup)
    );
    assert_eq!(
        ScriptBuilder::skip_reason(&entry("/s/a", 0o555, 0, 0), None, None),
        None
    );
    assert_eq!(
        ScriptBuilder::skip_reason(&entry("/s/a", 0o555, 1000, 100), Some(1000), Some(100)),
        None
    );
}

#[test]
fn discovery_orders_trailing_slash_paths_by_name() {
    let entries = vec![
        entry("/s/10-c/", 0o555, 0, 0),
        entry("/s/00-a/.", 0o555, 0, 0),
    ];
    let builders = ScriptBuilder::build_from(entries, None, None);
    assert_eq!(
        paths(builders),
        vec!["/s/00-a/.".to_string(), "/s/10-c/".to_string()]
    );
}
