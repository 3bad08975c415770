use ksud::parse::parse;
use ksud::router::{
    execute, requires_init_mount_namespace, CmdError, CollabRequest, ControlPlane, Invocation,
    Reply,
};

fn args(v: &[&str]) -> Vec<String> {
    v.iter().map(|s| s.to_string()).collect()
}

fn run(plane: &mut ControlPlane, ctx: &Invocation, argv: &[&str]) -> Result<Reply, CmdError> {
    let cmd = match parse(&args(argv)) {
        Ok(c) => c,
        Err(_) => panic!("command must parse"),
    };
    execute(plane, ctx, cmd)
}

fn module_ctx(id: &str) -> Invocation {
    Invocation { module_id: Some(id.to_string()), ns_ready: true }
}

fn plain_ctx() -> Invocation {
    Invocation { module_id: None, ns_ready: true }
}

#[test]
fn config_set_then_get_round_trips_in_module_context() {
    let mut plane = ControlPlane::new();
    let ctx = module_ctx("my_module");
    let r = run(&mut plane, &ctx, &["module", "config", "set", "mykey", "myvalue"]);
    assert!(matches!(r, Ok(Reply::Done)));
    match run(&mut plane, &ctx, &["module", "config", "get", "mykey"]) {
        Ok(Reply::Text(v)) => assert_eq!(v, "myvalue"),
        _ => panic!("expected the stored value back"),
    }
}

#[test]
fn config_is_scoped_per_module() {
    let mut plane = ControlPlane::new();
    let r = run(&mut plane, &module_ctx("alpha"), &["module", "config", "set", "k", "v"]);
    assert!(matches!(r, Ok(Reply::Done)));
    let r = run(&mut plane, &module_ctx("beta"), &["module", "config", "get", "k"]);
    assert!(matches!(r, Err(CmdError::Config(_))));
}

#[test]
fn config_get_without_context_is_a_context_error() {
    let mut plane = ControlPlane::new();
    let r = run(&mut plane, &plain_ctx(), &["module", "config", "get", "key"]);
    assert!(matches!(r, Err(CmdError::MissingModuleContext)));
}

#[test]
fn only_module_requests_need_the_namespace_switch() {
    let module_cmd = parse(&args(&["module", "list"])).ok().unwrap();
    assert!(requires_init_mount_namespace(&module_cmd));
    let kernel_cmd = parse(&args(&["kernel", "umount", "list"])).ok().unwrap();
    assert!(!requires_init_mount_namespace(&kernel_cmd));
}

#[test]
fn module_ops_require_namespace_switch() {
    let mut plane = ControlPlane::new();
    let ctx = Invocation { module_id: None, ns_ready: false };
    let r = run(&mut plane, &ctx, &["module", "list"]);
    assert!(matches!(r, Err(CmdError::NamespaceSwitchFailed)));
}

#[test]
fn umount_config_add_then_list_has_one_entry() {
    let mut plane = ControlPlane::new();
    let ctx = plain_ctx();
    assert!(matches!(
        run(&mut plane, &ctx, &["umount-config", "add", "/data/foo", "--flags", "2"]),
        Ok(Reply::Done)
    ));
    match run(&mut plane, &ctx, &["umount-config", "list"]) {
        Ok(Reply::Mounts(l)) => {
            let hits: Vec<&_> = l.iter().filter(|e| e.path == "/data/foo").collect();
            assert_eq!(hits.len(), 1);
            assert_eq!(hits[0].flags, 2);
        },
        _ => panic!("expected the mount listing"),
    }
}

#[test]
fn dynamic_manager_set_then_get_round_trips() {
    let mut plane = ControlPlane::new();
    let ctx = plain_ctx();
    let h = "b".repeat(64);
    assert!(matches!(
        run(&mut plane, &ctx, &["kernel", "dynamic-manager", "set", "4", &h]),
        Ok(Reply::Done)
    ));
    match run(&mut plane, &ctx, &["kernel", "dynamic-manager", "get"]) {
        Ok(Reply::Anchor { binding: Some((size, hash)) }) => {
            assert_eq!(size, 4);
            assert_eq!(hash, h.as_bytes());
        },
        _ => panic!("expected the installed binding"),
    }
}

#[test]
fn dynamic_manager_rejects_short_hash_without_effect() {
    let mut plane = ControlPlane::new();
    let ctx = plain_ctx();
    let r = run(&mut plane, &ctx, &["kernel", "dynamic-manager", "set", "4", "short"]);
    assert!(matches!(r, Err(CmdError::Anchor(_))));
    match run(&mut plane, &ctx, &["kernel", "dynamic-manager", "get"]) {
        Ok(Reply::Anchor { binding }) => assert!(binding.is_none()),
        _ => panic!("expected an anchor reply"),
    }
}

#[test]
fn dynamic_manager_clear_reports_absent() {
    let mut plane = ControlPlane::new();
    let ctx = plain_ctx();
    let h = "c".repeat(64);
    assert!(run(&mut plane, &ctx, &["kernel", "dynamic-manager", "set", "9", &h]).is_ok());
    assert!(matches!(
        run(&mut plane, &ctx, &["kernel", "dynamic-manager", "clear"]),
        Ok(Reply::Done)
    ));
    match run(&mut plane, &ctx, &["kernel", "dynamic-manager", "get"]) {
        Ok(Reply::Anchor { binding }) => assert!(binding.is_none()),
        _ => panic!("expected an anchor reply"),
    }
}

#[test]
fn kernel_umount_list_is_json() {
    let mut plane = ControlPlane::new();
    let ctx = plain_ctx();
    assert!(run(&mut plane, &ctx, &["kernel", "umount", "add", "/data/foo", "-f", "2"]).is_ok());
    match run(&mut plane, &ctx, &["kernel", "umount", "list"]) {
        Ok(Reply::Json(s)) => assert_eq!(s, "[[\"/data/foo\",2]]"),
        _ => panic!("expected a JSON listing"),
    }
}

#[test]
fn persisted_and_live_umount_lists_are_independent() {
    let mut plane = ControlPlane::new();
    let ctx = plain_ctx();
    assert!(run(&mut plane, &ctx, &["umount-config", "add", "/persist", "-f", "1"]).is_ok());
    assert!(run(&mut plane, &ctx, &["kernel", "umount", "add", "/live", "-f", "2"]).is_ok());
    match run(&mut plane, &ctx, &["umount-config", "list"]) {
        Ok(Reply::Mounts(l)) => {
            assert_eq!(l.len(), 1);
            assert_eq!(l[0].path, "/persist");
        },
        _ => panic!("expected the persisted listing"),
    }
    match run(&mut plane, &ctx, &["kernel", "umount", "list"]) {
        Ok(Reply::Json(s)) => assert_eq!(s, "[[\"/live\",2]]"),
        _ => panic!("expected the live listing"),
    }
}

#[test]
fn wildcard_mark_is_delegated_then_counted() {
    let mut plane = ControlPlane::new();
    let ctx = plain_ctx();
    match run(&mut plane, &ctx, &["debug", "mark", "mark"]) {
        Ok(Reply::Delegate(CollabRequest::ListProcesses { refresh: false })) => {},
        _ => panic!("wildcard mark must ask for a process snapshot"),
    }
    let snapshot = vec![10, 20, 30];
    assert!(matches!(plane.apply_process_snapshot(false, &snapshot), Reply::Done));
    match run(&mut plane, &ctx, &["debug", "mark", "get"]) {
        Ok(Reply::MarkCount(c)) => assert_eq!(c, 3),
        _ => panic!("expected the marked count"),
    }
    match run(&mut plane, &ctx, &["debug", "mark", "get", "20"]) {
        Ok(Reply::Marked(b)) => assert!(b),
        _ => panic!("expected a mark flag"),
    }
}

#[test]
fn routed_unmark_of_unmarked_pid_is_noop_success() {
    let mut plane = ControlPlane::new();
    let ctx = plain_ctx();
    assert!(run(&mut plane, &ctx, &["debug", "mark", "mark", "5"]).is_ok());
    assert!(matches!(run(&mut plane, &ctx, &["debug", "mark", "unmark", "6"]), Ok(Reply::Done)));
    match run(&mut plane, &ctx, &["debug", "mark", "get"]) {
        Ok(Reply::MarkCount(c)) => assert_eq!(c, 1),
        _ => panic!("expected the marked count"),
    }
}

#[test]
fn stream_valued_config_set_is_delegated_then_stored() {
    let mut plane = ControlPlane::new();
    let ctx = module_ctx("m");
    let key = match run(&mut plane, &ctx, &["module", "config", "set", "mykey", "--stdin"]) {
        Ok(Reply::Delegate(CollabRequest::ReadValueStream { key, temp })) => {
            assert!(!temp);
            key
        },
        _ => panic!("a stream-valued set must be delegated"),
    };
    let value = "line one\nline two".to_string();
    assert!(matches!(
        plane.config_set_value(&"m".to_string(), &key, &value, false),
        Ok(Reply::Done)
    ));
    match run(&mut plane, &ctx, &["module", "config", "get", "mykey"]) {
        Ok(Reply::Text(v)) => assert_eq!(v, value),
        _ => panic!("expected the streamed value back"),
    }
}

#[test]
fn collaborator_commands_are_delegated_untouched() {
    let mut plane = ControlPlane::new();
    let ctx = plain_ctx();
    match run(&mut plane, &ctx, &["sepolicy", "check", "allow a b:c d"]) {
        Ok(Reply::Delegate(CollabRequest::Sepolicy(_))) => {},
        _ => panic!("sepolicy work belongs to a collaborator"),
    }
    match run(&mut plane, &ctx, &["debug", "set-manager"]) {
        Ok(Reply::Delegate(CollabRequest::SetManager { apk })) => {
            assert_eq!(apk, "com.resukisu.resukisu")
        },
        _ => panic!("expected the default manager package"),
    }
    match run(&mut plane, &ctx, &["kernel", "dynamic-manager", "set-from-app", "/a.apk"]) {
        Ok(Reply::Delegate(CollabRequest::ExtractForAnchor { apk })) => assert_eq!(apk, "/a.apk"),
        _ => panic!("signature extraction belongs to a collaborator"),
    }
}
