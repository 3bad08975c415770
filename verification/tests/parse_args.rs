use ksud::parse::{is_root_shell_entry, parse};
use ksud::request::{
    BootInfoCmd, Command, ConfigCmd, DebugCmd, DynamicManagerCmd, FeatureCmd, InitEvent, KernelCmd,
    Kpm, MarkCmd, ModuleCmd, ParseError, SepolicyCmd, UmountCmd, UmountConfigCmd,
};

fn args(v: &[&str]) -> Vec<String> {
    v.iter().map(|s| s.to_string()).collect()
}

#[test]
fn empty_invocation_is_a_usage_error() {
    assert!(matches!(parse(&args(&[])), Err(ParseError::Empty)));
}

#[test]
fn unknown_group_names_the_token() {
    match parse(&args(&["frobnicate"])) {
        Err(ParseError::UnknownToken(t)) => assert_eq!(t, "frobnicate"),
        other => panic!("expected UnknownToken, got {:?}", describe(&other)),
    }
}

#[test]
fn unknown_action_names_the_token() {
    match parse(&args(&["module", "explode"])) {
        Err(ParseError::UnknownToken(t)) => assert_eq!(t, "explode"),
        other => panic!("expected UnknownToken, got {:?}", describe(&other)),
    }
}

#[test]
fn missing_argument_names_the_action() {
    match parse(&args(&["module", "install"])) {
        Err(ParseError::MissingArgument(t)) => assert_eq!(t, "install"),
        other => panic!("expected MissingArgument, got {:?}", describe(&other)),
    }
}

#[test]
fn trailing_argument_is_rejected() {
    match parse(&args(&["module", "list", "extra"])) {
        Err(ParseError::UnexpectedArgument(t)) => assert_eq!(t, "extra"),
        other => panic!("expected UnexpectedArgument, got {:?}", describe(&other)),
    }
}

#[test]
fn umount_config_add_with_flags() {
    match parse(&args(&["umount-config", "add", "/data/foo", "--flags", "2"])) {
        Ok(Command::UmountConfig(UmountConfigCmd::Add { mnt, flags })) => {
            assert_eq!(mnt, "/data/foo");
            assert_eq!(flags, 2);
        },
        other => panic!("unexpected result {:?}", describe(&other)),
    }
}

#[test]
fn umount_config_add_defaults_flags_to_zero() {
    match parse(&args(&["umount-config", "add", "/data/foo"])) {
        Ok(Command::UmountConfig(UmountConfigCmd::Add { mnt, flags })) => {
            assert_eq!(mnt, "/data/foo");
            assert_eq!(flags, 0);
        },
        other => panic!("unexpected result {:?}", describe(&other)),
    }
}

#[test]
fn bad_flag_number_names_the_token() {
    match parse(&args(&["umount-config", "add", "/p", "-f", "2x"])) {
        Err(ParseError::InvalidNumber(t)) => assert_eq!(t, "2x"),
        other => panic!("expected InvalidNumber, got {:?}", describe(&other)),
    }
}

#[test]
fn flag_number_over_u32_max_is_invalid() {
    match parse(&args(&["umount-config", "add", "/p", "-f", "4294967296"])) {
        Err(ParseError::InvalidNumber(t)) => assert_eq!(t, "4294967296"),
        other => panic!("expected InvalidNumber, got {:?}", describe(&other)),
    }
}

#[test]
fn config_set_with_positional_value_and_temp() {
    match parse(&args(&["module", "config", "set", "mykey", "myvalue", "--temp"])) {
        Ok(Command::Module(ModuleCmd::Config(ConfigCmd::SetVal { key, value, stdin, temp }))) => {
            assert_eq!(key, "mykey");
            assert_eq!(value.as_deref(), Some("myvalue"));
            assert!(!stdin);
            assert!(temp);
        },
        other => panic!("unexpected result {:?}", describe(&other)),
    }
}

#[test]
fn config_set_without_value_reads_stream() {
    match parse(&args(&["module", "config", "set", "mykey", "--stdin"])) {
        Ok(Command::Module(ModuleCmd::Config(ConfigCmd::SetVal { key, value, stdin, temp }))) => {
            assert_eq!(key, "mykey");
            assert!(value.is_none());
            assert!(stdin);
            assert!(!temp);
        },
        other => panic!("unexpected result {:?}", describe(&other)),
    }
}

#[test]
fn kernel_dynamic_manager_set_parses_size_and_hash() {
    let h = "a".repeat(64);
    match parse(&args(&["kernel", "dynamic-manager", "set", "4", &h])) {
        Ok(Command::Kernel(KernelCmd::DynamicManager(DynamicManagerCmd::SetRaw { size, hash }))) => {
            assert_eq!(size, 4);
            assert_eq!(hash, h);
        },
        other => panic!("unexpected result {:?}", describe(&other)),
    }
}

#[test]
fn kernel_umount_list_and_wipe() {
    assert!(matches!(
        parse(&args(&["kernel", "umount", "list"])),
        Ok(Command::Kernel(KernelCmd::Umount(UmountCmd::List)))
    ));
    assert!(matches!(
        parse(&args(&["kernel", "umount", "wipe"])),
        Ok(Command::Kernel(KernelCmd::Umount(UmountCmd::Wipe)))
    ));
}

#[test]
fn debug_mark_defaults_pid_to_wildcard() {
    assert!(matches!(
        parse(&args(&["debug", "mark", "get"])),
        Ok(Command::Debug(DebugCmd::Mark(MarkCmd::Get { pid: 0 })))
    ));
    assert!(matches!(
        parse(&args(&["debug", "mark", "unmark", "321"])),
        Ok(Command::Debug(DebugCmd::Mark(MarkCmd::Unmark { pid: 321 })))
    ));
    assert!(matches!(
        parse(&args(&["debug", "mark", "mark", "-5"])),
        Ok(Command::Debug(DebugCmd::Mark(MarkCmd::Mark { pid: -5 })))
    ));
}

#[test]
fn debug_set_manager_default_package() {
    assert!(matches!(
        parse(&args(&["debug", "set-manager"])),
        Ok(Command::Debug(DebugCmd::SetManager { apk: None }))
    ));
}

#[test]
fn sepolicy_and_feature_and_boot_info() {
    match parse(&args(&["sepolicy", "check", "allow a b:c d"])) {
        Ok(Command::Sepolicy(SepolicyCmd::Check { statement })) => {
            assert_eq!(statement, "allow a b:c d")
        },
        other => panic!("unexpected result {:?}", describe(&other)),
    }
    match parse(&args(&["feature", "set", "su_compat", "1"])) {
        Ok(Command::Feature(FeatureCmd::SetVal { id, value })) => {
            assert_eq!(id, "su_compat");
            assert_eq!(value, 1);
        },
        other => panic!("unexpected result {:?}", describe(&other)),
    }
    assert!(matches!(
        parse(&args(&["boot-info", "slot-suffix", "--ota"])),
        Ok(Command::BootInfo(BootInfoCmd::SlotSuffix { ota: true }))
    ));
    assert!(matches!(
        parse(&args(&["boot-info", "slot-suffix"])),
        Ok(Command::BootInfo(BootInfoCmd::SlotSuffix { ota: false }))
    ));
}

#[test]
fn kpm_requests_pass_through() {
    match parse(&args(&["kpm", "load", "/data/mod.kpm", "loud"])) {
        Ok(Command::Kpm(Kpm::Load { path, args: a })) => {
            assert_eq!(path, "/data/mod.kpm");
            assert_eq!(a.as_deref(), Some("loud"));
        },
        other => panic!("unexpected result {:?}", describe(&other)),
    }
    assert!(matches!(parse(&args(&["kpm", "num"])), Ok(Command::Kpm(Kpm::Num))));
}

#[test]
fn numeric_bounds_are_exact() {
    // largest flag value that fits
    match parse(&args(&["umount-config", "add", "/p", "-f", "4294967295"])) {
        Ok(Command::UmountConfig(UmountConfigCmd::Add { flags, .. })) => {
            assert_eq!(flags, u32::MAX)
        },
        other => panic!("unexpected result {:?}", describe(&other)),
    }
    // pid bounds of a signed 32-bit integer
    assert!(matches!(
        parse(&args(&["debug", "mark", "get", "2147483647"])),
        Ok(Command::Debug(DebugCmd::Mark(MarkCmd::Get { pid: i32::MAX })))
    ));
    assert!(matches!(
        parse(&args(&["debug", "mark", "get", "-2147483648"])),
        Ok(Command::Debug(DebugCmd::Mark(MarkCmd::Get { pid: i32::MIN })))
    ));
    assert!(matches!(
        parse(&args(&["debug", "mark", "get", "2147483648"])),
        Err(ParseError::InvalidNumber(_))
    ));
    assert!(matches!(
        parse(&args(&["debug", "mark", "get", "-2147483649"])),
        Err(ParseError::InvalidNumber(_))
    ));
    assert!(matches!(
        parse(&args(&["debug", "mark", "get", "-"])),
        Err(ParseError::InvalidNumber(_))
    ));
    // a 64-bit feature value
    match parse(&args(&["feature", "set", "f", "18446744073709551615"])) {
        Ok(Command::Feature(FeatureCmd::SetVal { value, .. })) => assert_eq!(value, u64::MAX),
        other => panic!("unexpected result {:?}", describe(&other)),
    }
    assert!(matches!(
        parse(&args(&["feature", "set", "f", "18446744073709551616"])),
        Err(ParseError::InvalidNumber(_))
    ));
}

#[test]
fn init_triggers_parse_as_bare_commands() {
    assert!(matches!(
        parse(&args(&["post-fs-data"])),
        Ok(Command::Init(InitEvent::PostFsData))
    ));
    assert!(matches!(parse(&args(&["services"])), Ok(Command::Init(InitEvent::Services))));
    assert!(matches!(
        parse(&args(&["boot-completed"])),
        Ok(Command::Init(InitEvent::BootCompleted))
    ));
    assert!(matches!(
        parse(&args(&["post-fs-data", "extra"])),
        Err(ParseError::UnexpectedArgument(_))
    ));
}

#[test]
fn root_shell_entry_names() {
    assert!(is_root_shell_entry(&"su".to_string()));
    assert!(is_root_shell_entry(&"/system/bin/su".to_string()));
    assert!(!is_root_shell_entry(&"ksud".to_string()));
}

fn describe(r: &Result<Command, ParseError>) -> &'static str {
    match r {
        Ok(_) => "Ok(..)",
        Err(ParseError::Empty) => "Err(Empty)",
        Err(ParseError::UnknownToken(_)) => "Err(UnknownToken)",
        Err(ParseError::MissingArgument(_)) => "Err(MissingArgument)",
        Err(ParseError::UnexpectedArgument(_)) => "Err(UnexpectedArgument)",
        Err(ParseError::InvalidNumber(_)) => "Err(InvalidNumber)",
    }
}
