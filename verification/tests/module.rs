use vcam_proxy::sink::v4l2loop::discovery::DeviceInfo;
use vcam_proxy::sink::v4l2loop::distro::{
    detect_distro, install_command, install_plan, install_result, Distro, InstallOutcome,
};
use vcam_proxy::sink::v4l2loop::module::{
    capture_single_streamer, count_loopback_devices, ensure_module_loaded_with_install,
    is_module_loaded, module_version, parse_version, EnsureAction, EnsureEvent, ModuleError,
    SINGLE_STREAMER_SINCE,
};
use vcam_proxy::sink::v4l2loop::module_ops::{
    load_module_with_params, load_module_with_params_force, unload_module, CommandOutcome,
    LoadAction, LoadEvent, UnloadAction, UnloadEvent,
};

#[test]
fn parses_plain_versions() {
    assert_eq!(parse_version("0.15.3"), Some((0, 15, 3)));
    assert_eq!(parse_version("0.12.7\n"), Some((0, 12, 7)));
    assert_eq!(parse_version("0.14.0"), Some((0, 14, 0)));
}

#[test]
fn parses_suffixed_patch() {
    assert_eq!(parse_version("0.15.3-dirty"), Some((0, 15, 3)));
    assert_eq!(parse_version("1.0.0rc1"), Some((1, 0, 0)));
}

#[test]
fn rejects_garbage() {
    assert_eq!(parse_version(""), None);
    assert_eq!(parse_version("0.15"), None);
    assert_eq!(parse_version("a.b.c"), None);
}

#[test]
fn single_streamer_threshold() {
    assert!((0, 15, 3) >= SINGLE_STREAMER_SINCE);
    assert!((0, 14, 0) >= SINGLE_STREAMER_SINCE);
    assert!((0, 13, 99) < SINGLE_STREAMER_SINCE);
    assert!((0, 12, 7) < SINGLE_STREAMER_SINCE);
}

#[test]
fn version_edge_cases() {
    assert_eq!(parse_version("1.2.3.4"), Some((1, 2, 3)));
    assert_eq!(parse_version("1.2.-dirty"), None);
    assert_eq!(parse_version("4294967296.0.0"), None);
    assert_eq!(parse_version(" 0.15.3 "), Some((0, 15, 3)));
    assert_eq!(module_version(None), None);
    assert_eq!(module_version(Some("0.13.1\n")), Some((0, 13, 1)));
}

#[test]
fn single_streamer_from_version() {
    assert_eq!(capture_single_streamer(None), None);
    assert_eq!(capture_single_streamer(Some((0, 14, 0))), Some(true));
    assert_eq!(capture_single_streamer(Some((1, 0, 0))), Some(true));
    assert_eq!(capture_single_streamer(Some((0, 13, 99))), Some(false));
}

#[test]
fn module_list_is_read_by_line() {
    assert!(is_module_loaded(Some("snd 1 0\nv4l2loopback 61440 0 - Live\n")));
    assert!(!is_module_loaded(Some("v4l2loopback_dkms 1 0\n")));
    assert!(!is_module_loaded(Some("x v4l2loopback 1\n")));
    assert!(!is_module_loaded(Some("")));
    assert!(!is_module_loaded(None));
}

fn device(driver: &str) -> DeviceInfo {
    DeviceInfo {
        path: "/dev/video0".to_string(),
        card: String::new(),
        driver: driver.to_string(),
    }
}

#[test]
fn loopback_devices_are_counted() {
    let list = vec![device("uvcvideo"), device("v4l2loopback"), device("v4l2 loopback")];
    assert_eq!(count_loopback_devices(&Ok(list)), 2);
    assert_eq!(count_loopback_devices(&Err("denied".to_string())), 0);
}

#[test]
fn ensure_loads_then_installs_once() {
    let load_failed = || ModuleError::LoadFailed { reason: "no module".to_string() };
    assert!(matches!(
        ensure_module_loaded_with_install(EnsureEvent::Checked(true)),
        EnsureAction::Done(Ok(()))
    ));
    assert!(matches!(
        ensure_module_loaded_with_install(EnsureEvent::Checked(false)),
        EnsureAction::Load
    ));
    assert!(matches!(
        ensure_module_loaded_with_install(EnsureEvent::Loaded(Ok(()))),
        EnsureAction::Done(Ok(()))
    ));
    assert!(matches!(
        ensure_module_loaded_with_install(EnsureEvent::Loaded(Err(ModuleError::NotInstalled {
            reason: "not found".to_string()
        }))),
        EnsureAction::Install
    ));
    assert!(matches!(
        ensure_module_loaded_with_install(EnsureEvent::Loaded(Err(load_failed()))),
        EnsureAction::Done(Err(ModuleError::LoadFailed { .. }))
    ));
    assert!(matches!(
        ensure_module_loaded_with_install(EnsureEvent::Loaded(Err(
            ModuleError::PkexecNotAvailable
        ))),
        EnsureAction::Done(Err(ModuleError::PkexecNotAvailable))
    ));
    assert!(matches!(
        ensure_module_loaded_with_install(EnsureEvent::Installed(Ok(()))),
        EnsureAction::Reload
    ));
    assert!(matches!(
        ensure_module_loaded_with_install(EnsureEvent::Installed(Err(
            ModuleError::InstallFailed(100)
        ))),
        EnsureAction::Done(Err(ModuleError::InstallFailed(100)))
    ));
    assert!(matches!(
        ensure_module_loaded_with_install(EnsureEvent::Reloaded(Err(load_failed()))),
        EnsureAction::Done(Err(ModuleError::LoadFailed { .. }))
    ));
}

#[test]
fn module_errors_read_well() {
    assert_eq!(
        ModuleError::NotInstalled { reason: "y".to_string() }.message(),
        "module load failed: y"
    );
    assert_eq!(
        ModuleError::LoadFailed { reason: "x".to_string() }.message(),
        "module load failed: x"
    );
    assert_eq!(
        ModuleError::PkexecNotAvailable.message(),
        "pkexec not available; run manually: sudo modprobe v4l2loopback exclusive_caps=1 \
         card_label=vcam-proxy devices=1"
    );
    assert_eq!(
        ModuleError::DistroNotSupported.message(),
        "cannot auto-install: unsupported Linux distribution. Install v4l2loopback-dkms manually"
    );
    assert_eq!(
        ModuleError::InstallFailed(-1).message(),
        "package install failed (exit code -1); check network and try installing \
         v4l2loopback-dkms manually"
    );
}

#[test]
fn loading_leaves_a_loaded_module_alone() {
    assert!(matches!(
        load_module_with_params("a=1", LoadEvent::Checked(true)),
        LoadAction::Done(Ok(()))
    ));
    assert!(matches!(
        load_module_with_params_force("a=1", LoadEvent::Checked(true)),
        LoadAction::Unload
    ));
}

#[test]
fn loading_passes_the_words_of_the_parameters() {
    match load_module_with_params("  exclusive_caps=1\tdevices=2 ", LoadEvent::Checked(false)) {
        LoadAction::Run { args, wait_ms } => {
            assert_eq!(args, ["exclusive_caps=1", "devices=2"]);
            assert_eq!(wait_ms, 0);
        }
        _ => panic!("expected modprobe"),
    }
    match load_module_with_params_force("x", LoadEvent::Unloaded(Ok(()))) {
        LoadAction::Run { args, wait_ms } => {
            assert_eq!(args, ["x"]);
            assert_eq!(wait_ms, 200);
        }
        _ => panic!("expected modprobe"),
    }
    assert!(matches!(
        load_module_with_params_force(
            "x",
            LoadEvent::Unloaded(Err(ModuleError::PkexecNotAvailable))
        ),
        LoadAction::Done(Err(ModuleError::PkexecNotAvailable))
    ));
}

#[test]
fn loading_polls_fifty_times() {
    let mut action = load_module_with_params("", LoadEvent::Ran(CommandOutcome::Succeeded));
    let mut polls = 0;
    while let LoadAction::Poll { attempt, .. } = action {
        polls += 1;
        action = load_module_with_params(
            "",
            LoadEvent::Polled { attempt, loaded: true, devices: 0 },
        );
    }
    assert_eq!(polls, 50);
    assert!(matches!(action, LoadAction::CheckOnce { wait_ms: 100 }));
    assert!(matches!(
        load_module_with_params("", LoadEvent::LastCheck(true)),
        LoadAction::Done(Ok(()))
    ));
    match load_module_with_params("", LoadEvent::LastCheck(false)) {
        LoadAction::Done(Err(e)) => assert_eq!(
            e.message(),
            "module load failed: modprobe reported success but module not visible in /proc/modules"
        ),
        _ => panic!("expected an error"),
    }
    assert!(matches!(
        load_module_with_params(
            "",
            LoadEvent::Polled { attempt: 3, loaded: true, devices: 1 }
        ),
        LoadAction::Done(Ok(()))
    ));
}

#[test]
fn failed_commands_are_explained() {
    let failed = |code| {
        LoadEvent::Ran(CommandOutcome::Failed { code, stderr: " not authorized\n".to_string() })
    };
    match load_module_with_params("", failed(Some(127))) {
        LoadAction::Done(Err(ModuleError::LoadFailed { reason })) => {
            assert_eq!(reason, "pkexec modprobe failed (exit Some(127)): not authorized")
        }
        _ => panic!("expected an error"),
    }
    match load_module_with_params("", failed(None)) {
        LoadAction::Done(Err(ModuleError::LoadFailed { reason })) => {
            assert_eq!(reason, "pkexec modprobe failed (exit None): not authorized")
        }
        _ => panic!("expected an error"),
    }
    let missing = LoadEvent::Ran(CommandOutcome::Failed {
        code: Some(1),
        stderr: "modprobe: FATAL: Module v4l2loopback not found in directory /lib/modules/6.1\n"
            .to_string(),
    });
    match load_module_with_params("", missing) {
        LoadAction::Done(Err(ModuleError::NotInstalled { reason })) => assert_eq!(
            reason,
            "pkexec modprobe failed (exit Some(1)): modprobe: FATAL: Module v4l2loopback not found in directory /lib/modules/6.1"
        ),
        _ => panic!("expected an error"),
    }
    assert!(matches!(
        load_module_with_params("", LoadEvent::Ran(CommandOutcome::NotFound)),
        LoadAction::Done(Err(ModuleError::PkexecNotAvailable))
    ));
    match load_module_with_params(
        "",
        LoadEvent::Ran(CommandOutcome::NotRun("out of memory".to_string())),
    ) {
        LoadAction::Done(Err(ModuleError::LoadFailed { reason })) => {
            assert_eq!(reason, "out of memory")
        }
        _ => panic!("expected an error"),
    }
}

#[test]
fn unloading_waits_for_the_module_to_go() {
    assert!(matches!(
        unload_module(UnloadEvent::Checked(false)),
        UnloadAction::Done(Ok(()))
    ));
    assert!(matches!(unload_module(UnloadEvent::Checked(true)), UnloadAction::Run));
    let mut action = unload_module(UnloadEvent::Ran(CommandOutcome::Succeeded));
    let mut polls = 0;
    while let UnloadAction::Poll { attempt, .. } = action {
        polls += 1;
        action = unload_module(UnloadEvent::Polled { attempt, loaded: true });
    }
    assert_eq!(polls, 50);
    match action {
        UnloadAction::Done(Err(e)) => assert_eq!(
            e.message(),
            "module load failed: module still loaded after modprobe -r"
        ),
        _ => panic!("expected an error"),
    }
    assert!(matches!(
        unload_module(UnloadEvent::Polled { attempt: 2, loaded: false }),
        UnloadAction::Done(Ok(()))
    ));
    match unload_module(UnloadEvent::Ran(CommandOutcome::Failed {
        code: Some(1),
        stderr: "in use".to_string(),
    })) {
        UnloadAction::Done(Err(ModuleError::LoadFailed { reason })) => {
            assert_eq!(reason, "pkexec modprobe -r failed (exit Some(1)): in use")
        }
        _ => panic!("expected an error"),
    }
}

#[test]
fn distributions_are_detected() {
    let of = |text: &str| detect_distro(Some(text));
    assert_eq!(of("NAME=x\nID=debian\n"), Distro::Debian);
    assert_eq!(of("ID=\"ubuntu\"\n"), Distro::Ubuntu);
    assert_eq!(of("ID=fedora\r\n"), Distro::Fedora);
    assert_eq!(of("ID=arch"), Distro::Arch);
    assert_eq!(of("ID=\"opensuse-leap\""), Distro::OpenSuse);
    assert_eq!(of("ID=linuxmint\nID_LIKE=\"ubuntu debian\"\n"), Distro::Debian);
    assert_eq!(of("ID=rocky\nID_LIKE=\"rhel centos fedora\"\n"), Distro::Fedora);
    assert_eq!(of("ID=cachyos\nID_LIKE=arch\n"), Distro::Arch);
    assert_eq!(of("ID=plan9\n"), Distro::Unknown);
    assert_eq!(of("ID=debian\nID=arch\n"), Distro::Arch);
    assert_eq!(detect_distro(None), Distro::Unknown);
}

#[test]
fn install_commands_match_the_distribution() {
    let (pm, args) = install_command(Distro::Ubuntu).unwrap();
    assert_eq!(pm, "apt-get");
    assert_eq!(args, ["install", "-y", "v4l2loopback-dkms", "v4l-utils"]);
    let (pm, args) = install_command(Distro::Arch).unwrap();
    assert_eq!(pm, "pacman");
    assert_eq!(args, ["-S", "--noconfirm", "v4l2loopback-dkms", "v4l-utils"]);
    let (pm, args) = install_command(Distro::Fedora).unwrap();
    assert_eq!(pm, "dnf");
    assert_eq!(args, ["install", "-y", "v4l2loopback"]);
    let (pm, _) = install_command(Distro::OpenSuse).unwrap();
    assert_eq!(pm, "zypper");
    assert!(install_command(Distro::Unknown).is_none());
}

#[test]
fn install_escalates_or_gives_up() {
    let plan = match install_plan(Distro::Debian, true, true) {
        Ok(plan) => plan,
        Err(_) => panic!("expected a plan"),
    };
    assert_eq!(plan.escalator, "pkexec");
    match install_plan(Distro::Debian, false, true) {
        Ok(plan) => assert_eq!(plan.escalator, "sudo"),
        Err(_) => panic!("expected a plan"),
    }
    assert!(matches!(
        install_plan(Distro::Debian, false, false),
        Err(ModuleError::PkexecNotAvailable)
    ));
    assert!(matches!(
        install_plan(Distro::Unknown, false, false),
        Err(ModuleError::DistroNotSupported)
    ));
    assert!(install_result(&plan, InstallOutcome::Succeeded).is_ok());
    assert!(matches!(
        install_result(&plan, InstallOutcome::Failed(Some(100))),
        Err(ModuleError::InstallFailed(100))
    ));
    assert!(matches!(
        install_result(&plan, InstallOutcome::Failed(None)),
        Err(ModuleError::InstallFailed(-1))
    ));
    match install_result(&plan, InstallOutcome::NotStarted("denied".to_string())) {
        Err(ModuleError::LoadFailed { reason }) => {
            assert_eq!(reason, "failed to invoke pkexec apt-get: denied")
        }
        _ => panic!("expected an error"),
    }
}
