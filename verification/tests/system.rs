use vcam_proxy::config::{FormatPref, ResolvedConfig};
use vcam_proxy::controller::{
    access_guidance, announces_extra_nodes, auto_load_guidance, build_sink, capture_source,
    effective_devices, ensure_module, ensure_multi_node, loopback_guidance, poll_end, pool_size,
    run, warns_of_format, CaptureSource, ModuleFacts, ModuleNotice, NodesAction,
    NodesEvent, RunAction, RunEvent, SinkPlan,
};
use vcam_proxy::grab::{blank, frame_file, frame_len, grab_step, GrabRead, GrabStep};
use vcam_proxy::messages;
use vcam_proxy::settings::Settings;
use vcam_proxy::shutdown::Shutdown;
use vcam_proxy::sink::v4l2loop::discovery::{
    device_is_loopback, device_number, discover_loopback_devices, driver_for, file_name,
    find_loopback_device, is_loopback_driver, loopback_paths, DeviceInfo, LoopbackDevice,
    LoopbackError, SysfsEntry,
};
use vcam_proxy::sink::v4l2loop::module::ModuleError;
use vcam_proxy::sink::v4l2loop::permissions::{
    check_device_access, exclusive_caps_active, max_openers, AccessError, OpenOutcome,
};
use vcam_proxy::sink::v4l2loop::usage::{
    all_loopback_user_pids, all_loopback_users, device_users, ProcEntry,
};
use vcam_proxy::sink::{Backend, Platform};
use vcam_proxy::tray::{flipped, icon_name, menu, title, SinkSwitch, TrayAction, TrayEntry};
use vcam_proxy::ui::{
    device_label, live_after, settings_to_resolved, usage_label, App, Button, FrameInput,
    FrameOutcome, GuiState, WindowCommand,
};

fn cfg() -> ResolvedConfig {
    ResolvedConfig::from_settings(&Settings::default())
}

fn some(s: &str) -> Option<String> {
    Some(s.to_string())
}

fn device(path: &str, driver: &str) -> DeviceInfo {
    DeviceInfo { path: path.to_string(), card: "c".to_string(), driver: driver.to_string() }
}

#[test]
fn file_names() {
    assert_eq!(file_name("/dev/video0"), some("video0"));
    assert_eq!(file_name("a/b/"), some("b"));
    assert_eq!(file_name("a/."), some("a"));
    assert_eq!(file_name("a/.."), None);
    assert_eq!(file_name("/"), None);
    assert_eq!(file_name(""), None);
}

#[test]
fn device_numbers() {
    assert_eq!(device_number("/dev/video0"), 0);
    assert_eq!(device_number("/dev/video10"), 10);
    assert_eq!(device_number("/dev/video"), u32::MAX);
    assert_eq!(device_number("/dev/videoX"), u32::MAX);
    assert_eq!(device_number("/dev/media0"), u32::MAX);
}

#[test]
fn loopback_drivers_have_two_names() {
    assert!(is_loopback_driver("v4l2loopback"));
    assert!(is_loopback_driver("v4l2 loopback"));
    assert!(!is_loopback_driver("uvcvideo"));
    assert!(!is_loopback_driver(""));
}

#[test]
fn the_driver_link_comes_first() {
    let link = some("../../../bus/usb/drivers/uvcvideo");
    assert_eq!(driver_for(&link, &some("v4l2 loopback")), "uvcvideo");
    assert_eq!(driver_for(&None, &some("v4l2 loopback")), "v4l2 loopback");
    assert_eq!(driver_for(&None, &None), "");
    assert!(device_is_loopback(true, &None, &some("v4l2 loopback")));
    assert!(!device_is_loopback(true, &link, &some("v4l2 loopback")));
    assert!(device_is_loopback(false, &link, &some("v4l2 loopback")));
    assert!(!device_is_loopback(false, &None, &None));
}

fn entry(name: &str, node_exists: bool) -> SysfsEntry {
    SysfsEntry {
        name: name.to_string(),
        node_exists,
        card: some(" Cam \n"),
        link: None,
        queried: some("v4l2 loopback"),
    }
}

#[test]
fn devices_come_in_natural_order() {
    let entries = vec![
        entry("video10", true),
        entry("video2", true),
        entry("video7", false),
        entry("media0", true),
        entry("video0", true),
    ];
    let found = discover_loopback_devices(&entries);
    let paths: Vec<_> = found.iter().map(|d| d.path.as_str()).collect();
    assert_eq!(paths, ["/dev/video0", "/dev/video2", "/dev/video10"]);
    assert_eq!(found[0].card, "Cam");
    assert_eq!(found[0].driver, "v4l2 loopback");
}

#[test]
fn only_loopback_devices_are_chosen() {
    let scan = Ok(vec![device("/dev/video0", "uvcvideo"), device("/dev/video3", "v4l2loopback")]);
    let find = |p: &str, e, l, s: &Result<Vec<DeviceInfo>, String>| find_loopback_device(p, e, l, s);
    assert_eq!(find("/dev/video9", true, true, &scan).unwrap(), "/dev/video9");
    assert_eq!(find("/dev/video9", true, false, &scan).unwrap(), "/dev/video3");
    assert_eq!(find("/dev/video9", false, false, &scan).unwrap(), "/dev/video3");
    assert_eq!(find("", true, true, &scan).unwrap(), "/dev/video3");
    let none = Ok(vec![device("/dev/video0", "uvcvideo")]);
    let e = find("", false, false, &none).unwrap_err();
    assert_eq!(e.message(), "no v4l2loopback virtual camera device found on this system");
    let e = find("", false, false, &Err("denied".to_string())).unwrap_err();
    assert_eq!(e.message(), "error scanning /dev/video*: denied");
    assert_eq!(loopback_paths(&scan.unwrap()), ["/dev/video3"]);
}

#[test]
fn output_devices_are_described() {
    let d = LoopbackDevice {
        path: "/dev/video1".to_string(),
        driver: "v4l2 loopback".to_string(),
        card: "vcam".to_string(),
        bus: "platform".to_string(),
        version: "6.1.0".to_string(),
        capabilities: 0x85200002,
    };
    assert_eq!(d.line(), "/dev/video1 [vcam] (driver: v4l2 loopback, caps: 0x85200002)");
}

#[test]
fn access_errors_carry_advice() {
    assert!(check_device_access("/dev/v", true, OpenOutcome::Opened, None).is_ok());
    let e = check_device_access("/dev/v", false, OpenOutcome::Opened, None).unwrap_err();
    assert_eq!(e.message(), "device /dev/v does not exist");
    let e = check_device_access("/dev/v", true, OpenOutcome::PermissionDenied, Some("u video"))
        .unwrap_err();
    assert_eq!(
        e.message(),
        "permission denied on /dev/v. User is in 'video' group but device is not writable. \
         Try: sudo chmod 0660 {} OR relogin"
    );
    let e =
        check_device_access("/dev/v", true, OpenOutcome::PermissionDenied, Some("u")).unwrap_err();
    assert!(e.message().ends_with("(Temporary: sudo chmod 0660 /dev/v)"));
    let e = check_device_access("/dev/v", true, OpenOutcome::Failed("busy".to_string()), None)
        .unwrap_err();
    assert_eq!(e.message(), "cannot access device /dev/v: busy");
}

#[test]
fn module_parameters_are_read() {
    assert_eq!(exclusive_caps_active(Some("Y,N,N\n")), Some(true));
    assert_eq!(exclusive_caps_active(Some("1\n")), Some(true));
    assert_eq!(exclusive_caps_active(Some("N,Y")), Some(true));
    assert_eq!(exclusive_caps_active(Some("0, y ,0")), Some(true));
    assert_eq!(exclusive_caps_active(Some("N,N\n")), Some(false));
    assert_eq!(exclusive_caps_active(Some("")), Some(false));
    assert_eq!(exclusive_caps_active(None), None);
    assert_eq!(max_openers(Some("16,16\n")), Some(16));
    assert_eq!(max_openers(Some("x")), None);
    assert_eq!(max_openers(None), None);
}

fn process(name: &str, targets: Option<Vec<&str>>, comm: Option<&str>) -> ProcEntry {
    ProcEntry {
        name: name.to_string(),
        targets: targets.map(|t| t.iter().map(|s| s.to_string()).collect()),
        comm: comm.map(|c| c.to_string()),
    }
}

#[test]
fn device_users_are_found() {
    let entries = vec![
        process("1", Some(vec!["/dev/null", "/dev/video1"]), Some("obs\n")),
        process("self", Some(vec!["/dev/video1"]), Some("x")),
        process("2", None, Some("root")),
        process("3", Some(vec!["/dev/video1", "/dev/video2"]), None),
    ];
    let users = device_users("/dev/video1", &entries);
    let seen: Vec<_> = users.iter().map(|u| (u.pid, u.comm.as_str())).collect();
    assert_eq!(seen, [(1, "obs"), (3, "<unknown>")]);
    assert!(device_users("/dev/video9", &entries).is_empty());

    let scan = Ok(vec![
        device("/dev/video0", "uvcvideo"),
        device("/dev/video1", "v4l2loopback"),
        device("/dev/video2", "v4l2loopback"),
    ]);
    let all = all_loopback_users(&scan, &entries);
    assert_eq!(all.len(), 2);
    assert_eq!(all[1].0.path, "/dev/video2");
    assert_eq!(all[1].1.len(), 1);
    let pids: Vec<_> = all_loopback_user_pids(&all).iter().map(|u| u.pid).collect();
    assert_eq!(pids, [1, 3]);
    assert!(all_loopback_users(&Err("x".to_string()), &entries).is_empty());
}

#[test]
fn module_params_are_built() {
    assert_eq!(messages::module_params(1, 1, 0), messages::DEFAULT_MODULE_PARAMS);
    assert_eq!(
        messages::module_params(0, 3, 500),
        "exclusive_caps=0 card_label=vcam-proxy devices=3 video_nr=10,11,12 max_buffers=4 \
         max_openers=16 timeout=500"
    );
    assert!(messages::module_params(1, 0, 0).contains("devices=1 video_nr=10 "));
    assert!(messages::module_params(1, 99, 0).contains("video_nr=10,11,12,13,14,15,16,17 "));
}

#[test]
fn messages_read_well() {
    assert_eq!(
        messages::note_multi_node_reload(2, 1),
        "Multi-node mode needs 2 virtual cameras but only 1 exist.\n\
         Reloading v4l2loopback (devices=2)...\n\
         Apps using the virtual camera must re-open it afterwards.\n\
         (A polkit authentication dialog may appear)"
    );
    assert_eq!(
        messages::note_multi_node_active(2, &vec!["/a".to_string(), "/b".to_string()]),
        "✓ Multi-node mode active: writing to 2 virtual cameras\n  App 1 can open: /a\n  App 2 can open: /b"
    );
    assert_eq!(
        messages::note_install_failed(100),
        "Package installation failed (exit code 100).\nCheck your network connection and try \
         again, or install manually."
    );
    assert_eq!(
        messages::warn_exclusive_caps_zero("p"),
        "WARNING: v4l2loopback is loaded with exclusive_caps=0.\n\
         Chrome, Firefox, Zoom, and Teams will NOT list the virtual camera.\n\
         OBS may still work. Reload the module:\n\
           sudo modprobe -r v4l2loopback\n\
           sudo modprobe v4l2loopback p"
    );
}

#[test]
fn multi_reader_wants_two_nodes() {
    let mut c = cfg();
    assert_eq!(effective_devices(&c), 2);
    assert!(announces_extra_nodes(&c));
    c.devices = 5;
    assert_eq!(effective_devices(&c), 5);
    assert!(!announces_extra_nodes(&c));
    c.devices = 99;
    assert_eq!(effective_devices(&c), 8);
    c.multi_reader = false;
    c.devices = 0;
    assert_eq!(effective_devices(&c), 1);
}

#[test]
fn rounds_follow_the_settings_window() {
    let current = cfg();
    let mut desired = cfg();
    desired.width = 0;
    desired.camera = 4;
    let mut gui = GuiState::new(desired, false);
    gui.restart = true;
    assert_eq!(poll_end(Some(&gui), false), Some(true));
    let next = gui.begin_round();
    assert_eq!((next.width, next.camera), (1280, 4));
    // The request was met.
    assert!(!gui.restart);
    assert_eq!(poll_end(Some(&gui), false), None);
    assert!(warns_of_format(FormatPref::Rgb24) && warns_of_format(FormatPref::Mjpeg));
    assert!(!warns_of_format(FormatPref::Auto));
    assert_eq!(pool_size(&current), Some((4, 1280 * 720 * 3)));
    let mut huge = cfg();
    huge.width = u32::MAX;
    huge.height = u32::MAX;
    assert_eq!(pool_size(&huge), None);
    assert!(matches!(capture_source(&current), CaptureSource::Camera));
    let mut still = cfg();
    still.image = some("a.png");
    assert!(matches!(capture_source(&still), CaptureSource::Image(p) if p == "a.png"));
}

#[test]
fn a_missing_module_is_loaded() {
    let mut c = cfg();
    let mut facts = ModuleFacts {
        loaded: false,
        exclusive_caps: None,
        single_streamer: None,
        max_openers: None,
    };
    assert_eq!(ensure_module(&c, facts), (vec![], true));
    c.auto_load_module = false;
    assert_eq!(ensure_module(&c, facts), (vec![], false));
    c.auto_load_module = true;
    facts = ModuleFacts {
        loaded: true,
        exclusive_caps: Some(false),
        single_streamer: Some(true),
        max_openers: Some(1),
    };
    assert_eq!(
        ensure_module(&c, facts),
        (
            vec![
                ModuleNotice::ExclusiveCapsOff,
                ModuleNotice::SingleStreamer,
                ModuleNotice::FewOpeners(1)
            ],
            false
        )
    );
    c.multi_reader = false;
    assert_eq!(ensure_module(&c, facts), (vec![ModuleNotice::ExclusiveCapsOff], false));
}

#[test]
fn failed_loads_are_explained() {
    let text = auto_load_guidance(&ModuleError::InstallFailed(3), "p");
    assert!(text.starts_with("Package installation failed (exit code 3)."));
    assert!(text.ends_with("sudo modprobe v4l2loopback p"));
    let text = auto_load_guidance(&ModuleError::LoadFailed { reason: "r".to_string() }, "p");
    assert!(text.starts_with("Failed to auto-load v4l2loopback module: module load failed: r\n"));
    assert!(auto_load_guidance(&ModuleError::PkexecNotAvailable, "p").starts_with("Note: pkexec"));
    assert!(auto_load_guidance(&ModuleError::DistroNotSupported, "p").starts_with("Auto-install"));
    assert!(loopback_guidance(&LoopbackError::NoDeviceFound).starts_with("Error: No v4l2loopback"));
    assert_eq!(
        loopback_guidance(&LoopbackError::ScanFailed { source: "s".to_string() }),
        "Error scanning for video devices: s"
    );
    let e = AccessError::Other { source: "busy".to_string(), path: "/a".to_string() };
    assert_eq!(access_guidance(&e, "/b"), "Error accessing /b: cannot access device /a: busy");
}

#[test]
fn missing_nodes_reload_the_module() {
    let step = |event| ensure_multi_node(2, "p", event);
    assert!(matches!(
        step(NodesEvent::Counted { loaded: true, current: 2 }),
        NodesAction::Done(None)
    ));
    assert!(matches!(
        step(NodesEvent::Counted { loaded: false, current: 0 }),
        NodesAction::Done(None)
    ));
    assert!(matches!(
        ensure_multi_node(1, "p", NodesEvent::Counted { loaded: true, current: 0 }),
        NodesAction::Done(None)
    ));
    assert!(matches!(
        step(NodesEvent::Counted { loaded: true, current: 1 }),
        NodesAction::Reload(_)
    ));
    let mut action = step(NodesEvent::Reloaded(Ok(())));
    let mut polls = 0;
    while let NodesAction::Poll { attempt, wait_ms } = action {
        assert_eq!(wait_ms, 200);
        polls += 1;
        action = step(NodesEvent::Polled { attempt, found: 1 });
    }
    assert_eq!(polls, 50);
    assert!(matches!(action, NodesAction::CountOnce));
    match step(NodesEvent::LastCount(1)) {
        NodesAction::Done(Some(text)) => {
            assert!(text.starts_with("WARNING: Module reloaded but only 1 device(s) found."))
        }
        _ => panic!("expected a warning"),
    }
    match step(NodesEvent::Polled { attempt: 7, found: 2 }) {
        NodesAction::Done(Some(text)) => {
            assert_eq!(text, "✓ Multi-node mode ready: 2 virtual cameras available")
        }
        _ => panic!("expected a note"),
    }
    match step(NodesEvent::Reloaded(Err(ModuleError::PkexecNotAvailable))) {
        NodesAction::Done(Some(text)) => assert!(text.starts_with("ERROR: Could not reload")),
        _ => panic!("expected an error"),
    }
}

#[test]
fn several_nodes_are_fed_at_once() {
    let devices = vec![
        device("/dev/video0", "uvcvideo"),
        device("/dev/video10", "v4l2loopback"),
        device("/dev/video11", "v4l2loopback"),
        device("/dev/video12", "v4l2loopback"),
    ];
    match build_sink(&cfg(), 2, "/dev/video10", "p", &devices, Platform::Linux) {
        SinkPlan::Multi { paths, text } => {
            assert_eq!(paths, ["/dev/video10", "/dev/video11"]);
            assert!(text.ends_with("App 2 can open: /dev/video11"));
        }
        _ => panic!("expected several nodes"),
    }
    let one = devices[..2].to_vec();
    match build_sink(&cfg(), 2, "/dev/video10", "p", &one, Platform::Linux) {
        SinkPlan::Single { backend: Backend::V4l2 { path }, native_readers, text } => {
            assert_eq!(path, "/dev/video10");
            assert!(!native_readers);
            assert!(text.unwrap().contains("Multi-node mode requested (2)"));
        }
        _ => panic!("expected one node"),
    }
    match build_sink(&cfg(), 1, "/dev/video10", "p", &devices, Platform::Linux) {
        SinkPlan::Single { native_readers, text, .. } => {
            assert!(native_readers && text.is_none())
        }
        _ => panic!("expected one node"),
    }
}

#[test]
fn waiting_ends_on_request() {
    assert_eq!(poll_end(None, false), None);
    assert_eq!(poll_end(None, true), Some(false));
    let mut gui = GuiState::new(cfg(), false);
    assert_eq!(poll_end(Some(&gui), false), None);
    gui.quit = true;
    assert_eq!(poll_end(Some(&gui), false), Some(false));
    gui.restart = true;
    assert_eq!(poll_end(Some(&gui), true), Some(true));
}

#[test]
fn the_run_goes_round() {
    let c = cfg();
    assert!(matches!(run(true, &c, RunEvent::RoundBegins), RunAction::DryRun));
    assert!(matches!(
        run(true, &c, RunEvent::DryRunEnded),
        RunAction::Finish { by_gui: false }
    ));
    match run(false, &c, RunEvent::RoundBegins) {
        RunAction::Prepare { nodes, params } => {
            assert_eq!(nodes, 2);
            assert_eq!(params, messages::module_params(1, 2, 0));
        }
        _ => panic!("expected preparation"),
    }
    assert!(matches!(
        run(false, &c, RunEvent::DeviceSought(Ok("/d".to_string()))),
        RunAction::CheckAccess(p) if p == "/d"
    ));
    assert!(matches!(
        run(false, &c, RunEvent::DeviceSought(Err(LoopbackError::NoDeviceFound))),
        RunAction::ExplainAndWait(_)
    ));
    assert!(matches!(
        run(false, &c, RunEvent::AccessChecked { path: "/d".to_string(), result: Ok(()) }),
        RunAction::Launch(p) if p == "/d"
    ));
    let denied = AccessError::NotFound { path: "/d".to_string() };
    match run(
        false,
        &c,
        RunEvent::AccessChecked { path: "/d".to_string(), result: Err(denied) },
    ) {
        RunAction::ExplainAndWait(text) => assert!(text.starts_with("Error: /d not found.")),
        _ => panic!("expected an explanation"),
    }
    assert!(matches!(
        run(false, &c, RunEvent::Waited { restart: true }),
        RunAction::NextRound { wait_ms: 0 }
    ));
    assert!(matches!(run(false, &c, RunEvent::Waited { restart: false }), RunAction::Exit(1)));
    assert!(matches!(
        run(false, &c, RunEvent::PipelineEnded { restart: true, quit: false }),
        RunAction::NextRound { wait_ms: 200 }
    ));
    assert!(matches!(
        run(false, &c, RunEvent::PipelineEnded { restart: true, quit: true }),
        RunAction::Finish { by_gui: true }
    ));
    assert!(matches!(
        run(false, &c, RunEvent::PipelineEnded { restart: false, quit: false }),
        RunAction::Finish { by_gui: false }
    ));
}

#[test]
fn handles_share_their_flag() {
    let shutdown = Shutdown::default();
    let other = shutdown.clone();
    assert!(!other.is_set());
    shutdown.request();
    assert!(other.is_set());
    let switch = SinkSwitch::new(true);
    let handle = switch.clone();
    assert!(handle.is_on());
    assert!(!switch.toggle());
    assert!(!handle.is_on());
    handle.set(true);
    assert!(switch.is_on());
    assert!(flipped(false));
    assert!(!flipped(true));
}

#[test]
fn the_tray_shows_the_switch() {
    assert_eq!(icon_name(true), "camera-web");
    assert_eq!(icon_name(false), "camera-web-disabled");
    assert_eq!(title(true), "vcam-proxy — Virtual Camera ON");
    assert_eq!(title(false), "vcam-proxy — Virtual Camera OFF");
    let entries = menu(true, false);
    assert_eq!(entries.len(), 3);
    assert!(matches!(
        entries[0],
        TrayEntry::Item { label: "Turn Virtual Camera OFF", action: TrayAction::Toggle, .. }
    ));
    assert!(matches!(entries[1], TrayEntry::Separator));
    assert!(matches!(entries[2], TrayEntry::Item { label: "Quit", action: TrayAction::Quit, .. }));
    let entries = menu(false, true);
    assert!(matches!(entries[0], TrayEntry::Item { label: "Turn Virtual Camera ON", .. }));
    assert!(matches!(
        entries[1],
        TrayEntry::Item { label: "Settings…", action: TrayAction::OpenSettings, .. }
    ));
}

#[test]
fn an_unedited_form_commits_unchanged() {
    let before = cfg();
    let app = App::new(&before, true);
    assert_eq!((app.width_text.as_str(), app.retry_text.as_str()), ("1280", "1000"));
    let mut after = before.clone();
    assert!(app.commit(&mut after).is_ok());
    assert_eq!(format!("{before:?}"), format!("{after:?}"));
}

#[test]
fn bad_fields_are_named() {
    let base = cfg();
    let fresh = || App::new(&base, true);
    let check = |app: App, message: &str| {
        let mut c = cfg();
        assert_eq!(app.commit(&mut c), Err(message.to_string()));
    };
    let mut app = fresh();
    app.camera_text = "x".to_string();
    check(app, "camera must be a number");
    let mut app = fresh();
    app.width_text = "-1".to_string();
    check(app, "width must be a number");
    let mut app = fresh();
    app.height_text = " 7".to_string();
    check(app, "height must be a number");
    let mut app = fresh();
    app.fps_text = "4294967296".to_string();
    check(app, "fps must be a number");
    let mut app = fresh();
    app.buffers_text = String::new();
    check(app, "buffers must be a number");
    let mut app = fresh();
    app.retry_text = "18446744073709551616".to_string();
    check(app, "retry_ms must be a number");
    let mut app = fresh();
    app.timeout_text = "1.5".to_string();
    check(app, "timeout must be a number");
    let mut app = fresh();
    app.exclusive_caps_text = "yes".to_string();
    check(app, "exclusive_caps must be 0 or 1");
    let mut app = fresh();
    app.devices_text = "?".to_string();
    check(app, "devices must be a number (1-8)");
    let mut app = fresh();
    app.multi_app_timeout_text = "+".to_string();
    check(app, "multi_app_timeout must be a number (seconds)");

    // Fields before the bad one are taken over.
    let mut app = fresh();
    app.camera_text = "+5".to_string();
    app.width_text = "w".to_string();
    app.device_text = "/x".to_string();
    let mut c = cfg();
    assert!(app.commit(&mut c).is_err());
    assert_eq!((c.camera, c.width, c.device.as_str()), (5, 1280, "/dev/video10"));
}

#[test]
fn buttons_save_apply_hide_and_quit() {
    let mut app = App::new(&cfg(), true);
    let mut desired = cfg();
    app.fps_text = "60".to_string();
    let pressed = app.press(Button::Save, &mut desired);
    assert_eq!(pressed.save.map(|s| s.fps), Some(60));
    assert!(!pressed.restart && !pressed.quit && app.visible);
    app.save_finished(Some("disk full"));
    assert_eq!(app.status, "Save failed: disk full");
    app.save_finished(None);
    assert_eq!(app.status, "");
    app.fps_text = "x".to_string();
    let pressed = app.press(Button::ApplyRestart, &mut desired);
    assert!(pressed.save.is_none() && !pressed.restart && app.visible);
    assert_eq!(app.status, "fps must be a number");
    app.fps_text = "25".to_string();
    let pressed = app.press(Button::ApplyReload, &mut desired);
    assert!(pressed.save.is_some() && pressed.restart && !app.visible);
    assert_eq!((app.status.as_str(), desired.fps), ("", 25));
    assert!(app.press(Button::Quit, &mut desired).quit);
    app.visible = true;
    app.press(Button::Hide, &mut desired);
    assert!(!app.visible);
    assert!(live_after(false, true, false));
    assert!(!live_after(true, false, true));
    assert!(live_after(true, false, false));
}

#[test]
fn window_commands_go_out_on_transitions() {
    let quiet = FrameInput { close_requested: false, shutting_down: false };
    let mut state = GuiState::new(cfg(), false);
    let mut app = App::new(&cfg(), false);
    assert_eq!(app.begin_frame(&mut state, quiet), (vec![], FrameOutcome::Hidden(200)));
    state.request_open();
    assert_eq!(
        app.begin_frame(&mut state, quiet),
        (vec![WindowCommand::Show, WindowCommand::Focus], FrameOutcome::Draw)
    );
    assert!(state.seen && !state.open_window);
    assert_eq!(app.begin_frame(&mut state, quiet), (vec![], FrameOutcome::Draw));
    let close = FrameInput { close_requested: true, shutting_down: false };
    assert_eq!(
        app.begin_frame(&mut state, close),
        (
            vec![WindowCommand::CancelClose, WindowCommand::Minimize],
            FrameOutcome::Hidden(200)
        )
    );
    assert_eq!(app.begin_frame(&mut state, quiet), (vec![], FrameOutcome::Hidden(200)));
    app.visible = true;
    assert_eq!(
        app.begin_frame(&mut state, quiet),
        (vec![WindowCommand::Show], FrameOutcome::Draw)
    );
    state.quit = true;
    assert_eq!(
        app.begin_frame(&mut state, quiet),
        (vec![WindowCommand::Close], FrameOutcome::Closing)
    );
    state.write_back(cfg(), false, true, false);
    assert!(!state.live_on && state.restart && !state.quit && state.seen);
}

#[test]
fn cameras_in_use_are_shown() {
    let entries = vec![
        process("12", Some(vec!["/a"]), Some("obs")),
        process("7", Some(vec!["/a"]), Some("zoom")),
    ];
    assert_eq!(usage_label(&device_users("/a", &entries)), "in use: obs (pid 12), zoom (pid 7)");
    assert_eq!(usage_label(&device_users("/b", &entries)), "free");
    assert_eq!(device_label("/a", "vcam"), "• /a  [vcam]");
    assert_eq!(settings_to_resolved(&Settings::default()).multi_app_timeout, 0);
}

#[test]
fn grabbing_skips_blank_frames() {
    assert_eq!(frame_len(320, 240), 153_600);
    assert!(blank(&[0, 0]) && !blank(&[0, 1]));
    assert_eq!(grab_step(GrabRead::Bytes(0), &[1, 1]), GrabStep::Sleep(10));
    assert_eq!(grab_step(GrabRead::Bytes(1), &[1, 1]), GrabStep::Sleep(5));
    assert_eq!(grab_step(GrabRead::Bytes(2), &[0, 0]), GrabStep::Skip);
    assert_eq!(grab_step(GrabRead::Bytes(2), &[0, 1]), GrabStep::Save);
    assert_eq!(grab_step(GrabRead::WouldBlock, &[]), GrabStep::Sleep(5));
    assert_eq!(grab_step(GrabRead::Failed, &[]), GrabStep::Fail);
    assert_eq!(frame_file(7), "frame_0007.yuyv");
    assert_eq!(frame_file(12345), "frame_12345.yuyv");
}
