use vcam_proxy::cli_cmds::{
    drain_step, list_loopback_devices, one_shot, print_settings_table, setup_access, setup_loaded,
    setup_module, setup_scan, setup_summary, setup_target, source_num, DrainStep, OneShot,
    SetupTarget,
};
use vcam_proxy::config::{Config, FormatPref, ResolvedConfig, SinkKind};
use vcam_proxy::messages;
use vcam_proxy::settings::{ConfigRead, CreateStep, Settings};
use vcam_proxy::sink::v4l2loop::discovery::DeviceInfo;
use vcam_proxy::sink::v4l2loop::module::ModuleError;
use vcam_proxy::sink::v4l2loop::permissions::AccessError;

#[test]
fn default_settings_match_the_documentation() {
    let s = Settings::default();
    assert_eq!((s.camera, s.width, s.height, s.fps, s.buffers), (0, 1280, 720, 30, 4));
    assert_eq!(s.device, "/dev/video10");
    assert_eq!(s.format, FormatPref::Auto);
    assert_eq!((s.retry_ms, s.devices, s.exclusive_caps, s.timeout), (1000, 1, 1, 0));
    assert!(s.multi_reader && s.auto_load_module && s.auto_resolution);
}

#[test]
fn config_path_is_under_the_config_directory() {
    assert_eq!(
        Settings::config_path(Some("/home/u/.config")),
        "/home/u/.config/vcam-proxy/config.toml"
    );
    assert_eq!(Settings::config_path(Some("/x/")), "/x/vcam-proxy/config.toml");
    assert_eq!(Settings::config_path(None), "/tmp/vcam-proxy/config.toml");
}

#[test]
fn bad_config_files_give_defaults() {
    for read in [ConfigRead::Missing, ConfigRead::Unreadable, ConfigRead::Invalid] {
        assert_eq!(Settings::load(read).width, 1280);
    }
    let mut s = Settings::default();
    s.width = 640;
    assert_eq!(Settings::load(ConfigRead::Parsed(s)).width, 640);
    assert_eq!(Settings::create_default_file(true), CreateStep::Keep);
    assert_eq!(Settings::create_default_file(false), CreateStep::WriteDefaults);
}

#[test]
fn cli_overrides_win() {
    let settings = Settings::default();
    let mut cli = Config::bare();
    cli.camera = Some(3);
    cli.device = Some("/dev/video42".to_string());
    cli.timeout = Some(7);
    cli.sink = Some(SinkKind::Null);
    cli.multi_reader = Some(false);
    let cfg = ResolvedConfig::from_cli_and_settings(&cli, &settings);
    assert_eq!((cfg.camera, cfg.timeout, cfg.sink), (3, 7, SinkKind::Null));
    assert_eq!(cfg.device, "/dev/video42");
    assert_eq!(cfg.pipe_name, "vcam_proxy_0");
    assert!(!cfg.multi_reader);
    assert!(cfg.auto_resolution);
    assert_eq!((cfg.width, cfg.height), (1280, 720));
}

#[test]
fn pinned_geometry_turns_auto_resolution_off() {
    let settings = Settings::default();
    let mut cli = Config::bare();
    cli.width = Some(640);
    let cfg = ResolvedConfig::from_cli_and_settings(&cli, &settings);
    assert_eq!((cfg.width, cfg.height, cfg.auto_resolution), (640, 720, false));
    let mut cli = Config::bare();
    cli.height = Some(480);
    assert!(!ResolvedConfig::from_cli_and_settings(&cli, &settings).auto_resolution);
    let mut cli = Config::bare();
    cli.image = Some("a.png".to_string());
    let cfg = ResolvedConfig::from_cli_and_settings(&cli, &settings);
    assert_eq!(cfg.image.as_deref(), Some("a.png"));
    assert!(!cfg.auto_resolution);
}

#[test]
fn settings_round_trip() {
    let mut s = Settings::default();
    s.camera = 2;
    s.device = "/dev/video7".to_string();
    s.format = FormatPref::Nv12;
    s.auto_resolution = false;
    let back = ResolvedConfig::from_settings(&s).to_settings();
    assert_eq!(format!("{s:?}"), format!("{back:?}"));
}

#[test]
fn zeroes_are_sanitized() {
    let mut cfg = ResolvedConfig::from_settings(&Settings::default());
    cfg.width = 0;
    cfg.height = 0;
    cfg.fps = 0;
    cfg.buffers = 0;
    cfg.devices = 0;
    let clean = cfg.sanitized();
    assert_eq!((clean.width, clean.height, clean.fps, clean.buffers), (1280, 720, 30, 4));
    assert_eq!(clean.devices, 0);
    let again = clean.clone().sanitized();
    assert_eq!(format!("{clean:?}"), format!("{again:?}"));
}

#[test]
fn one_shots_have_an_order() {
    let mut cli = Config::bare();
    assert_eq!(one_shot(&cli), None);
    cli.setup = true;
    assert_eq!(one_shot(&cli), Some(OneShot::Setup));
    cli.list_loopback = true;
    assert_eq!(one_shot(&cli), Some(OneShot::ListLoopback));
    cli.list = true;
    assert_eq!(one_shot(&cli), Some(OneShot::ListCameras));
    cli.save_config = true;
    assert_eq!(one_shot(&cli), Some(OneShot::SaveConfig));
    cli.show_config = true;
    assert_eq!(one_shot(&cli), Some(OneShot::ShowConfig));
    cli.edit_config = true;
    assert_eq!(one_shot(&cli), Some(OneShot::EditConfig));
}

#[test]
fn number_sources() {
    assert_eq!(source_num(5, 6, 6), 'C');
    assert_eq!(source_num(6, 6, 5), 'F');
    assert_eq!(source_num(5, 5, 5), 'D');
}

#[test]
fn settings_table_lists_every_setting() {
    let mut settings = Settings::default();
    settings.fps = 60;
    let mut cli = Config::bare();
    cli.width = Some(640);
    let cfg = ResolvedConfig::from_cli_and_settings(&cli, &settings);
    let table = print_settings_table(&cfg, &settings, "/c.toml");
    let rule = "-".repeat(60);
    let expected = [
        "Current settings (source: [C]LI / [F]ile / [D]efault):",
        &rule,
        "  camera               0               [D]",
        "  device               /dev/video10    [D]",
        "  width                640             [C]",
        "  height               720             [D]",
        "  fps                  60              [F]",
        "  buffers              4               [D]",
        "  retry_ms             1000            [D]",
        "  multi_reader         true            [D]",
        "  devices              1               [D]",
        "  exclusive_caps       1               [D]",
        "  timeout              0               [D]",
        "  auto_load_module     true            [D]",
        "  auto_resolution      false           [C]",
        &rule,
        "",
        "Config file: /c.toml",
        "Edit: tray → Settings…  or  vcam-proxy --edit-config",
    ]
    .join("\n");
    assert_eq!(table, expected);
}

#[test]
fn every_row_of_the_table_names_its_source() {
    let sources = |cfg: &ResolvedConfig, settings: &Settings| -> Vec<char> {
        print_settings_table(cfg, settings, "/c.toml")
            .lines()
            .filter(|l| l.starts_with("  "))
            .map(|l| l.chars().rev().nth(1).unwrap())
            .collect()
    };
    let mut settings = Settings::default();
    let cfg = ResolvedConfig::from_settings(&settings);
    assert_eq!(sources(&cfg, &settings), ['D'; 13]);
    settings.camera = 1;
    settings.device = "/dev/video3".to_string();
    settings.width = 1;
    settings.height = 1;
    settings.fps = 1;
    settings.buffers = 1;
    settings.retry_ms = 1;
    settings.multi_reader = false;
    settings.devices = 2;
    settings.exclusive_caps = 0;
    settings.timeout = 1;
    settings.auto_load_module = false;
    settings.auto_resolution = false;
    let cfg = ResolvedConfig::from_settings(&settings);
    assert_eq!(sources(&cfg, &settings), ['F'; 13]);
}

fn devices() -> Vec<DeviceInfo> {
    vec![
        DeviceInfo {
            path: "/dev/video0".to_string(),
            card: "Webcam".to_string(),
            driver: "uvcvideo".to_string(),
        },
        DeviceInfo {
            path: "/dev/video10".to_string(),
            card: "vcam".to_string(),
            driver: "v4l2 loopback".to_string(),
        },
    ]
}

#[test]
fn device_list_marks_loopback_nodes() {
    assert_eq!(
        list_loopback_devices(&devices()),
        "Video output devices (2 found):\n  /dev/video0 Webcam\n  /dev/video10 vcam [v4l2loopback ✓]"
    );
    assert_eq!(
        list_loopback_devices(&Vec::new()),
        messages::print_no_loopback_list_hint()
    );
}

#[test]
fn setup_reports_each_step() {
    assert_eq!(
        setup_module(true),
        "[1/4] Checking v4l2loopback kernel module... ✓ already loaded\n"
    );
    assert!(setup_module(false).ends_with("(with auto-install)... "));
    let part = setup_loaded(&Ok(()));
    assert!(part.ok && part.text == "✓ loaded successfully\n");
    let part = setup_loaded(&Err(ModuleError::DistroNotSupported));
    assert!(!part.ok);
    assert!(part.text.starts_with("✗ failed: cannot auto-install"));
    let part = setup_scan(&Ok(devices()));
    assert!(part.ok);
    assert_eq!(
        part.text,
        "\n[2/4] Scanning for video output devices... ✓ found 2 device(s):\n\
         \x20       - /dev/video0 [Webcam] (not v4l2loopback)\n\
         \x20       - /dev/video10 [vcam] ✓\n"
    );
    assert!(!setup_scan(&Ok(Vec::new())).ok);
    let part = setup_scan(&Err("denied".to_string()));
    assert!(!part.ok && part.text.ends_with("✗ scan failed: denied\n"));
}

#[test]
fn setup_tests_one_device() {
    assert!(matches!(setup_target(true, &Ok(devices())), SetupTarget::Configured));
    assert!(matches!(setup_target(false, &Ok(Vec::new())), SetupTarget::Nothing));
    let target = setup_target(false, &Ok(devices()));
    let part = setup_access(&target, &Ok(()));
    assert!(part.ok);
    assert_eq!(
        part.text,
        "\n[3/4] Checking device permissions... (testing /dev/video0) ✓ accessible\n"
    );
    let denied = AccessError::NotFound { path: "/dev/video9".to_string() };
    let part = setup_access(&SetupTarget::Configured, &Err(denied));
    assert!(!part.ok);
    assert!(part.text.contains("✗ device /dev/video9 does not exist\n"));
    let part = setup_access(&SetupTarget::Nothing, &Ok(()));
    assert!(part.ok && part.text.ends_with("? no device to test (load module first)\n"));
    let good = || setup_scan(&Ok(devices()));
    let bad = || setup_scan(&Ok(Vec::new()));
    assert!(setup_summary(&Vec::new()).contains("Everything looks good"));
    assert!(setup_summary(&vec![good(), good()]).contains("Everything looks good"));
    for parts in [vec![bad(), good()], vec![good(), bad()]] {
        let text = setup_summary(&parts);
        assert!(!text.contains("Everything looks good"));
        assert!(text.ends_with("=== setup complete ==="));
    }
}

#[test]
fn dry_run_logs_every_thirtieth_frame() {
    let mut count = 28u64;
    assert_eq!(drain_step(true, false, &mut count), DrainStep::Release { log: false });
    assert_eq!(drain_step(true, true, &mut count), DrainStep::Release { log: true });
    assert_eq!(count, 30);
    assert_eq!(drain_step(false, false, &mut count), DrainStep::Wait);
    assert_eq!(drain_step(false, true, &mut count), DrainStep::Stop);
    assert_eq!(count, 30);
}
