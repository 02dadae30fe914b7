//! One-shot CLI utilities: list devices, setup wizard, settings table, dry-run.

use vstd::prelude::*;

use crate::config::Config;
use crate::config::ResolvedConfig;
use crate::messages;
use crate::settings::Settings;
use crate::sink::v4l2loop::discovery::is_loopback_driver;
use crate::sink::v4l2loop::discovery::loopback_name;
use crate::sink::v4l2loop::discovery::DeviceInfo;
use crate::sink::v4l2loop::module::ModuleError;
use crate::sink::v4l2loop::permissions::AccessError;
use crate::text::decimal;
use crate::text::pad_right;
use crate::text::same_text;

verus! {

// ---------------------------------------------------------------------------
// Dispatch
// ---------------------------------------------------------------------------

/// A utility that runs and exits.
#[derive(Clone, Copy, Debug, PartialEq, Eq, Structural)]
pub enum OneShot {
    EditConfig,
    ShowConfig,
    SaveConfig,
    ListCameras,
    ListLoopback,
    Setup,
}

/// The utility that the command line asks for, if any. Of several, the first in
/// this order runs.
pub fn one_shot(cli: &Config) -> (r: Option<OneShot>)
    ensures
        r == (if cli.edit_config {
            Some(OneShot::EditConfig)
        } else if cli.show_config {
            Some(OneShot::ShowConfig)
        } else if cli.save_config {
            Some(OneShot::SaveConfig)
        } else if cli.list {
            Some(OneShot::ListCameras)
        } else if cli.list_loopback {
            Some(OneShot::ListLoopback)
        } else if cli.setup {
            Some(OneShot::Setup)
        } else {
            None
        }),
        r == asked_for(*cli),
{
    if cli.edit_config {
        Some(OneShot::EditConfig)
    } else if cli.show_config {
        Some(OneShot::ShowConfig)
    } else if cli.save_config {
        Some(OneShot::SaveConfig)
    } else if cli.list {
        Some(OneShot::ListCameras)
    } else if cli.list_loopback {
        Some(OneShot::ListLoopback)
    } else if cli.setup {
        Some(OneShot::Setup)
    } else {
        None
    }
}

// ---------------------------------------------------------------------------
// The list of devices
// ---------------------------------------------------------------------------

/// The line of `--list-loopback` for a device.
pub open spec fn device_line(d: DeviceInfo) -> Seq<char> {
    "\n  "@ + d.path@ + " "@ + d.card@ + if loopback_name(d.driver@) {
        " [v4l2loopback ✓]"@
    } else {
        Seq::<char>::empty()
    }
}

/// The lines of `--list-loopback`.
pub open spec fn device_lines(devices: Seq<DeviceInfo>) -> Seq<char>
    decreases devices.len(),
{
    if devices.len() == 0 {
        Seq::empty()
    } else {
        device_lines(devices.drop_last()) + device_line(devices.last())
    }
}

/// All discovered output devices, as text.
pub fn list_loopback_devices(devices: &Vec<DeviceInfo>) -> (r: String)
    ensures
        r@ == (if devices@.len() == 0 {
            messages::print_no_loopback_list_hint_text()
        } else {
            "Video output devices ("@ + crate::text::decimal_digits(devices@.len())
                + " found):"@ + device_lines(devices@)
        }),
        r@ == device_list(devices@),
{
    if devices.len() == 0 {
        return messages::print_no_loopback_list_hint();
    }
    let mut r = "Video output devices (".to_owned();
    r.append(decimal(devices.len() as u64).as_str());
    r.append(" found):");
    let ghost head = r@;
    assert(head + device_lines(devices@.take(0)) =~= head);
    for i in 0..devices.len()
        invariant
            r@ == head + device_lines(devices@.take(i as int)),
    {
        assert(devices@.take(i + 1).drop_last() =~= devices@.take(i as int));
        let d = &devices[i];
        r.append("\n  ");
        r.append(d.path.as_str());
        r.append(" ");
        r.append(d.card.as_str());
        if is_loopback_driver(d.driver.as_str()) {
            r.append(" [v4l2loopback ✓]");
        }
        assert(r@ =~= head + device_lines(devices@.take(i + 1)));
    }
    assert(devices@.take(devices@.len() as int) =~= devices@);
    r
}

// ---------------------------------------------------------------------------
// The settings table
// ---------------------------------------------------------------------------

/// Where a value comes from: `C` for the command line, `F` for the config file,
/// `D` for the default.
pub open spec fn value_source<T>(effective: T, file: T, default: T) -> char {
    if effective != file {
        'C'
    } else if file != default {
        'F'
    } else {
        'D'
    }
}

/// Where a number comes from.
pub fn source_num(effective: u64, file: u64, default: u64) -> (r: char)
    ensures
        r == value_source(effective, file, default),
{
    source(effective != file, file != default)
}

/// Where a value comes from, by whether it differs from the file's, and the file's
/// from the default.
fn source(changed: bool, set: bool) -> (r: char)
    ensures
        r == (if changed {
            'C'
        } else if set {
            'F'
        } else {
            'D'
        }),
{
    if changed {
        'C'
    } else if set {
        'F'
    } else {
        'D'
    }
}

/// Where a number of 32 bits comes from.
fn source_u32(effective: u32, file: u32, default: u32) -> (r: char)
    ensures
        r == value_source(effective, file, default),
{
    source(effective != file, file != default)
}

/// Where a size comes from.
fn source_size(effective: usize, file: usize, default: usize) -> (r: char)
    ensures
        r == value_source(effective, file, default),
{
    source(effective != file, file != default)
}

/// Where a truth value comes from.
fn source_flag(effective: bool, file: bool, default: bool) -> (r: char)
    ensures
        r == value_source(effective, file, default),
{
    source(effective != file, file != default)
}

/// Where a text comes from.
fn source_text(effective: &str, file: &str, default: &str) -> (r: char)
    ensures
        r == value_source(effective@, file@, default@),
{
    source(!same_text(effective, file), !same_text(file, default))
}

/// A value that the command line leaves alone is never shown as one of it: it comes
/// from the file if it differs from the default, and is the default otherwise.
pub proof fn law_untouched_values<T>(file: T, default: T)
    ensures
        value_source(file, file, default) == if file == default {
            'D'
        } else {
            'F'
        },
{
}

/// A line of the table.
pub open spec fn row_text(name: Seq<char>, value: Seq<char>, src: char) -> Seq<char> {
    "  "@ + crate::text::padded(name, 20) + " "@ + crate::text::padded(value, 15) + " ["@ + seq![src]
        + "]\n"@
}

/// Appends a line of the table.
fn row(table: &mut String, name: &str, value: &str, src: char)
    ensures
        final(table)@ == old(table)@ + row_text(name@, value@, src),
{
    table.append("  ");
    table.append(pad_right(name, 20).as_str());
    table.append(" ");
    table.append(pad_right(value, 15).as_str());
    table.append(" [");
    table.push(src);
    table.append("]\n");
    assert(table@ =~= old(table)@ + row_text(name@, value@, src));
}

/// A truth value as text.
pub open spec fn bool_text(b: bool) -> Seq<char> {
    if b {
        "true"@
    } else {
        "false"@
    }
}

/// A truth value as text.
fn bool_str(b: bool) -> (r: &'static str)
    ensures
        r@ == bool_text(b),
{
    if b {
        "true"
    } else {
        "false"
    }
}

/// The line of sixty dashes.
pub const TABLE_RULE: &'static str = "------------------------------------------------------------";

/// The rows of the table: every value, and whether it comes from the command line,
/// the config file or the defaults.
pub open spec fn table_rows(cfg: ResolvedConfig, settings: Settings) -> Seq<char> {
    row_text("camera"@, crate::text::decimal_digits(cfg.camera as nat), value_source(cfg.camera, settings.camera, 0u32))
        + row_text("device"@, cfg.device@, value_source(cfg.device@, settings.device@, "/dev/video10"@))
        + row_text("width"@, crate::text::decimal_digits(cfg.width as nat), value_source(cfg.width, settings.width, 1280u32))
        + row_text("height"@, crate::text::decimal_digits(cfg.height as nat), value_source(cfg.height, settings.height, 720u32))
        + row_text("fps"@, crate::text::decimal_digits(cfg.fps as nat), value_source(cfg.fps, settings.fps, 30u32))
        + row_text("buffers"@, crate::text::decimal_digits(cfg.buffers as nat), value_source(cfg.buffers, settings.buffers, 4usize))
        + row_text("retry_ms"@, crate::text::decimal_digits(cfg.retry_ms as nat), value_source(cfg.retry_ms, settings.retry_ms, 1000u64))
        + row_text("multi_reader"@, bool_text(cfg.multi_reader), value_source(cfg.multi_reader, settings.multi_reader, true))
        + row_text("devices"@, crate::text::decimal_digits(cfg.devices as nat), value_source(cfg.devices, settings.devices, 1u32))
        + row_text("exclusive_caps"@, crate::text::decimal_digits(cfg.exclusive_caps as nat), value_source(cfg.exclusive_caps, settings.exclusive_caps, 1u32))
        + row_text("timeout"@, crate::text::decimal_digits(cfg.timeout as nat), value_source(cfg.timeout, settings.timeout, 0u32))
        + row_text("auto_load_module"@, bool_text(cfg.auto_load_module), value_source(cfg.auto_load_module, settings.auto_load_module, true))
        + row_text("auto_resolution"@, bool_text(cfg.auto_resolution), value_source(cfg.auto_resolution, settings.auto_resolution, true))
}

/// A formatted table of current settings and their source, as text.
pub fn print_settings_table(cfg: &ResolvedConfig, settings: &Settings, config_path: &str) -> (r:
    String)
    ensures
        r@ == "Current settings (source: [C]LI / [F]ile / [D]efault):\n"@ + TABLE_RULE@ + "\n"@
            + table_rows(*cfg, *settings) + TABLE_RULE@ + "\n\nConfig file: "@ + config_path@
            + "\nEdit: tray → Settings…  or  vcam-proxy --edit-config"@,
{
    let defaults = Settings::default();
    let mut rows = String::new();
    row(
        &mut rows,
        "camera",
        decimal(cfg.camera as u64).as_str(),
        source_u32(cfg.camera, settings.camera, defaults.camera),
    );
    assert(rows@ =~= row_text("camera"@, crate::text::decimal_digits(cfg.camera as nat), value_source(cfg.camera, settings.camera, 0u32)));
    row(
        &mut rows,
        "device",
        cfg.device.as_str(),
        source_text(cfg.device.as_str(), settings.device.as_str(), defaults.device.as_str()),
    );
    row(
        &mut rows,
        "width",
        decimal(cfg.width as u64).as_str(),
        source_u32(cfg.width, settings.width, defaults.width),
    );
    row(
        &mut rows,
        "height",
        decimal(cfg.height as u64).as_str(),
        source_u32(cfg.height, settings.height, defaults.height),
    );
    row(
        &mut rows,
        "fps",
        decimal(cfg.fps as u64).as_str(),
        source_u32(cfg.fps, settings.fps, defaults.fps),
    );
    row(
        &mut rows,
        "buffers",
        decimal(cfg.buffers as u64).as_str(),
        source_size(cfg.buffers, settings.buffers, defaults.buffers),
    );
    row(
        &mut rows,
        "retry_ms",
        decimal(cfg.retry_ms as u64).as_str(),
        source_num(cfg.retry_ms, settings.retry_ms, defaults.retry_ms),
    );
    row(
        &mut rows,
        "multi_reader",
        bool_str(cfg.multi_reader),
        source_flag(cfg.multi_reader, settings.multi_reader, defaults.multi_reader),
    );
    row(
        &mut rows,
        "devices",
        decimal(cfg.devices as u64).as_str(),
        source_u32(cfg.devices, settings.devices, defaults.devices),
    );
    row(
        &mut rows,
        "exclusive_caps",
        decimal(cfg.exclusive_caps as u64).as_str(),
        source_u32(cfg.exclusive_caps, settings.exclusive_caps, defaults.exclusive_caps),
    );
    row(
        &mut rows,
        "timeout",
        decimal(cfg.timeout as u64).as_str(),
        source_u32(cfg.timeout, settings.timeout, defaults.timeout),
    );
    row(
        &mut rows,
        "auto_load_module",
        bool_str(cfg.auto_load_module),
        source_flag(cfg.auto_load_module, settings.auto_load_module, defaults.auto_load_module),
    );
    row(
        &mut rows,
        "auto_resolution",
        bool_str(cfg.auto_resolution),
        source_flag(cfg.auto_resolution, settings.auto_resolution, defaults.auto_resolution),
    );
    let mut table = "Current settings (source: [C]LI / [F]ile / [D]efault):\n".to_owned();
    table.append(TABLE_RULE);
    table.append("\n");
    table.append(rows.as_str());
    table.append(TABLE_RULE);
    table.append("\n\nConfig file: ");
    table.append(config_path);
    table.append("\nEdit: tray → Settings…  or  vcam-proxy --edit-config");
    table
}

// ---------------------------------------------------------------------------
// Setup
// ---------------------------------------------------------------------------

/// The first line of the setup.
pub const SETUP_HEADER: &'static str = "=== vcam-proxy automatic setup ===\n\n";

/// A part of the setup report, and whether it found no problem.
pub struct SetupPart {
    pub text: String,
    pub ok: bool,
}

/// The first step: whether the module is loaded. If it is not, loading it is
/// attempted next.
pub fn setup_module(loaded: bool) -> (r: String)
    ensures
        r@ == "[1/4] Checking v4l2loopback kernel module... "@ + if loaded {
            "✓ already loaded\n"@
        } else {
            "✗ NOT loaded\n        Attempting to load via pkexec (with auto-install)... "@
        },
{
    let mut r = "[1/4] Checking v4l2loopback kernel module... ".to_owned();
    if loaded {
        r.append("✓ already loaded\n");
    } else {
        r.append("✗ NOT loaded\n        Attempting to load via pkexec (with auto-install)... ");
    }
    r
}

/// How loading the module came out.
pub fn setup_loaded(result: &Result<(), ModuleError>) -> (r: SetupPart)
    ensures
        r.ok == (result is Ok),
        r.text@ == (match *result {
            Ok(()) => "✓ loaded successfully\n"@,
            Err(e) => "✗ failed: "@ + e.text() + "\n"@
                + messages::print_setup_install_hints_text() + "\n"@,
        }),
{
    match result {
        Ok(()) => SetupPart { text: "✓ loaded successfully\n".to_owned(), ok: true },
        Err(e) => {
            let mut text = "✗ failed: ".to_owned();
            text.append(e.message().as_str());
            text.append("\n");
            text.append(messages::print_setup_install_hints().as_str());
            text.append("\n");
            SetupPart { text, ok: false }
        },
    }
}

/// The line of the setup for a device.
pub open spec fn setup_line(d: DeviceInfo) -> Seq<char> {
    "        - "@ + d.path@ + " ["@ + d.card@ + "]"@ + if loopback_name(d.driver@) {
        " ✓\n"@
    } else {
        " (not v4l2loopback)\n"@
    }
}

/// The lines of the setup for the devices.
pub open spec fn setup_lines(devices: Seq<DeviceInfo>) -> Seq<char>
    decreases devices.len(),
{
    if devices.len() == 0 {
        Seq::empty()
    } else {
        setup_lines(devices.drop_last()) + setup_line(devices.last())
    }
}

/// The second step: which output devices there are.
pub fn setup_scan(scan: &Result<Vec<DeviceInfo>, String>) -> (r: SetupPart)
    ensures
        r.ok == (scan matches Ok(devices) && devices@.len() > 0),
        r.text@ == "\n[2/4] Scanning for video output devices... "@ + (match *scan {
            Err(e) => "✗ scan failed: "@ + e@ + "\n"@,
            Ok(devices) => if devices@.len() == 0 {
                "✗ none found\n"@
            } else {
                "✓ found "@ + crate::text::decimal_digits(devices@.len()) + " device(s):\n"@
                    + setup_lines(devices@)
            },
        }),
{
    let mut text = "\n[2/4] Scanning for video output devices... ".to_owned();
    let ghost head = text@;
    match scan {
        Err(e) => {
            text.append("✗ scan failed: ");
            text.append(e.as_str());
            text.append("\n");
            assert(text@ =~= head + ("✗ scan failed: "@ + e@ + "\n"@));
            SetupPart { text, ok: false }
        },
        Ok(devices) => {
            if devices.len() == 0 {
                text.append("✗ none found\n");
                return SetupPart { text, ok: false };
            }
            text.append("✓ found ");
            text.append(decimal(devices.len() as u64).as_str());
            text.append(" device(s):\n");
            let ghost found = "✓ found "@ + crate::text::decimal_digits(devices@.len())
                + " device(s):\n"@;
            assert(text@ =~= head + (found + setup_lines(devices@.take(0))));
            for i in 0..devices.len()
                invariant
                    text@ == head + (found + setup_lines(devices@.take(i as int))),
            {
                assert(devices@.take(i + 1).drop_last() =~= devices@.take(i as int));
                let d = &devices[i];
                text.append("        - ");
                text.append(d.path.as_str());
                text.append(" [");
                text.append(d.card.as_str());
                text.append("]");
                if is_loopback_driver(d.driver.as_str()) {
                    text.append(" ✓\n");
                } else {
                    text.append(" (not v4l2loopback)\n");
                }
                assert(text@ =~= head + (found + setup_lines(devices@.take(i + 1))));
            }
            assert(devices@.take(devices@.len() as int) =~= devices@);
            SetupPart { text, ok: true }
        },
    }
}

/// Which device the permission check opens.
pub enum SetupTarget {
    /// The configured one.
    Configured,
    /// The first one that was found, since the configured one does not exist.
    First(String),
    /// There is none.
    Nothing,
}

/// Picks the device for the permission check.
pub fn setup_target(configured_exists: bool, scan: &Result<Vec<DeviceInfo>, String>) -> (r:
    SetupTarget)
    ensures
        if configured_exists {
            r is Configured
        } else {
            match *scan {
                Ok(devices) => if devices@.len() > 0 {
                    r == SetupTarget::First(devices@[0].path)
                } else {
                    r is Nothing
                },
                Err(_) => r is Nothing,
            }
        },
        is_setup_target(configured_exists, *scan, r),
{
    if configured_exists {
        return SetupTarget::Configured;
    }
    match scan {
        Ok(devices) => if devices.len() > 0 {
            SetupTarget::First(devices[0].path.clone())
        } else {
            SetupTarget::Nothing
        },
        Err(_) => SetupTarget::Nothing,
    }
}

/// The third step: whether the device can be opened. Without a device there is
/// nothing to test, which is no problem of its own.
pub fn setup_access(target: &SetupTarget, result: &Result<(), AccessError>) -> (r: SetupPart)
    ensures
        r.ok == (target is Nothing || result is Ok),
        r.text@ == "\n[3/4] Checking device permissions... "@ + (match *target {
            SetupTarget::First(path) => "(testing "@ + path@ + ") "@,
            _ => Seq::<char>::empty(),
        }) + if target is Nothing {
            "? no device to test (load module first)\n"@
        } else {
            match *result {
                Ok(()) => "✓ accessible\n"@,
                Err(e) => "✗ "@ + e.text() + "\n"@ + messages::print_permissions_help_text()
                    + "\n"@,
            }
        },
{
    let mut text = "\n[3/4] Checking device permissions... ".to_owned();
    match target {
        SetupTarget::First(path) => {
            let ghost head = text@;
            text.append("(testing ");
            text.append(path.as_str());
            text.append(") ");
            assert(text@ =~= head + ("(testing "@ + path@ + ") "@));
        },
        _ => {
            assert(text@ =~= text@ + Seq::<char>::empty());
        },
    }
    let ghost head = text@;
    let nothing = match target {
        SetupTarget::Nothing => true,
        _ => false,
    };
    if nothing {
        text.append("? no device to test (load module first)\n");
        return SetupPart { text, ok: true };
    }
    match result {
        Ok(()) => {
            text.append("✓ accessible\n");
            SetupPart { text, ok: true }
        },
        Err(e) => {
            text.append("✗ ");
            text.append(e.message().as_str());
            text.append("\n");
            text.append(messages::print_permissions_help().as_str());
            text.append("\n");
            assert(text@ =~= head + ("✗ "@ + e.text() + "\n"@
                + messages::print_permissions_help_text() + "\n"@));
            SetupPart { text, ok: false }
        },
    }
}

/// Whether no part of the setup found a problem.
pub open spec fn all_ok(parts: Seq<SetupPart>) -> bool {
    forall|i: int| 0 <= i < parts.len() ==> (#[trigger] parts[i]).ok
}

/// The last step: the setup succeeded if and only if every part did.
pub fn setup_summary(parts: &Vec<SetupPart>) -> (r: String)
    ensures
        r@ == "\n[4/4] Summary\n"@ + (if all_ok(parts@) {
            messages::print_setup_ok_text()
        } else {
            messages::print_setup_fail_text()
        }) + "\n\n=== setup complete ==="@,
{
    let mut ok = true;
    for i in 0..parts.len()
        invariant
            ok == all_ok(parts@.take(i as int)),
    {
        assert(parts@.take(i + 1)[i as int] == parts@[i as int]);
        assert(forall|k: int| 0 <= k < i ==> #[trigger] parts@.take(i + 1)[k] == parts@.take(i as int)[k]);
        ok = ok && parts[i].ok;
    }
    assert(parts@.take(parts@.len() as int) =~= parts@);
    let mut r = "\n[4/4] Summary\n".to_owned();
    if ok {
        r.append(messages::print_setup_ok().as_str());
    } else {
        r.append(messages::print_setup_fail().as_str());
    }
    r.append("\n\n=== setup complete ===");
    r
}

// ---------------------------------------------------------------------------
// Dry run
// ---------------------------------------------------------------------------

/// What the dry-run drain does next.
#[derive(Clone, Copy, Debug, PartialEq, Eq, Structural)]
pub enum DrainStep {
    /// Return the frame to the pool; `log` says whether it is logged.
    Release { log: bool },
    /// Wait for the next frame.
    Wait,
    /// Leave the loop.
    Stop,
}

/// Counts a drained frame, or decides whether to wait on. Every thirtieth frame
/// is logged; the drain ends at the first pause after shutdown was requested.
pub fn drain_step(received: bool, shutdown: bool, count: &mut u64) -> (r: DrainStep)
    requires
        *old(count) < u64::MAX,
    ensures
        *final(count) == *old(count) + if received {
            1int
        } else {
            0int
        },
        r == (if received {
            DrainStep::Release { log: *final(count) % 30 == 0 }
        } else if shutdown {
            DrainStep::Stop
        } else {
            DrainStep::Wait
        }),
        (r, *final(count) as int) == drained(received, shutdown, *old(count)),
{
    if received {
        *count = *count + 1;
        DrainStep::Release { log: *count % 30 == 0 }
    } else if shutdown {
        DrainStep::Stop
    } else {
        DrainStep::Wait
    }
}

// ---------------------------------------------------------------------------
// Laws of the utilities
// ---------------------------------------------------------------------------

/// The utility that the command line asks for.
pub open spec fn asked_for(cli: Config) -> Option<OneShot> {
    if cli.edit_config {
        Some(OneShot::EditConfig)
    } else if cli.show_config {
        Some(OneShot::ShowConfig)
    } else if cli.save_config {
        Some(OneShot::SaveConfig)
    } else if cli.list {
        Some(OneShot::ListCameras)
    } else if cli.list_loopback {
        Some(OneShot::ListLoopback)
    } else if cli.setup {
        Some(OneShot::Setup)
    } else {
        None
    }
}

/// A utility runs only if its flag is given, and exactly one runs if any flag is. The
/// config file comes before the lists, and the lists before the setup.
pub proof fn law_one_utility_runs(cli: Config)
    ensures
        asked_for(cli) is None <==> !cli.edit_config && !cli.show_config && !cli.save_config
            && !cli.list && !cli.list_loopback && !cli.setup,
        asked_for(cli) == Some(OneShot::EditConfig) <==> cli.edit_config,
        asked_for(cli) == Some(OneShot::ShowConfig) ==> cli.show_config,
        asked_for(cli) == Some(OneShot::SaveConfig) ==> cli.save_config && !cli.show_config,
        asked_for(cli) == Some(OneShot::ListCameras) ==> cli.list && !cli.save_config,
        asked_for(cli) == Some(OneShot::ListLoopback) ==> cli.list_loopback && !cli.list
            && !cli.save_config && !cli.show_config,
        asked_for(cli) == Some(OneShot::Setup) ==> cli.setup && !cli.list_loopback && !cli.list
            && !cli.save_config && !cli.show_config,
        asked_for(cli) == Some(OneShot::ListCameras) ==> !cli.show_config,
{
}

/// A value is shown as one of the command line exactly when it differs from the file's.
pub proof fn law_overrides_are_marked<T>(effective: T, file: T, default: T)
    ensures
        value_source(effective, file, default) == 'C' <==> effective != file,
        value_source(effective, file, default) == 'F' <==> effective == file && file != default,
        value_source(effective, file, default) == 'D' <==> effective == file && file == default,
{
}

/// A row has its columns at fixed places: the name from the third character on, the
/// value from the twenty-fourth, and the source in brackets behind it.
pub proof fn law_table_columns(name: Seq<char>, value: Seq<char>, src: char)
    requires
        name.len() <= 20,
        value.len() <= 15,
    ensures
        row_text(name, value, src).len() == 43,
        row_text(name, value, src).subrange(2, 2int + name.len()) == name,
        row_text(name, value, src).subrange(23, 23int + value.len()) == value,
        row_text(name, value, src)[40] == src,
        row_text(name, value, src).last() == '\n',
{
    reveal_strlit("  ");
    reveal_strlit(" ");
    reveal_strlit(" [");
    reveal_strlit("]\n");
    let row = row_text(name, value, src);
    assert(row.subrange(2, 2int + name.len()) =~= name);
    assert(row.subrange(23, 23int + value.len()) =~= value);
}

/// A truth value is shown as such.
pub proof fn law_truth_values()
    ensures
        bool_text(true) == "true"@,
        bool_text(false) == "false"@,
{
}

/// Rows one below the other.
pub open spec fn stacked(rows: Seq<Seq<char>>) -> Seq<char>
    decreases rows.len(),
{
    if rows.len() == 0 {
        Seq::empty()
    } else {
        stacked(rows.drop_last()) + rows.last()
    }
}

/// Another row comes below the others, which stay in sight.
proof fn lemma_stack(rows: Seq<Seq<char>>, row: Seq<char>)
    ensures
        stacked(rows.push(row)) == stacked(rows) + row,
{
    assert(rows.push(row).drop_last() =~= rows);
}

/// Every row of a stack is in sight.
proof fn lemma_rows_are_shown(rows: Seq<Seq<char>>, i: int)
    requires
        0 <= i < rows.len(),
    ensures
        crate::text::occurs(stacked(rows), rows[i]),
    decreases rows.len(),
{
    let front = stacked(rows.drop_last());
    let e = Seq::<char>::empty();
    if i == rows.len() - 1 {
        crate::text::law_occurrence(front, rows[i], e, rows[i]);
        assert(front + rows[i] + e =~= stacked(rows));
    } else {
        lemma_rows_are_shown(rows.drop_last(), i);
        assert(rows.drop_last()[i] == rows[i]);
        crate::text::law_occurrence(e, rows[i], e, front);
        let (a, b) = choose|a: Seq<char>, b: Seq<char>| front == #[trigger] (a + rows[i] + b);
        crate::text::law_occurrence(a, rows[i], b + rows.last(), rows[i]);
        assert(a + rows[i] + (b + rows.last()) =~= stacked(rows));
    }
}

/// Every setting has a row of its own in the table, with the value in force under its own
/// name, and with the mark of where that value comes from.
pub proof fn law_every_setting_is_shown(cfg: ResolvedConfig, settings: Settings)
    ensures
        ({
            let table = table_rows(cfg, settings);
            &&& crate::text::occurs(
                table,
                row_text("camera"@, crate::text::decimal_digits(cfg.camera as nat), value_source(cfg.camera, settings.camera, 0u32)),
            )
            &&& crate::text::occurs(
                table,
                row_text("device"@, cfg.device@, value_source(cfg.device@, settings.device@, "/dev/video10"@)),
            )
            &&& crate::text::occurs(
                table,
                row_text("width"@, crate::text::decimal_digits(cfg.width as nat), value_source(cfg.width, settings.width, 1280u32)),
            )
            &&& crate::text::occurs(
                table,
                row_text("height"@, crate::text::decimal_digits(cfg.height as nat), value_source(cfg.height, settings.height, 720u32)),
            )
            &&& crate::text::occurs(
                table,
                row_text("fps"@, crate::text::decimal_digits(cfg.fps as nat), value_source(cfg.fps, settings.fps, 30u32)),
            )
            &&& crate::text::occurs(
                table,
                row_text("buffers"@, crate::text::decimal_digits(cfg.buffers as nat), value_source(cfg.buffers, settings.buffers, 4usize)),
            )
            &&& crate::text::occurs(
                table,
                row_text("retry_ms"@, crate::text::decimal_digits(cfg.retry_ms as nat), value_source(cfg.retry_ms, settings.retry_ms, 1000u64)),
            )
            &&& crate::text::occurs(
                table,
                row_text("multi_reader"@, bool_text(cfg.multi_reader), value_source(cfg.multi_reader, settings.multi_reader, true)),
            )
            &&& crate::text::occurs(
                table,
                row_text("devices"@, crate::text::decimal_digits(cfg.devices as nat), value_source(cfg.devices, settings.devices, 1u32)),
            )
            &&& crate::text::occurs(
                table,
                row_text("exclusive_caps"@, crate::text::decimal_digits(cfg.exclusive_caps as nat), value_source(cfg.exclusive_caps, settings.exclusive_caps, 1u32)),
            )
            &&& crate::text::occurs(
                table,
                row_text("timeout"@, crate::text::decimal_digits(cfg.timeout as nat), value_source(cfg.timeout, settings.timeout, 0u32)),
            )
            &&& crate::text::occurs(
                table,
                row_text("auto_load_module"@, bool_text(cfg.auto_load_module), value_source(cfg.auto_load_module, settings.auto_load_module, true)),
            )
            &&& crate::text::occurs(
                table,
                row_text("auto_resolution"@, bool_text(cfg.auto_resolution), value_source(cfg.auto_resolution, settings.auto_resolution, true)),
            )
        }),
{
    let none = Seq::<Seq<char>>::empty();
    let row0 = row_text("camera"@, crate::text::decimal_digits(cfg.camera as nat), value_source(cfg.camera, settings.camera, 0u32));
    let rows0 = none.push(row0);
    lemma_stack(none, row0);
    let row1 = row_text("device"@, cfg.device@, value_source(cfg.device@, settings.device@, "/dev/video10"@));
    let rows1 = rows0.push(row1);
    lemma_stack(rows0, row1);
    let row2 = row_text("width"@, crate::text::decimal_digits(cfg.width as nat), value_source(cfg.width, settings.width, 1280u32));
    let rows2 = rows1.push(row2);
    lemma_stack(rows1, row2);
    let row3 = row_text("height"@, crate::text::decimal_digits(cfg.height as nat), value_source(cfg.height, settings.height, 720u32));
    let rows3 = rows2.push(row3);
    lemma_stack(rows2, row3);
    let row4 = row_text("fps"@, crate::text::decimal_digits(cfg.fps as nat), value_source(cfg.fps, settings.fps, 30u32));
    let rows4 = rows3.push(row4);
    lemma_stack(rows3, row4);
    let row5 = row_text("buffers"@, crate::text::decimal_digits(cfg.buffers as nat), value_source(cfg.buffers, settings.buffers, 4usize));
    let rows5 = rows4.push(row5);
    lemma_stack(rows4, row5);
    let row6 = row_text("retry_ms"@, crate::text::decimal_digits(cfg.retry_ms as nat), value_source(cfg.retry_ms, settings.retry_ms, 1000u64));
    let rows6 = rows5.push(row6);
    lemma_stack(rows5, row6);
    let row7 = row_text("multi_reader"@, bool_text(cfg.multi_reader), value_source(cfg.multi_reader, settings.multi_reader, true));
    let rows7 = rows6.push(row7);
    lemma_stack(rows6, row7);
    let row8 = row_text("devices"@, crate::text::decimal_digits(cfg.devices as nat), value_source(cfg.devices, settings.devices, 1u32));
    let rows8 = rows7.push(row8);
    lemma_stack(rows7, row8);
    let row9 = row_text("exclusive_caps"@, crate::text::decimal_digits(cfg.exclusive_caps as nat), value_source(cfg.exclusive_caps, settings.exclusive_caps, 1u32));
    let rows9 = rows8.push(row9);
    lemma_stack(rows8, row9);
    let row10 = row_text("timeout"@, crate::text::decimal_digits(cfg.timeout as nat), value_source(cfg.timeout, settings.timeout, 0u32));
    let rows10 = rows9.push(row10);
    lemma_stack(rows9, row10);
    let row11 = row_text("auto_load_module"@, bool_text(cfg.auto_load_module), value_source(cfg.auto_load_module, settings.auto_load_module, true));
    let rows11 = rows10.push(row11);
    lemma_stack(rows10, row11);
    let row12 = row_text("auto_resolution"@, bool_text(cfg.auto_resolution), value_source(cfg.auto_resolution, settings.auto_resolution, true));
    let rows12 = rows11.push(row12);
    lemma_stack(rows11, row12);
    assert(stacked(none) + row0 =~= row0);
    assert(stacked(rows12) == table_rows(cfg, settings));
    lemma_rows_are_shown(rows12, 0);
    lemma_rows_are_shown(rows12, 1);
    lemma_rows_are_shown(rows12, 2);
    lemma_rows_are_shown(rows12, 3);
    lemma_rows_are_shown(rows12, 4);
    lemma_rows_are_shown(rows12, 5);
    lemma_rows_are_shown(rows12, 6);
    lemma_rows_are_shown(rows12, 7);
    lemma_rows_are_shown(rows12, 8);
    lemma_rows_are_shown(rows12, 9);
    lemma_rows_are_shown(rows12, 10);
    lemma_rows_are_shown(rows12, 11);
    lemma_rows_are_shown(rows12, 12);
}

/// The lines of two lists of devices are those of the first and then those of the
/// second, each device has one line, and only loopback devices are ticked.
pub proof fn law_device_lines(a: Seq<DeviceInfo>, b: Seq<DeviceInfo>, d: DeviceInfo)
    ensures
        device_lines(a + b) == device_lines(a) + device_lines(b),
        setup_lines(a + b) == setup_lines(a) + setup_lines(b),
        device_lines(seq![d]) == device_line(d),
        setup_lines(seq![d]) == setup_line(d),
        loopback_name(d.driver@) ==> device_line(d) == "\n  "@ + d.path@ + " "@ + d.card@
            + " [v4l2loopback ✓]"@,
        !loopback_name(d.driver@) ==> device_line(d) == "\n  "@ + d.path@ + " "@ + d.card@,
        loopback_name(d.driver@) ==> setup_line(d) == "        - "@ + d.path@ + " ["@ + d.card@
            + "]"@ + " ✓\n"@,
        !loopback_name(d.driver@) ==> setup_line(d) == "        - "@ + d.path@ + " ["@ + d.card@
            + "]"@ + " (not v4l2loopback)\n"@,
    decreases b.len(),
{
    let e = Seq::<char>::empty();
    assert(seq![d].drop_last() =~= Seq::<DeviceInfo>::empty());
    assert(device_lines(seq![d].drop_last()) =~= e);
    assert(setup_lines(seq![d].drop_last()) =~= e);
    assert(e + device_line(d) =~= device_line(d));
    assert(e + setup_line(d) =~= setup_line(d));
    let plain = "\n  "@ + d.path@ + " "@ + d.card@;
    assert(plain + e =~= plain);
    if b.len() == 0 {
        assert(a + b =~= a);
        assert(device_lines(a) + device_lines(b) =~= device_lines(a));
        assert(setup_lines(a) + setup_lines(b) =~= setup_lines(a));
    } else {
        assert((a + b).drop_last() =~= a + b.drop_last());
        assert((a + b).last() == b.last());
        law_device_lines(a, b.drop_last(), d);
        assert(device_lines(a + b) =~= device_lines(a) + device_lines(b));
        assert(setup_lines(a + b) =~= setup_lines(a) + setup_lines(b));
    }
}

/// A setup is fine exactly as long as each part is: one bad part spoils it, wherever it
/// is.
pub proof fn law_setup_is_fine(parts: Seq<SetupPart>, part: SetupPart)
    ensures
        all_ok(Seq::<SetupPart>::empty()),
        all_ok(parts.push(part)) <==> all_ok(parts) && part.ok,
{
    let all = parts.push(part);
    assert(all[parts.len() as int] == part);
    if all_ok(all) {
        assert forall|i: int| 0 <= i < parts.len() implies (#[trigger] parts[i]).ok by {
            assert(all[i] == parts[i]);
        }
    }
    if all_ok(parts) && part.ok {
        assert forall|i: int| 0 <= i < all.len() implies (#[trigger] all[i]).ok by {
            if i < parts.len() {
                assert(all[i] == parts[i]);
            }
        }
    }
}

/// What the dry run does next, and its count after that.
pub open spec fn drained(received: bool, shutdown: bool, count: u64) -> (DrainStep, int) {
    if received {
        (DrainStep::Release { log: (count + 1) % 30 == 0 }, count + 1)
    } else if shutdown {
        (DrainStep::Stop, count as int)
    } else {
        (DrainStep::Wait, count as int)
    }
}

/// Every frame that is received is counted and goes back to the pool, even after shutdown
/// was requested, and one in thirty is logged. The drain ends at the first pause after the
/// request.
pub proof fn law_dry_run_drains(received: bool, shutdown: bool, count: u64)
    ensures
        received ==> drained(received, shutdown, count).0 is Release && drained(
            received,
            shutdown,
            count,
        ).1 == count + 1,
        !received ==> drained(received, shutdown, count).1 == count,
        drained(received, shutdown, count).0 is Stop <==> !received && shutdown,
        drained(received, shutdown, count).0 == (DrainStep::Release { log: true }) <==> received
            && (count + 1) % 30 == 0,
{
}

/// This is the device that the permission check opens.
pub open spec fn is_setup_target(
    configured_exists: bool,
    scan: Result<Vec<DeviceInfo>, String>,
    r: SetupTarget,
) -> bool {
    match r {
        SetupTarget::Configured => configured_exists,
        SetupTarget::First(path) => !configured_exists && (scan matches Ok(devices)
            && devices@.len() > 0 && path == devices@[0].path),
        SetupTarget::Nothing => !configured_exists && !(scan matches Ok(devices) && devices@.len()
            > 0),
    }
}

/// The configured device is opened wherever it exists, another one only in its absence,
/// and the first of those that were found.
pub proof fn law_setup_target(
    configured_exists: bool,
    scan: Result<Vec<DeviceInfo>, String>,
    r: SetupTarget,
)
    requires
        is_setup_target(configured_exists, scan, r),
    ensures
        r is Configured <==> configured_exists,
        !configured_exists && scan is Err ==> r is Nothing,
        r matches SetupTarget::First(path) ==> (scan matches Ok(devices) && devices@.first().path
            == path),
        !configured_exists ==> (scan matches Ok(devices) ==> (devices@.len() > 0 ==> r is First)),
{
}

/// What `--list-loopback` shows.
pub open spec fn device_list(devices: Seq<DeviceInfo>) -> Seq<char> {
    if devices.len() == 0 {
        messages::print_no_loopback_list_hint_text()
    } else {
        "Video output devices ("@ + crate::text::decimal_digits(devices.len()) + " found):"@
            + device_lines(devices)
    }
}

/// The list starts with the number of the devices and shows the line of every one; without
/// a device it shows how to create one.
pub proof fn law_device_list(a: Seq<DeviceInfo>, d: DeviceInfo, b: Seq<DeviceInfo>)
    ensures
        device_list(Seq::<DeviceInfo>::empty()) == messages::print_no_loopback_list_hint_text(),
        ({
            let all = a + seq![d] + b;
            &&& crate::text::has_prefix(
                device_list(all),
                "Video output devices ("@ + crate::text::decimal_digits(all.len()),
            )
            &&& crate::text::occurs(device_list(all), device_line(d))
        }),
{
    let all = a + seq![d] + b;
    let head = "Video output devices ("@ + crate::text::decimal_digits(all.len());
    law_device_lines(a + seq![d], b, d);
    law_device_lines(a, seq![d], d);
    let front = head + " found):"@ + device_lines(a);
    assert(device_list(all) =~= front + device_line(d) + device_lines(b));
    crate::text::law_occurrence(front, device_line(d), device_lines(b), head);
    let rest = " found):"@ + device_lines(all);
    assert(device_list(all) =~= head + rest);
    crate::text::law_prefix(head, rest, head);
}

} // verus!
