//! User-facing log / stderr message templates.
//!
//! Keep long guidance strings here so call sites stay short and consistent. A
//! message stands without the line feed that ends it on the screen.

use vstd::prelude::*;

use crate::text::decimal;
use crate::text::join;
use crate::text::signed_decimal;

verus! {

/// Default `modprobe` argument string when no configuration is available yet.
pub const DEFAULT_MODULE_PARAMS: &'static str =
    "exclusive_caps=1 card_label=vcam-proxy devices=1 video_nr=10 max_buffers=4 max_openers=16 timeout=0";

pub const MODPROBE_HINT: &'static str =
    "sudo modprobe v4l2loopback exclusive_caps=1 card_label=vcam-proxy devices=1 video_nr=10";

pub const CONFIG_PATH_HINT: &'static str = "~/.config/vcam-proxy/config.toml";

// ---- short log message keys (stable, grep-friendly) ----

pub const LOG_CREATED_DEFAULT_CONFIG: &'static str =
    "created default config (edit this instead of using CLI flags)";

pub const LOG_CONFIG_CREATE_FAILED: &'static str = "could not create default config file";

pub const LOG_FIRST_RUN_SETTINGS: &'static str =
    "first run: opening settings window — save changes to config.toml";

pub const LOG_THREADS_STOPPED: &'static str = "all threads stopped; descriptors released";

pub const LOG_STARTING: &'static str = "starting vcam-proxy";

pub const LOG_DRY_RUN: &'static str = "dry-run mode: capture only, no virtual camera output";

pub const LOG_EXCLUSIVE_CAPS_OK: &'static str =
    "v4l2loopback exclusive_caps is active (browser-compatible)";

pub const LOG_AUTO_LOAD_ATTEMPT: &'static str =
    "attempting to auto-load v4l2loopback module (with auto-install fallback)";

pub const LOG_MODULE_LOADED: &'static str =
    "v4l2loopback module loaded; device should appear shortly";

pub const LOG_MULTI_NODE_RELOAD: &'static str =
    "multi-node mode: reloading module with more devices";

pub const LOG_MULTI_NODE_OK: &'static str = "multi-node module reload successful";

pub const LOG_MULTI_NODE_RELOAD_FAIL: &'static str =
    "failed to reload module for multi-node mode";

pub const LOG_MULTI_NODE_SINK: &'static str =
    "multi-node sink: feeding multiple loopback devices";

pub const LOG_MULTI_NODE_FALLBACK: &'static str =
    "multi-node sink: fewer than 2 loopback devices found, using single sink";

pub const LOG_MULTI_READER: &'static str =
    "multi-reader: one virtual camera, multiple concurrent readers (native v4l2loopback)";

pub const LOG_TRAY_DISABLED: &'static str = "tray icon disabled via --no-tray";

pub const LOG_SHUTDOWN_DRAIN: &'static str = "shutdown requested; draining pipeline";

pub const LOG_QUIT_GUI: &'static str = "quit requested from GUI; exiting";

pub const LOG_RESTART: &'static str = "restarting pipeline with new settings";

pub const LOG_DRY_RUN_STOP: &'static str = "shutdown requested; stopping dry-run";

pub const LOG_DRY_RUN_DONE: &'static str = "dry-run complete";

pub const LOG_DRY_RUN_FRAME: &'static str = "dry-run: capturing (frames discarded)";

pub const LOG_WIRE_FORMAT_WARN: &'static str =
    "wire format is often rejected by browsers; prefer format=auto (YUYV) for Chrome/Firefox/Zoom";

pub const LOG_JOIN_TIMEOUT: &'static str =
    "thread did not exit within timeout; will be killed on process exit";

// ---- multi-line guidance ----

/// Guidance for a module that is loaded without exclusive_caps.
pub open spec fn warn_exclusive_caps_zero_text(module_params: Seq<char>) -> Seq<char> {
    "WARNING: v4l2loopback is loaded with exclusive_caps=0.\nChrome, Firefox, Zoom, and Teams will NOT list the virtual camera.\nOBS may still work. Reload the module:\nsudo modprobe -r v4l2loopback\nsudo modprobe v4l2loopback "@
        + module_params
}

/// Guidance for a module that is loaded without exclusive_caps.
pub fn warn_exclusive_caps_zero(module_params: &str) -> (r: String)
    ensures
        r@ == warn_exclusive_caps_zero_text(module_params@),
{
    let mut r = "WARNING: v4l2loopback is loaded with exclusive_caps=0.\nChrome, Firefox, Zoom, and Teams will NOT list the virtual camera.\nOBS may still work. Reload the module:\nsudo modprobe -r v4l2loopback\nsudo modprobe v4l2loopback ".to_owned();
    r.append(module_params);
    r
}

/// Guidance for a system without pkexec.
pub open spec fn note_pkexec_missing_text(module_params: Seq<char>) -> Seq<char> {
    "Note: pkexec not available. Run manually:\n  sudo modprobe v4l2loopback "@
        + module_params
}

/// Guidance for a system without pkexec.
pub fn note_pkexec_missing(module_params: &str) -> (r: String)
    ensures
        r@ == note_pkexec_missing_text(module_params@),
{
    let mut r = "Note: pkexec not available. Run manually:\n  sudo modprobe v4l2loopback ".to_owned();
    r.append(module_params);
    r
}

/// Guidance for a distribution that packages cannot be installed on.
pub open spec fn note_distro_unsupported_text(module_params: Seq<char>) -> Seq<char> {
    "Auto-install not supported on this distribution.\nInstall v4l2loopback-dkms manually, then run:\n  sudo modprobe v4l2loopback "@
        + module_params
}

/// Guidance for a distribution that packages cannot be installed on.
pub fn note_distro_unsupported(module_params: &str) -> (r: String)
    ensures
        r@ == note_distro_unsupported_text(module_params@),
{
    let mut r = "Auto-install not supported on this distribution.\nInstall v4l2loopback-dkms manually, then run:\n  sudo modprobe v4l2loopback ".to_owned();
    r.append(module_params);
    r
}

/// Guidance after a failed package installation.
pub open spec fn note_install_failed_text(code: i32) -> Seq<char> {
    "Package installation failed (exit code "@
        + crate::text::signed_digits(code as int)
        + ").\nCheck your network connection and try again, or install manually."@
}

/// Guidance after a failed package installation.
pub fn note_install_failed(code: i32) -> (r: String)
    ensures
        r@ == note_install_failed_text(code),
{
    let mut r = "Package installation failed (exit code ".to_owned();
    r.append(signed_decimal(code).as_str());
    r.append(").\nCheck your network connection and try again, or install manually.");
    r
}

/// Note on a module that could not be loaded.
pub open spec fn note_auto_load_failed_text(err: Seq<char>) -> Seq<char> {
    "Failed to auto-load v4l2loopback module: "@
        + err
}

/// Note on a module that could not be loaded.
pub fn note_auto_load_failed(err: &str) -> (r: String)
    ensures
        r@ == note_auto_load_failed_text(err@),
{
    let mut r = "Failed to auto-load v4l2loopback module: ".to_owned();
    r.append(err);
    r
}

/// How to load the module by hand.
pub open spec fn note_manual_modprobe_text(module_params: Seq<char>) -> Seq<char> {
    "\nYou can also load it manually:\n  sudo modprobe v4l2loopback "@
        + module_params
}

/// How to load the module by hand.
pub fn note_manual_modprobe(module_params: &str) -> (r: String)
    ensures
        r@ == note_manual_modprobe_text(module_params@),
{
    let mut r = "\nYou can also load it manually:\n  sudo modprobe v4l2loopback ".to_owned();
    r.append(module_params);
    r
}

/// Note on a reload for more nodes.
pub open spec fn note_multi_node_reload_text(desired: u32, current: usize) -> Seq<char> {
    "Multi-node mode needs "@
        + crate::text::decimal_digits(desired as nat)
        + " virtual cameras but only "@
        + crate::text::decimal_digits(current as nat)
        + " exist.\nReloading v4l2loopback (devices="@
        + crate::text::decimal_digits(desired as nat)
        + ")...\nApps using the virtual camera must re-open it afterwards.\n(A polkit authentication dialog may appear)"@
}

/// Note on a reload for more nodes.
pub fn note_multi_node_reload(desired: u32, current: usize) -> (r: String)
    ensures
        r@ == note_multi_node_reload_text(desired, current),
{
    let mut r = "Multi-node mode needs ".to_owned();
    r.append(decimal(desired as u64).as_str());
    r.append(" virtual cameras but only ");
    r.append(decimal(current as u64).as_str());
    r.append(" exist.\nReloading v4l2loopback (devices=");
    r.append(decimal(desired as u64).as_str());
    r.append(")...\nApps using the virtual camera must re-open it afterwards.\n(A polkit authentication dialog may appear)");
    r
}

/// Note on nodes that are there.
pub open spec fn note_multi_node_ready_text(desired: u32) -> Seq<char> {
    "✓ Multi-node mode ready: "@
        + crate::text::decimal_digits(desired as nat)
        + " virtual cameras available"@
}

/// Note on nodes that are there.
pub fn note_multi_node_ready(desired: u32) -> (r: String)
    ensures
        r@ == note_multi_node_ready_text(desired),
{
    let mut r = "✓ Multi-node mode ready: ".to_owned();
    r.append(decimal(desired as u64).as_str());
    r.append(" virtual cameras available");
    r
}

/// Warning on nodes that are missing after a reload.
pub open spec fn warn_multi_node_partial_text(found: usize, module_params: Seq<char>) -> Seq<char> {
    "WARNING: Module reloaded but only "@
        + crate::text::decimal_digits(found as nat)
        + " device(s) found.\nIf the extra nodes do not appear shortly, try:\n\nsudo modprobe -r v4l2loopback\nsudo modprobe v4l2loopback "@
        + module_params
}

/// Warning on nodes that are missing after a reload.
pub fn warn_multi_node_partial(found: usize, module_params: &str) -> (r: String)
    ensures
        r@ == warn_multi_node_partial_text(found, module_params@),
{
    let mut r = "WARNING: Module reloaded but only ".to_owned();
    r.append(decimal(found as u64).as_str());
    r.append(" device(s) found.\nIf the extra nodes do not appear shortly, try:\n\nsudo modprobe -r v4l2loopback\nsudo modprobe v4l2loopback ");
    r.append(module_params);
    r
}

/// Guidance after a failed reload.
pub open spec fn error_multi_node_reload_text(err: Seq<char>, module_params: Seq<char>) -> Seq<char> {
    "ERROR: Could not reload v4l2loopback for multi-node mode: "@
        + err
        + "\n\nContinuing with the existing node(s) — multiple apps can still\nshare ONE node (native multi-reader). For manual setup:\n\nsudo modprobe -r v4l2loopback\nsudo modprobe v4l2loopback "@
        + module_params
        + "\n\nThen restart vcam-proxy."@
}

/// Guidance after a failed reload.
pub fn error_multi_node_reload(err: &str, module_params: &str) -> (r: String)
    ensures
        r@ == error_multi_node_reload_text(err@, module_params@),
{
    let mut r = "ERROR: Could not reload v4l2loopback for multi-node mode: ".to_owned();
    r.append(err);
    r.append("\n\nContinuing with the existing node(s) — multiple apps can still\nshare ONE node (native multi-reader). For manual setup:\n\nsudo modprobe -r v4l2loopback\nsudo modprobe v4l2loopback ");
    r.append(module_params);
    r.append("\n\nThen restart vcam-proxy.");
    r
}

/// Guidance for a system without a virtual camera.
pub open spec fn error_no_loopback_device_text() -> Seq<char> {
    "Error: No v4l2loopback virtual camera device found.\n\nSet auto_load_module = true in "@
        + CONFIG_PATH_HINT@
        + "\n(default) and restart — a polkit prompt may appear.\n\nOr load manually:\n"@
        + MODPROBE_HINT@
        + "\n\nVerify with: vcam-proxy --list-loopback"@
}

/// Guidance for a system without a virtual camera.
pub fn error_no_loopback_device() -> (r: String)
    ensures
        r@ == error_no_loopback_device_text(),
{
    let mut r = "Error: No v4l2loopback virtual camera device found.\n\nSet auto_load_module = true in ".to_owned();
    r.append(CONFIG_PATH_HINT);
    r.append("\n(default) and restart — a polkit prompt may appear.\n\nOr load manually:\n");
    r.append(MODPROBE_HINT);
    r.append("\n\nVerify with: vcam-proxy --list-loopback");
    r
}

/// Error for a scan that failed.
pub open spec fn error_scan_failed_text(source: Seq<char>) -> Seq<char> {
    "Error scanning for video devices: "@
        + source
}

/// Error for a scan that failed.
pub fn error_scan_failed(source: &str) -> (r: String)
    ensures
        r@ == error_scan_failed_text(source@),
{
    let mut r = "Error scanning for video devices: ".to_owned();
    r.append(source);
    r
}

/// Error for a device that is not there.
pub open spec fn error_device_not_found_text(path: Seq<char>) -> Seq<char> {
    "Error: "@
        + path
        + " not found. Is v4l2loopback loaded?\n  sudo modprobe v4l2loopback exclusive_caps=1"@
}

/// Error for a device that is not there.
pub fn error_device_not_found(path: &str) -> (r: String)
    ensures
        r@ == error_device_not_found_text(path@),
{
    let mut r = "Error: ".to_owned();
    r.append(path);
    r.append(" not found. Is v4l2loopback loaded?\n  sudo modprobe v4l2loopback exclusive_caps=1");
    r
}

/// Error for a device that may not be opened.
pub open spec fn error_permission_text(err: Seq<char>, suggestion: Seq<char>) -> Seq<char> {
    "Error: "@
        + err
        + "\n\nSuggestion:\n  "@
        + suggestion
}

/// Error for a device that may not be opened.
pub fn error_permission(err: &str, suggestion: &str) -> (r: String)
    ensures
        r@ == error_permission_text(err@, suggestion@),
{
    let mut r = "Error: ".to_owned();
    r.append(err);
    r.append("\n\nSuggestion:\n  ");
    r.append(suggestion);
    r
}

/// Error for a device that cannot be opened.
pub open spec fn error_device_access_text(path: Seq<char>, err: Seq<char>) -> Seq<char> {
    "Error accessing "@
        + path
        + ": "@
        + err
}

/// Error for a device that cannot be opened.
pub fn error_device_access(path: &str, err: &str) -> (r: String)
    ensures
        r@ == error_device_access_text(path@, err@),
{
    let mut r = "Error accessing ".to_owned();
    r.append(path);
    r.append(": ");
    r.append(err);
    r
}

/// Warning on a single node where more were wanted.
pub open spec fn warn_multi_node_fallback_text(desired: u32, module_params: Seq<char>) -> Seq<char> {
    "\n⚠ Multi-node mode requested ("@
        + crate::text::decimal_digits(desired as nat)
        + ") but only 1 virtual camera found.\nFalling back to a single node — multiple apps can still share it.\nTo create more nodes:\n\nsudo modprobe -r v4l2loopback\nsudo modprobe v4l2loopback "@
        + module_params
        + "\n"@
}

/// Warning on a single node where more were wanted.
pub fn warn_multi_node_fallback(desired: u32, module_params: &str) -> (r: String)
    ensures
        r@ == warn_multi_node_fallback_text(desired, module_params@),
{
    let mut r = "\n⚠ Multi-node mode requested (".to_owned();
    r.append(decimal(desired as u64).as_str());
    r.append(") but only 1 virtual camera found.\nFalling back to a single node — multiple apps can still share it.\nTo create more nodes:\n\nsudo modprobe -r v4l2loopback\nsudo modprobe v4l2loopback ");
    r.append(module_params);
    r.append("\n");
    r
}

/// What `--list-loopback` shows without a device.
pub open spec fn print_no_loopback_list_hint_text() -> Seq<char> {
    "No video output devices found.\n\nTo create a virtual camera, run:\n  "@
        + MODPROBE_HINT@
}

/// What `--list-loopback` shows without a device.
pub fn print_no_loopback_list_hint() -> (r: String)
    ensures
        r@ == print_no_loopback_list_hint_text(),
{
    let mut r = "No video output devices found.\n\nTo create a virtual camera, run:\n  ".to_owned();
    r.append(MODPROBE_HINT);
    r
}

/// How to get access to a device.
pub open spec fn print_permissions_help_text() -> Seq<char> {
    "\n        → Fix permissions with:\n          sudo usermod -aG video $USER\n        → Then LOG OUT and log back in for the group change to take effect.\n        → Verify with: groups | grep video"@
}

/// How to get access to a device.
pub fn print_permissions_help() -> (r: String)
    ensures
        r@ == print_permissions_help_text(),
{
    "\n        → Fix permissions with:\n          sudo usermod -aG video $USER\n        → Then LOG OUT and log back in for the group change to take effect.\n        → Verify with: groups | grep video".to_owned()
}

/// How to install and load the module.
pub open spec fn print_setup_install_hints_text() -> Seq<char> {
    "\n        → Try installing v4l2loopback-dkms for your distro:\n          Debian/Ubuntu: sudo apt install v4l2loopback-dkms v4l-utils\n          Fedora:       sudo dnf install v4l2loopback\n          Arch:         sudo pacman -S v4l2loopback-dkms v4l-utils\n          openSUSE:     sudo zypper install v4l2loopback\n\n        → Then load with:\n          "@
        + MODPROBE_HINT@
        + "\n\n        → To load at boot, create /etc/modules-load.d/v4l2loopback.conf with:\n          v4l2loopback\n\n        → And /etc/modprobe.d/v4l2loopback.conf with:\n          options v4l2loopback exclusive_caps=1 card_label=vcam-proxy devices=1 video_nr=10"@
}

/// How to install and load the module.
pub fn print_setup_install_hints() -> (r: String)
    ensures
        r@ == print_setup_install_hints_text(),
{
    let mut r = "\n        → Try installing v4l2loopback-dkms for your distro:\n          Debian/Ubuntu: sudo apt install v4l2loopback-dkms v4l-utils\n          Fedora:       sudo dnf install v4l2loopback\n          Arch:         sudo pacman -S v4l2loopback-dkms v4l-utils\n          openSUSE:     sudo zypper install v4l2loopback\n\n        → Then load with:\n          ".to_owned();
    r.append(MODPROBE_HINT);
    r.append("\n\n        → To load at boot, create /etc/modules-load.d/v4l2loopback.conf with:\n          v4l2loopback\n\n        → And /etc/modprobe.d/v4l2loopback.conf with:\n          options v4l2loopback exclusive_caps=1 card_label=vcam-proxy devices=1 video_nr=10");
    r
}

/// The end of a setup without a problem.
pub open spec fn print_setup_ok_text() -> Seq<char> {
    "        ✓ Everything looks good! You can now run:\n          cargo run\n          # or: vcam-proxy\n        Settings live in "@
        + CONFIG_PATH_HINT@
}

/// The end of a setup without a problem.
pub fn print_setup_ok() -> (r: String)
    ensures
        r@ == print_setup_ok_text(),
{
    let mut r = "        ✓ Everything looks good! You can now run:\n          cargo run\n          # or: vcam-proxy\n        Settings live in ".to_owned();
    r.append(CONFIG_PATH_HINT);
    r
}

/// The end of a setup with a problem.
pub open spec fn print_setup_fail_text() -> Seq<char> {
    "        ✗ Some issues need fixing. See above for guidance.\n        After fixing, run this command again to verify."@
}

/// The end of a setup with a problem.
pub fn print_setup_fail() -> (r: String)
    ensures
        r@ == print_setup_fail_text(),
{
    "        ✗ Some issues need fixing. See above for guidance.\n        After fixing, run this command again to verify.".to_owned()
}

/// One line for each node that an app can open.
pub open spec fn node_lines(paths: Seq<Seq<char>>) -> Seq<char>
    decreases paths.len(),
{
    if paths.len() == 0 {
        Seq::empty()
    } else {
        node_lines(paths.drop_last()) + "\n  App "@ + crate::text::decimal_digits(paths.len())
            + " can open: "@ + paths.last()
    }
}

/// Note on the nodes that are fed.
pub fn note_multi_node_active(count: usize, paths: &Vec<String>) -> (r: String)
    ensures
        r@ == "✓ Multi-node mode active: writing to "@ + crate::text::decimal_digits(count as nat)
            + " virtual cameras"@ + node_lines(crate::text::texts(paths@)),
{
    let mut r = "✓ Multi-node mode active: writing to ".to_owned();
    r.append(decimal(count as u64).as_str());
    r.append(" virtual cameras");
    let ghost head = r@;
    let ghost all = crate::text::texts(paths@);
    assert(head + node_lines(all.take(0)) =~= head);
    for i in 0..paths.len()
        invariant
            all == crate::text::texts(paths@),
            r@ == head + node_lines(all.take(i as int)),
    {
        assert(all.take(i + 1).drop_last() =~= all.take(i as int));
        assert(all.take(i + 1).last() == paths@[i as int]@);
        let ghost before = r@;
        r.append("\n  App ");
        r.append(decimal(i as u64 + 1).as_str());
        r.append(" can open: ");
        r.append(paths[i].as_str());
        assert(r@ =~= head + node_lines(all.take(i + 1)));
    }
    assert(all.take(all.len() as int) =~= all);
    r
}

// ---- module parameters ----

/// A number of nodes between one and eight.
pub open spec fn node_count(devices: u32) -> u32 {
    if devices < 1 {
        1
    } else if devices > 8 {
        8
    } else {
        devices
    }
}

/// The numbers of the video nodes, counted from ten.
pub open spec fn node_numbers(n: nat) -> Seq<Seq<char>> {
    Seq::new(n, |i: int| crate::text::decimal_digits((10 + i) as nat))
}

/// The modprobe parameter string.
pub open spec fn module_params_text(exclusive_caps: u32, devices: u32, timeout: u32) -> Seq<char> {
    let n = node_count(devices);
    "exclusive_caps="@ + crate::text::decimal_digits(exclusive_caps as nat)
        + " card_label=vcam-proxy devices="@ + crate::text::decimal_digits(n as nat)
        + " video_nr="@ + crate::text::joined(node_numbers(n as nat), ","@)
        + " max_buffers=4 max_openers=16 timeout="@ + crate::text::decimal_digits(timeout as nat)
}

/// Build the modprobe parameter string from runtime config.
pub fn module_params(exclusive_caps: u32, devices: u32, timeout: u32) -> (r: String)
    ensures
        r@ == module_params_text(exclusive_caps, devices, timeout),
{
    let n: u32 = if devices < 1 {
        1
    } else if devices > 8 {
        8
    } else {
        devices
    };
    let mut numbers: Vec<String> = Vec::new();
    for i in 0..n
        invariant
            n <= 8,
            numbers@.len() == i,
            forall|k: int|
                0 <= k < i ==> (#[trigger] numbers@[k])@ == crate::text::decimal_digits(
                    (10 + k) as nat,
                ),
    {
        numbers.push(decimal(10 + i as u64));
    }
    assert(crate::text::texts(numbers@) =~= node_numbers(n as nat));
    let mut r = "exclusive_caps=".to_owned();
    r.append(decimal(exclusive_caps as u64).as_str());
    r.append(" card_label=vcam-proxy devices=");
    r.append(decimal(n as u64).as_str());
    r.append(" video_nr=");
    r.append(join(&numbers, ",").as_str());
    r.append(" max_buffers=4 max_openers=16 timeout=");
    r.append(decimal(timeout as u64).as_str());
    r
}

/// The default parameter string is the one that the default settings give.
pub proof fn law_default_module_params()
    ensures
        module_params_text(1, 1, 0) == DEFAULT_MODULE_PARAMS@,
{
    reveal_strlit("exclusive_caps=");
    reveal_strlit(" card_label=vcam-proxy devices=");
    reveal_strlit(" video_nr=");
    reveal_strlit(" max_buffers=4 max_openers=16 timeout=");
    reveal_strlit(
        "exclusive_caps=1 card_label=vcam-proxy devices=1 video_nr=10 max_buffers=4 max_openers=16 timeout=0",
    );
    reveal_with_fuel(crate::text::decimal_digits, 3);
    assert(crate::text::decimal_digits(1) =~= seq!['1']);
    assert(crate::text::decimal_digits(0) =~= seq!['0']);
    assert(crate::text::decimal_digits(10) =~= seq!['1', '0']);
    assert(node_numbers(1) =~= seq![crate::text::decimal_digits(10)]);
    assert(module_params_text(1, 1, 0) =~= DEFAULT_MODULE_PARAMS@);
}

/// Every node that the module is asked for has a number of its own, and there
/// are between one and eight of them.
pub proof fn law_nodes_are_distinct(devices: u32, i: int, j: int)
    requires
        0 <= i < j < node_numbers(node_count(devices) as nat).len(),
    ensures
        1 <= node_count(devices) <= 8,
        node_numbers(node_count(devices) as nat).len() == node_count(devices),
        node_numbers(node_count(devices) as nat)[i] != node_numbers(node_count(devices) as nat)[j],
{
    if crate::text::decimal_digits((10 + i) as nat) == crate::text::decimal_digits(
        (10 + j) as nat,
    ) {
        crate::text::law_decimal_injective((10 + i) as nat, (10 + j) as nat);
    }
}

/// The number of nodes is the configured one where that is from one to eight, and the
/// nearer end of that range otherwise. The nodes are numbered from ten on.
pub proof fn law_node_count(devices: u32, n: nat, i: int)
    ensures
        1 <= devices <= 8 ==> node_count(devices) == devices,
        devices == 0 ==> node_count(devices) == 1,
        devices > 8 ==> node_count(devices) == 8,
        node_numbers(n).len() == n,
        0 <= i < n ==> node_numbers(n)[i] == crate::text::decimal_digits((10 + i) as nat),
{
}

/// The lines of the nodes come one below the other, numbered from one.
pub proof fn law_node_lines(paths: Seq<Seq<char>>, path: Seq<char>)
    ensures
        node_lines(Seq::<Seq<char>>::empty()) == Seq::<char>::empty(),
        node_lines(paths.push(path)) == node_lines(paths) + ("\n  App "@
            + crate::text::decimal_digits(paths.len() + 1) + " can open: "@ + path),
{
    assert(paths.push(path).drop_last() =~= paths);
    assert(node_lines(paths.push(path)) =~= node_lines(paths) + ("\n  App "@
        + crate::text::decimal_digits(paths.len() + 1) + " can open: "@ + path));
}

/// A text without white space.
pub open spec fn is_unbroken(s: Seq<char>) -> bool {
    s.len() > 0 && forall|i: int| 0 <= i < s.len() ==> !crate::text::is_white(#[trigger] s[i])
}

/// Texts without white space are one such text together.
proof fn lemma_unbroken(a: Seq<char>, b: Seq<char>)
    requires
        is_unbroken(a),
        is_unbroken(b),
    ensures
        is_unbroken(a + b),
{
    assert forall|i: int| 0 <= i < (a + b).len() implies !crate::text::is_white(
        #[trigger] (a + b)[i],
    ) by {
        if i < a.len() {
            assert((a + b)[i] == a[i]);
        } else {
            assert((a + b)[i] == b[i - a.len()]);
        }
    }
}

/// A number is written without white space.
proof fn lemma_number_is_unbroken(n: nat)
    ensures
        is_unbroken(crate::text::decimal_digits(n)),
{
    let digits = crate::text::decimal_digits(n);
    crate::text::lemma_decimal_is_digits(n);
    assert forall|i: int| 0 <= i < digits.len() implies !crate::text::is_white(
        #[trigger] digits[i],
    ) by {
        assert(crate::text::is_digit(digits[i]));
    }
}

/// The list of node numbers is written without white space.
proof fn lemma_numbers_are_unbroken(n: nat)
    requires
        n > 0,
    ensures
        is_unbroken(crate::text::joined(node_numbers(n), ","@)),
    decreases n,
{
    let all = node_numbers(n);
    lemma_number_is_unbroken((10 + (n - 1)) as nat);
    reveal_strlit(",");
    if n > 1 {
        lemma_numbers_are_unbroken((n - 1) as nat);
        assert(all.drop_last() =~= node_numbers((n - 1) as nat));
        let front = crate::text::joined(all.drop_last(), ","@);
        assert(is_unbroken(","@)) by {
            assert(","@[0] == ',');
        }
        lemma_unbroken(front, ","@);
        lemma_unbroken(front + ","@, all.last());
    }
}

/// A word and a space are followed by the words of the rest.
proof fn lemma_next_word(word: Seq<char>, rest: Seq<char>)
    requires
        is_unbroken(word),
    ensures
        crate::text::words_of(word + seq![' '] + rest) == seq![word] + crate::text::words_of(rest),
{
    crate::text::law_one_word(word);
    crate::text::law_words_are_parted_by_white_space(word, ' ', rest);
}

/// The parameter string is seven arguments to `modprobe`, each a name and a value: the
/// configured ones with the configured values, one video number for each node, and room
/// for sixteen openers.
pub proof fn law_module_arguments(exclusive_caps: u32, devices: u32, timeout: u32)
    ensures
        ({
            let n = node_count(devices) as nat;
            crate::text::words_of(module_params_text(exclusive_caps, devices, timeout)) == seq![
                "exclusive_caps="@ + crate::text::decimal_digits(exclusive_caps as nat),
                "card_label=vcam-proxy"@,
                "devices="@ + crate::text::decimal_digits(n),
                "video_nr="@ + crate::text::joined(node_numbers(n), ","@),
                "max_buffers=4"@,
                "max_openers=16"@,
                "timeout="@ + crate::text::decimal_digits(timeout as nat),
            ]
        }),
{
    let n = node_count(devices) as nat;
    let caps_digits = crate::text::decimal_digits(exclusive_caps as nat);
    let node_digits = crate::text::decimal_digits(n);
    let numbers = crate::text::joined(node_numbers(n), ","@);
    let time_digits = crate::text::decimal_digits(timeout as nat);
    let caps = "exclusive_caps="@ + caps_digits;
    let label = "card_label=vcam-proxy"@;
    let nodes = "devices="@ + node_digits;
    let video = "video_nr="@ + numbers;
    let buffers = "max_buffers=4"@;
    let openers = "max_openers=16"@;
    let time = "timeout="@ + time_digits;
    lemma_literals();
    lemma_number_is_unbroken(exclusive_caps as nat);
    lemma_number_is_unbroken(n);
    lemma_number_is_unbroken(timeout as nat);
    lemma_numbers_are_unbroken(n);
    lemma_unbroken("exclusive_caps="@, caps_digits);
    lemma_unbroken("devices="@, node_digits);
    lemma_unbroken("video_nr="@, numbers);
    lemma_unbroken("timeout="@, time_digits);
    let s = seq![' '];
    let r6 = openers + s + time;
    let r5 = buffers + s + r6;
    let r4 = video + s + r5;
    let r3 = nodes + s + r4;
    let r2 = label + s + r3;
    let r1 = caps + s + r2;
    assert(module_params_text(exclusive_caps, devices, timeout) =~= r1);
    crate::text::law_one_word(time);
    lemma_next_word(openers, time);
    lemma_next_word(buffers, r6);
    lemma_next_word(video, r5);
    lemma_next_word(nodes, r4);
    lemma_next_word(label, r3);
    lemma_next_word(caps, r2);
    assert(crate::text::words_of(r1) =~= seq![caps, label, nodes, video, buffers, openers, time]);
}

/// The fixed parts of the parameter string, word by word.
proof fn lemma_literals()
    ensures
        is_unbroken("exclusive_caps="@),
        is_unbroken("card_label=vcam-proxy"@),
        is_unbroken("devices="@),
        is_unbroken("video_nr="@),
        is_unbroken("max_buffers=4"@),
        is_unbroken("max_openers=16"@),
        is_unbroken("timeout="@),
        " card_label=vcam-proxy devices="@ == seq![' '] + "card_label=vcam-proxy"@ + seq![' ']
            + "devices="@,
        " video_nr="@ == seq![' '] + "video_nr="@,
        " max_buffers=4 max_openers=16 timeout="@ == seq![' '] + "max_buffers=4"@ + seq![' ']
            + "max_openers=16"@ + seq![' '] + "timeout="@,
{
    reveal_strlit("exclusive_caps=");
    reveal_strlit("card_label=vcam-proxy");
    reveal_strlit("devices=");
    reveal_strlit("video_nr=");
    reveal_strlit("max_buffers=4");
    reveal_strlit("max_openers=16");
    reveal_strlit("timeout=");
    reveal_strlit(" card_label=vcam-proxy devices=");
    reveal_strlit(" video_nr=");
    reveal_strlit(" max_buffers=4 max_openers=16 timeout=");
    assert(" card_label=vcam-proxy devices="@ =~= seq![' '] + "card_label=vcam-proxy"@ + seq![' ']
        + "devices="@);
    assert(" video_nr="@ =~= seq![' '] + "video_nr="@);
    assert(" max_buffers=4 max_openers=16 timeout="@ =~= seq![' '] + "max_buffers=4"@ + seq![' ']
        + "max_openers=16"@ + seq![' '] + "timeout="@);
}

/// The notes on several nodes give each number in its place: how many are wanted before
/// how many there are, and the parameters of the reload at the end.
pub proof fn law_notes_on_nodes(
    desired: u32,
    current: usize,
    params: Seq<char>,
    err: Seq<char>,
)
    ensures
        crate::text::has_prefix(
            note_multi_node_reload_text(desired, current),
            "Multi-node mode needs "@ + crate::text::decimal_digits(desired as nat)
                + " virtual cameras but only "@ + crate::text::decimal_digits(current as nat),
        ),
        crate::text::has_prefix(
            note_multi_node_ready_text(desired),
            "✓ Multi-node mode ready: "@ + crate::text::decimal_digits(desired as nat),
        ),
        crate::text::has_prefix(
            warn_multi_node_partial_text(current, params),
            "WARNING: Module reloaded but only "@ + crate::text::decimal_digits(current as nat),
        ),
        crate::text::has_prefix(
            warn_multi_node_fallback_text(desired, params),
            "\n⚠ Multi-node mode requested ("@ + crate::text::decimal_digits(desired as nat),
        ),
        crate::text::has_prefix(
            error_multi_node_reload_text(err, params),
            "ERROR: Could not reload v4l2loopback for multi-node mode: "@ + err,
        ),
        crate::text::occurs(error_multi_node_reload_text(err, params), params),
        crate::text::occurs(warn_multi_node_fallback_text(desired, params), params),
        crate::text::occurs(warn_multi_node_partial_text(current, params), params),
{
    let want = crate::text::decimal_digits(desired as nat);
    let have = crate::text::decimal_digits(current as nat);
    let e = Seq::<char>::empty();
    let reload = note_multi_node_reload_text(desired, current);
    let head = "Multi-node mode needs "@ + want + " virtual cameras but only "@ + have;
    lemma_starts_with(reload, head);
    lemma_starts_with(
        note_multi_node_ready_text(desired),
        "✓ Multi-node mode ready: "@ + want,
    );
    let partial = warn_multi_node_partial_text(current, params);
    lemma_starts_with(partial, "WARNING: Module reloaded but only "@ + have);
    let fallback = warn_multi_node_fallback_text(desired, params);
    lemma_starts_with(fallback, "\n⚠ Multi-node mode requested ("@ + want);
    let failed = error_multi_node_reload_text(err, params);
    lemma_starts_with(failed, "ERROR: Could not reload v4l2loopback for multi-node mode: "@ + err);
    let before =
        "\n\nContinuing with the existing node(s) — multiple apps can still\nshare ONE node (native multi-reader). For manual setup:\n\nsudo modprobe -r v4l2loopback\nsudo modprobe v4l2loopback "@;
    crate::text::law_occurrence(
        "ERROR: Could not reload v4l2loopback for multi-node mode: "@ + err + before,
        params,
        "\n\nThen restart vcam-proxy."@,
        e,
    );
    crate::text::law_occurrence(
        "\n⚠ Multi-node mode requested ("@ + want
            + ") but only 1 virtual camera found.\nFalling back to a single node — multiple apps can still share it.\nTo create more nodes:\n\nsudo modprobe -r v4l2loopback\nsudo modprobe v4l2loopback "@,
        params,
        "\n"@,
        e,
    );
    let front = partial.take(partial.len() - params.len());
    crate::text::law_occurrence(front, params, e, e);
    assert(front + params + e =~= partial);
}

/// A text starts with what it was made from.
proof fn lemma_starts_with(text: Seq<char>, head: Seq<char>)
    requires
        text.len() >= head.len(),
        text.take(head.len() as int) =~= head,
    ensures
        crate::text::has_prefix(text, head),
{
    assert(text.subrange(0, head.len() as int) =~= text.take(head.len() as int));
}

/// Every guidance that tells how to load the module by hand ends with the parameters that
/// it is to be loaded with, and every report of a failure ends with the failure.
pub proof fn law_guidance_ends(params: Seq<char>, err: Seq<char>, path: Seq<char>)
    ensures
        ends_with(warn_exclusive_caps_zero_text(params), params),
        ends_with(note_pkexec_missing_text(params), params),
        ends_with(note_distro_unsupported_text(params), params),
        ends_with(note_manual_modprobe_text(params), params),
        ends_with(note_auto_load_failed_text(err), err),
        ends_with(error_scan_failed_text(err), err),
        ends_with(error_permission_text(path, err), err),
        ends_with(error_device_access_text(path, err), err),
        crate::text::has_prefix(error_permission_text(path, err), "Error: "@ + path),
        crate::text::has_prefix(error_device_access_text(path, err), "Error accessing "@ + path),
        crate::text::has_prefix(error_device_not_found_text(path), "Error: "@ + path),
        ends_with(error_no_loopback_device_text(), "\n\nVerify with: vcam-proxy --list-loopback"@),
        ends_with(print_no_loopback_list_hint_text(), MODPROBE_HINT@),
        ends_with(print_setup_ok_text(), CONFIG_PATH_HINT@),
        crate::text::occurs(error_no_loopback_device_text(), MODPROBE_HINT@),
        crate::text::occurs(print_setup_install_hints_text(), MODPROBE_HINT@),
{
    lemma_starts_with(error_permission_text(path, err), "Error: "@ + path);
    lemma_starts_with(error_device_access_text(path, err), "Error accessing "@ + path);
    lemma_starts_with(error_device_not_found_text(path), "Error: "@ + path);
    let none = error_no_loopback_device_text();
    let e = Seq::<char>::empty();
    let n = none.len() - "\n\nVerify with: vcam-proxy --list-loopback"@.len();
    let a = none.take(n - MODPROBE_HINT@.len());
    assert(none =~= a + MODPROBE_HINT@ + none.skip(n));
    crate::text::law_occurrence(a, MODPROBE_HINT@, none.skip(n), e);
    let tail =
        "\n\n        → To load at boot, create /etc/modules-load.d/v4l2loopback.conf with:\n          v4l2loopback\n\n        → And /etc/modprobe.d/v4l2loopback.conf with:\n          options v4l2loopback exclusive_caps=1 card_label=vcam-proxy devices=1 video_nr=10"@;
    let hints = print_setup_install_hints_text();
    let m = hints.len() - tail.len();
    let b = hints.take(m - MODPROBE_HINT@.len());
    assert(hints =~= b + MODPROBE_HINT@ + hints.skip(m));
    crate::text::law_occurrence(b, MODPROBE_HINT@, hints.skip(m), e);
}

/// A text ends with another.
pub open spec fn ends_with(text: Seq<char>, tail: Seq<char>) -> bool {
    text.len() >= tail.len() && text.skip(text.len() - tail.len()) =~= tail
}

/// The command that is suggested loads the module as the default parameters do, up to the
/// node's number.
pub proof fn law_suggested_command()
    ensures
        crate::text::after_prefix(MODPROBE_HINT@, "sudo modprobe v4l2loopback "@) matches Some(
            params,
        ) && crate::text::has_prefix(DEFAULT_MODULE_PARAMS@, params) && params.len() == 60,
{
    reveal_strlit("sudo modprobe v4l2loopback ");
    reveal_strlit(
        "sudo modprobe v4l2loopback exclusive_caps=1 card_label=vcam-proxy devices=1 video_nr=10",
    );
    reveal_strlit(
        "exclusive_caps=1 card_label=vcam-proxy devices=1 video_nr=10 max_buffers=4 max_openers=16 timeout=0",
    );
    let head = "sudo modprobe v4l2loopback "@;
    let params = DEFAULT_MODULE_PARAMS@.subrange(0, 60);
    assert(MODPROBE_HINT@ =~= head + params);
    crate::text::law_prefix(head, params, MODPROBE_HINT@);
}

} // verus!
