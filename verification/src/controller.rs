//! Pipeline controller: the decisions that drive the capture + sink + tray
//! lifecycle with live restart.

use vstd::prelude::*;

use crate::config::FormatPref;
use crate::config::ResolvedConfig;
use crate::convert::pixel_count;
use crate::messages;
use crate::sink::build_with_path;
use crate::sink::v4l2loop::discovery::loopback_paths;
use crate::sink::v4l2loop::discovery::DeviceInfo;
use crate::sink::v4l2loop::discovery::LoopbackError;
use crate::sink::v4l2loop::module::ModuleError;
use crate::sink::v4l2loop::permissions::AccessError;
use crate::sink::Backend;
use crate::sink::Platform;
use crate::ui::GuiState;

verus! {

// ---------------------------------------------------------------------------
// A round of the controller
// ---------------------------------------------------------------------------

/// Whether the wire format is one that browsers often reject.
pub fn warns_of_format(format: FormatPref) -> (r: bool)
    ensures
        r == (format == FormatPref::Rgb24 || format == FormatPref::Mjpeg),
        r == is_rejected_by_browsers(format),
{
    format == FormatPref::Rgb24 || format == FormatPref::Mjpeg
}

/// The number of loopback nodes for a configuration.
pub open spec fn nodes_wanted(cfg: ResolvedConfig) -> u32 {
    let desired = messages::node_count(cfg.devices);
    if cfg.multi_reader && desired < 2 {
        2
    } else {
        desired
    }
}

/// Effective number of loopback nodes to create/feed.
///
/// v4l2loopback ≥ 0.14 grants the CAPTURE stream token to a **single** opener
/// per node: only ONE app can stream from a node at a time — every additional
/// app fails with EBUSY. `max_openers` only caps open *fds*, not *streams*.
///
/// Multi-app support therefore means **one node per app**: when `multi_reader`
/// is on, always create at least 2 nodes ('vcam-proxy', 'vcam-proxy-2', …) so
/// OBS, a browser, Zoom, … can each be assigned their own virtual camera.
/// (On drivers ≤ 0.13 the extra node is unused-but-harmless: those releases
/// broadcast to any number of readers on a single node.)
pub fn effective_devices(cfg: &ResolvedConfig) -> (r: u32)
    ensures
        r == nodes_wanted(*cfg),
{
    let desired: u32 = clamped_devices(cfg);
    if cfg.multi_reader && desired < 2 {
        2
    } else {
        desired
    }
}

/// The configured number of nodes, between one and eight.
fn clamped_devices(cfg: &ResolvedConfig) -> (r: u32)
    ensures
        r == messages::node_count(cfg.devices),
{
    if cfg.devices < 1 {
        1
    } else if cfg.devices > 8 {
        8
    } else {
        cfg.devices
    }
}

/// Whether more nodes are created than were configured, which is worth a log
/// line.
pub fn announces_extra_nodes(cfg: &ResolvedConfig) -> (r: bool)
    ensures
        r == (nodes_wanted(*cfg) > messages::node_count(cfg.devices)),
{
    effective_devices(cfg) > clamped_devices(cfg)
}

/// There are always between one and eight nodes, at least two of them in
/// multi-reader mode, and never fewer than were configured within that range.
pub proof fn law_effective_devices(cfg: ResolvedConfig)
    ensures
        1 <= nodes_wanted(cfg) <= 8,
        cfg.multi_reader ==> nodes_wanted(cfg) >= 2,
        1 <= cfg.devices <= 8 ==> nodes_wanted(cfg) >= cfg.devices,
        2 <= cfg.devices <= 8 || (cfg.devices == 1 && !cfg.multi_reader) ==> nodes_wanted(cfg)
            == cfg.devices,
{
}

/// The number of slots and their size for the buffer pool, `None` if a pool of
/// that size cannot be addressed.
pub fn pool_size(cfg: &ResolvedConfig) -> (r: Option<(usize, usize)>)
    ensures
        match r {
            Some(size) => size.0 == cfg.buffers && size.1 == cfg.width * cfg.height * 3 && cfg.buffers
                * 128 <= isize::MAX,
            None => cfg.width * cfg.height * 3 > usize::MAX || cfg.buffers * 128 > isize::MAX,
        },
        match r {
            Some(size) => pool_of(*cfg) == Some((size.0 as int, size.1 as int)),
            None => pool_of(*cfg) is None,
        },
{
    let bytes: u128 = pixel_count(cfg.width, cfg.height) as u128 * 3;
    if bytes > usize::MAX as u128 || cfg.buffers as u128 * 128 > isize::MAX as u128 {
        return None;
    }
    Some((cfg.buffers, bytes as usize))
}

/// Where frames come from.
pub enum CaptureSource {
    /// A still image.
    Image(String),
    /// The camera.
    Camera,
}

/// A still image takes the place of the camera.
pub fn capture_source(cfg: &ResolvedConfig) -> (r: CaptureSource)
    ensures
        r == (match cfg.image {
            Some(path) => CaptureSource::Image(path),
            None => CaptureSource::Camera,
        }),
{
    match &cfg.image {
        Some(path) => CaptureSource::Image(path.clone()),
        None => CaptureSource::Camera,
    }
}

// ---------------------------------------------------------------------------
// The module
// ---------------------------------------------------------------------------

/// What is known of the kernel module.
#[derive(Clone, Copy, Debug, PartialEq, Eq, Structural)]
pub struct ModuleFacts {
    pub loaded: bool,
    pub exclusive_caps: Option<bool>,
    pub single_streamer: Option<bool>,
    pub max_openers: Option<u32>,
}

/// Something to tell about the module.
#[derive(Clone, Copy, Debug, PartialEq, Eq, Structural)]
pub enum ModuleNotice {
    /// Loaded without exclusive_caps: browsers will not list the camera.
    ExclusiveCapsOff,
    ExclusiveCapsOn,
    /// One reader per node.
    SingleStreamer,
    /// Any number of readers per node.
    BroadcastsToReaders,
    /// Too few openers for several apps at once.
    FewOpeners(u32),
    EnoughOpeners(u32),
}

/// What there is to tell about exclusive_caps.
pub open spec fn caps_notices(facts: ModuleFacts) -> Seq<ModuleNotice> {
    match facts.exclusive_caps {
        Some(true) => seq![ModuleNotice::ExclusiveCapsOn],
        Some(false) => seq![ModuleNotice::ExclusiveCapsOff],
        None => Seq::empty(),
    }
}

/// What there is to tell about several readers.
pub open spec fn reader_notices(facts: ModuleFacts) -> Seq<ModuleNotice> {
    let streams = match facts.single_streamer {
        Some(true) => seq![ModuleNotice::SingleStreamer],
        Some(false) => seq![ModuleNotice::BroadcastsToReaders],
        None => Seq::empty(),
    };
    let openers = match facts.max_openers {
        Some(n) => if n < 2 {
            seq![ModuleNotice::FewOpeners(n)]
        } else {
            seq![ModuleNotice::EnoughOpeners(n)]
        },
        None => Seq::empty(),
    };
    streams + openers
}

/// Looks at the kernel module: what to tell about one that is loaded, and
/// whether to load one that is missing.
pub fn ensure_module(cfg: &ResolvedConfig, facts: ModuleFacts) -> (r: (Vec<ModuleNotice>, bool))
    ensures
        r.0@ == (if facts.loaded {
            caps_notices(facts) + if cfg.multi_reader {
                reader_notices(facts)
            } else {
                Seq::<ModuleNotice>::empty()
            }
        } else {
            Seq::<ModuleNotice>::empty()
        }),
        r.1 == (cfg.auto_load_module && !facts.loaded),
        r.1 == loads_module(*cfg, facts),
{
    let mut notices: Vec<ModuleNotice> = Vec::new();
    if facts.loaded {
        match facts.exclusive_caps {
            Some(on) => if on {
                notices.push(ModuleNotice::ExclusiveCapsOn);
            } else {
                notices.push(ModuleNotice::ExclusiveCapsOff);
            },
            None => {},
        }
        assert(notices@ =~= caps_notices(facts));
        if cfg.multi_reader {
            // On v4l2loopback ≥ 0.14 a single node serves only ONE streaming
            // app, which is why multi-reader feeds one node per app.
            match facts.single_streamer {
                Some(single) => if single {
                    notices.push(ModuleNotice::SingleStreamer);
                } else {
                    notices.push(ModuleNotice::BroadcastsToReaders);
                },
                None => {},
            }
            // With a low max_openers apps can't even OPEN the virtual camera
            // concurrently.
            match facts.max_openers {
                Some(n) => if n < 2 {
                    notices.push(ModuleNotice::FewOpeners(n));
                } else {
                    notices.push(ModuleNotice::EnoughOpeners(n));
                },
                None => {},
            }
            assert(notices@ =~= caps_notices(facts) + reader_notices(facts));
        } else {
            assert(notices@ =~= caps_notices(facts) + Seq::<ModuleNotice>::empty());
        }
    }
    (notices, cfg.auto_load_module && !facts.loaded)
}

/// The guidance after a failed attempt to load the module.
pub open spec fn auto_load_text(e: ModuleError, params: Seq<char>) -> Seq<char> {
    (match e {
        ModuleError::PkexecNotAvailable => messages::note_pkexec_missing_text(params),
        ModuleError::DistroNotSupported => messages::note_distro_unsupported_text(params),
        ModuleError::InstallFailed(code) => messages::note_install_failed_text(code),
        ModuleError::LoadFailed { .. } | ModuleError::NotInstalled { .. } =>
            messages::note_auto_load_failed_text(e.text()),
    }) + "\n"@ + messages::note_manual_modprobe_text(params)
}

/// The guidance after a failed attempt to load the module.
pub fn auto_load_guidance(e: &ModuleError, params: &str) -> (r: String)
    ensures
        r@ == auto_load_text(*e, params@),
{
    let mut r = match e {
        ModuleError::PkexecNotAvailable => messages::note_pkexec_missing(params),
        ModuleError::DistroNotSupported => messages::note_distro_unsupported(params),
        ModuleError::InstallFailed(code) => messages::note_install_failed(*code),
        ModuleError::LoadFailed { .. } | ModuleError::NotInstalled { .. } =>
            messages::note_auto_load_failed(e.message().as_str()),
    };
    r.append("\n");
    r.append(messages::note_manual_modprobe(params).as_str());
    r
}

/// What happened since the last decision about the number of nodes.
pub enum NodesEvent {
    /// Whether the module is loaded, and how many nodes there are.
    Counted { loaded: bool, current: usize },
    /// The reload ended.
    Reloaded(Result<(), ModuleError>),
    /// The nodes were counted again for the `attempt`-th time, counted from zero.
    Polled { attempt: u32, found: usize },
    /// The nodes were counted one last time.
    LastCount(usize),
}

/// What to do about the number of nodes next.
pub enum NodesAction {
    /// Show the text, then reload the module with more nodes.
    Reload(String),
    /// Count the nodes again after a pause of `wait_ms`.
    Poll { attempt: u32, wait_ms: u64 },
    /// Count the nodes one last time.
    CountOnce,
    /// All is done; show the text if there is one.
    Done(Option<String>),
}

/// How often the nodes are counted after a reload, every 200 ms.
pub const NODE_POLLS: u32 = 50;

/// Whether an action is the right one after an event.
pub open spec fn nodes_step(
    desired: u32,
    params: Seq<char>,
    event: NodesEvent,
    action: NodesAction,
) -> bool {
    match event {
        NodesEvent::Counted { loaded, current } => if desired < 2 || !loaded || current
            >= desired {
            action == NodesAction::Done(None)
        } else {
            action matches NodesAction::Reload(text) && text@
                == messages::note_multi_node_reload_text(desired, current)
        },
        NodesEvent::Reloaded(Ok(())) => action == (NodesAction::Poll { attempt: 0, wait_ms: 200 }),
        NodesEvent::Reloaded(Err(e)) => action matches NodesAction::Done(Some(text)) && text@
            == messages::error_multi_node_reload_text(e.text(), params),
        NodesEvent::Polled { attempt, found } => if found >= desired {
            action matches NodesAction::Done(Some(text)) && text@
                == messages::note_multi_node_ready_text(desired)
        } else if attempt + 1 < NODE_POLLS {
            action == (NodesAction::Poll { attempt: (attempt + 1) as u32, wait_ms: 200 })
        } else {
            action is CountOnce
        },
        NodesEvent::LastCount(found) => action matches NodesAction::Done(Some(text)) && text@
            == messages::warn_multi_node_partial_text(found, params),
    }
}

/// Sees to it that there is a node for every app: where nodes are missing, the
/// module is reloaded with more of them.
pub fn ensure_multi_node(desired: u32, params: &str, event: NodesEvent) -> (r: NodesAction)
    ensures
        nodes_step(desired, params@, event, r),
{
    match event {
        NodesEvent::Counted { loaded, current } => if desired < 2 || !loaded || current
            >= desired as usize {
            NodesAction::Done(None)
        } else {
            NodesAction::Reload(messages::note_multi_node_reload(desired, current))
        },
        NodesEvent::Reloaded(result) => match result {
            Ok(()) => NodesAction::Poll { attempt: 0, wait_ms: 200 },
            Err(e) => NodesAction::Done(
                Some(messages::error_multi_node_reload(e.message().as_str(), params)),
            ),
        },
        NodesEvent::Polled { attempt, found } => if found >= desired as usize {
            NodesAction::Done(Some(messages::note_multi_node_ready(desired)))
        } else if attempt < NODE_POLLS - 1 {
            NodesAction::Poll { attempt: attempt + 1, wait_ms: 200 }
        } else {
            NodesAction::CountOnce
        },
        NodesEvent::LastCount(found) => NodesAction::Done(
            Some(messages::warn_multi_node_partial(found, params)),
        ),
    }
}

/// Whether an event reports the end of an action.
pub open spec fn nodes_answers(action: NodesAction, event: NodesEvent) -> bool {
    match action {
        NodesAction::Reload(_) => event is Reloaded,
        NodesAction::Poll { attempt, .. } => event matches NodesEvent::Polled { attempt: a, .. }
            && a == attempt,
        NodesAction::CountOnce => event is LastCount,
        NodesAction::Done(_) => false,
    }
}

/// How many actions can follow, this one included.
pub open spec fn nodes_rank(action: NodesAction) -> int {
    match action {
        NodesAction::Reload(_) => NODE_POLLS + 2,
        NodesAction::Poll { attempt, .. } => if attempt < NODE_POLLS {
            NODE_POLLS - attempt + 1
        } else {
            2
        },
        NodesAction::CountOnce => 1,
        NodesAction::Done(_) => 0,
    }
}

/// Seeing to the nodes comes to an end, and the module is never reloaded while
/// there are enough nodes or only one is wanted.
pub proof fn law_multi_node_ends(
    desired: u32,
    params: Seq<char>,
    before: NodesAction,
    event: NodesEvent,
    after: NodesAction,
)
    requires
        nodes_step(desired, params, event, after),
    ensures
        nodes_answers(before, event) ==> 0 <= nodes_rank(after) < nodes_rank(before),
        after is Reload ==> desired >= 2 && (event matches NodesEvent::Counted { loaded, current }
            && loaded && current < desired),
{
}

// ---------------------------------------------------------------------------
// The sink
// ---------------------------------------------------------------------------

/// The sink to build, and what to tell about it.
pub enum SinkPlan {
    /// One device. `text` is a warning to show.
    Single { backend: Backend, native_readers: bool, text: Option<String> },
    /// Several loopback nodes. `text` lists them.
    Multi { paths: Vec<String>, text: String },
}

/// The first `n` of a list.
pub open spec fn first_of(paths: Seq<Seq<char>>, n: int) -> Seq<Seq<char>> {
    if paths.len() <= n {
        paths
    } else {
        paths.take(n)
    }
}

/// Copies the first `n` paths of a list.
fn take_paths(paths: &Vec<String>, n: usize) -> (r: Vec<String>)
    ensures
        crate::text::texts(r@) == first_of(crate::text::texts(paths@), n as int),
{
    let mut out: Vec<String> = Vec::new();
    let mut i: usize = 0;
    while i < paths.len() && i < n
        invariant
            i <= paths@.len(),
            i <= n,
            out@.len() == i,
            forall|k: int| 0 <= k < i ==> (#[trigger] out@[k])@ == paths@[k]@,
        decreases paths@.len() - i,
    {
        out.push(paths[i].clone());
        i += 1;
    }
    assert(crate::text::texts(out@) =~= first_of(crate::text::texts(paths@), n as int));
    out
}

/// Which backend a configuration gets on a platform, as `build_with_path` says.
pub open spec fn is_backend_for(
    b: Backend,
    cfg: ResolvedConfig,
    path: Seq<char>,
    platform: Platform,
) -> bool {
    match b {
        Backend::V4l2 { path: p } => crate::sink::resolved_kind(cfg.sink, platform)
            == crate::config::SinkKind::V4l2 && platform == Platform::Linux && p@ == path,
        Backend::Pipe { name } => crate::sink::resolved_kind(cfg.sink, platform)
            == crate::config::SinkKind::Pipe && platform == Platform::Windows && name
            == cfg.pipe_name,
        Backend::Null { substituted } => {
            let kind = crate::sink::resolved_kind(cfg.sink, platform);
            &&& substituted == (kind != crate::config::SinkKind::Null)
            &&& kind == crate::config::SinkKind::V4l2 ==> platform != Platform::Linux
            &&& kind == crate::config::SinkKind::Pipe ==> platform != Platform::Windows
        },
    }
}

/// Decides what frames are written to. With two nodes or more wanted and there,
/// as many loopback nodes as are wanted are fed; otherwise the one device is.
pub fn build_sink(
    cfg: &ResolvedConfig,
    desired_devices: u32,
    loopback_path: &str,
    module_params: &str,
    devices: &Vec<DeviceInfo>,
    platform: Platform,
) -> (r: SinkPlan)
    ensures
        ({
            let paths = crate::sink::v4l2loop::discovery::loopback_paths_of(devices@);
            let fed = first_of(paths, desired_devices as int);
            if desired_devices < 2 {
                &&& r matches SinkPlan::Single { backend, native_readers, text }
                &&& is_backend_for(backend, *cfg, loopback_path@, platform)
                &&& native_readers == cfg.multi_reader
                &&& text is None
            } else if paths.len() >= 2 {
                &&& r matches SinkPlan::Multi { paths: chosen, text }
                &&& crate::text::texts(chosen@) == fed
                &&& text@ == "✓ Multi-node mode active: writing to "@
                    + crate::text::decimal_digits(fed.len()) + " virtual cameras"@
                    + messages::node_lines(fed)
            } else {
                &&& r matches SinkPlan::Single { backend, native_readers, text: Some(text) }
                &&& is_backend_for(backend, *cfg, loopback_path@, platform)
                &&& !native_readers
                &&& text@ == messages::warn_multi_node_fallback_text(
                    desired_devices,
                    module_params@,
                )
            }
        }),
        r is Multi <==> feeds_several(
            desired_devices,
            crate::sink::v4l2loop::discovery::loopback_paths_of(devices@),
        ),
{
    if desired_devices < 2 {
        return SinkPlan::Single {
            backend: build_with_path(cfg, loopback_path, platform),
            native_readers: cfg.multi_reader,
            text: None,
        };
    }
    let paths = loopback_paths(devices);
    assert(crate::text::texts(paths@).len() == paths@.len());
    if paths.len() >= 2 {
        let chosen = take_paths(&paths, desired_devices as usize);
        assert(crate::text::texts(chosen@).len() == chosen@.len());
        let text = messages::note_multi_node_active(chosen.len(), &chosen);
        SinkPlan::Multi { paths: chosen, text }
    } else {
        SinkPlan::Single {
            backend: build_with_path(cfg, loopback_path, platform),
            native_readers: false,
            text: Some(messages::warn_multi_node_fallback(desired_devices, module_params)),
        }
    }
}

/// Multi-node mode feeds at least two nodes and never more than are wanted.
pub proof fn law_multi_node_feeds_what_is_wanted(paths: Seq<Seq<char>>, desired: u32)
    requires
        desired >= 2,
        paths.len() >= 2,
    ensures
        2 <= first_of(paths, desired as int).len() <= desired,
        forall|i: int|
            0 <= i < first_of(paths, desired as int).len() ==> #[trigger] first_of(
                paths,
                desired as int,
            )[i] == paths[i],
{
}

// ---------------------------------------------------------------------------
// Errors
// ---------------------------------------------------------------------------

/// The guidance for a system without a usable loopback device.
pub fn loopback_guidance(e: &LoopbackError) -> (r: String)
    ensures
        r@ == (match *e {
            LoopbackError::NoDeviceFound => messages::error_no_loopback_device_text(),
            LoopbackError::ScanFailed { source } => messages::error_scan_failed_text(source@),
        }),
{
    match e {
        LoopbackError::NoDeviceFound => messages::error_no_loopback_device(),
        LoopbackError::ScanFailed { source } => messages::error_scan_failed(source.as_str()),
    }
}

/// The guidance for a device that cannot be opened.
pub fn access_guidance(e: &AccessError, loopback_path: &str) -> (r: String)
    ensures
        r@ == (match *e {
            AccessError::NotFound { path } => messages::error_device_not_found_text(path@),
            AccessError::PermissionDenied { suggestion, .. } => messages::error_permission_text(
                e.text(),
                suggestion@,
            ),
            AccessError::Other { .. } => messages::error_device_access_text(
                loopback_path@,
                e.text(),
            ),
        }),
{
    match e {
        AccessError::NotFound { path } => messages::error_device_not_found(path.as_str()),
        AccessError::PermissionDenied { suggestion, .. } => messages::error_permission(
            e.message().as_str(),
            suggestion.as_str(),
        ),
        AccessError::Other { .. } => messages::error_device_access(
            loopback_path,
            e.message().as_str(),
        ),
    }
}

// ---------------------------------------------------------------------------
// Waiting
// ---------------------------------------------------------------------------

/// Whether waiting is over, and whether with a restart.
pub open spec fn wait_end(gui: Option<GuiState>, shutdown: bool) -> Option<bool> {
    if gui matches Some(state) && state.restart {
        Some(true)
    } else if gui matches Some(state) && state.quit {
        Some(false)
    } else if shutdown {
        Some(false)
    } else {
        None
    }
}

/// Looks whether waiting is over: `Some(true)` asks for a restart, `Some(false)`
/// ends the run, `None` waits on. A restart wins over quitting, and the settings
/// window over the shutdown flag.
pub fn poll_end(gui: Option<&GuiState>, shutdown: bool) -> (r: Option<bool>)
    ensures
        r == wait_end(
            match gui {
                Some(state) => Some(*state),
                None => None,
            },
            shutdown,
        ),
{
    if let Some(state) = gui {
        if state.restart {
            return Some(true);
        }
        if state.quit {
            return Some(false);
        }
    }
    if shutdown {
        return Some(false);
    }
    None
}

// ---------------------------------------------------------------------------
// The run
// ---------------------------------------------------------------------------

/// What happened since the last decision of the run.
pub enum RunEvent {
    /// A round begins.
    RoundBegins,
    /// The module was seen to, and a device was looked for.
    DeviceSought(Result<String, LoopbackError>),
    /// Access to the device was checked.
    AccessChecked { path: String, result: Result<(), AccessError> },
    /// Waiting for the user after an error ended: with a restart, or not.
    Waited { restart: bool },
    /// The pipeline ran and was torn down.
    PipelineEnded { restart: bool, quit: bool },
    /// The dry run ended.
    DryRunEnded,
}

/// What the run does next.
pub enum RunAction {
    /// Capture without a virtual camera.
    DryRun,
    /// See to `nodes` nodes of the module with these parameters, then look for a
    /// device.
    Prepare { nodes: u32, params: String },
    /// Check access to this device.
    CheckAccess(String),
    /// Show the text, then wait for the user to restart or quit.
    ExplainAndWait(String),
    /// Start the pipeline on this device.
    Launch(String),
    /// Begin another round after this many milliseconds.
    NextRound { wait_ms: u64 },
    /// End the run; `by_gui` if the user quit in the settings window.
    Finish { by_gui: bool },
    /// End the process with this exit code.
    Exit(u32),
}

/// Whether an action is the right one after an event.
pub open spec fn run_step(
    dry_run: bool,
    cfg: ResolvedConfig,
    event: RunEvent,
    action: RunAction,
) -> bool {
    match event {
        RunEvent::RoundBegins => if dry_run {
            action is DryRun
        } else {
            action matches RunAction::Prepare { nodes, params } && nodes == nodes_wanted(cfg)
                && params@ == messages::module_params_text(cfg.exclusive_caps, nodes, cfg.timeout)
        },
        RunEvent::DryRunEnded => action == (RunAction::Finish { by_gui: false }),
        RunEvent::DeviceSought(Ok(path)) => action == RunAction::CheckAccess(path),
        RunEvent::DeviceSought(Err(e)) => action matches RunAction::ExplainAndWait(text) && text@
            == (match e {
            LoopbackError::NoDeviceFound => messages::error_no_loopback_device_text(),
            LoopbackError::ScanFailed { source } => messages::error_scan_failed_text(source@),
        }),
        RunEvent::AccessChecked { path, result: Ok(()) } => action == RunAction::Launch(path),
        RunEvent::AccessChecked { path, result: Err(e) } => action matches RunAction::ExplainAndWait(
            text,
        ) && text@ == (match e {
            AccessError::NotFound { path: p } => messages::error_device_not_found_text(p@),
            AccessError::PermissionDenied { suggestion, .. } => messages::error_permission_text(
                e.text(),
                suggestion@,
            ),
            AccessError::Other { .. } => messages::error_device_access_text(path@, e.text()),
        }),
        RunEvent::Waited { restart } => if restart {
            action == (RunAction::NextRound { wait_ms: 0 })
        } else {
            action == RunAction::Exit(1)
        },
        RunEvent::PipelineEnded { restart, quit } => if quit {
            action == (RunAction::Finish { by_gui: true })
        } else if restart {
            action == (RunAction::NextRound { wait_ms: 200 })
        } else {
            action == (RunAction::Finish { by_gui: false })
        },
    }
}

/// Drives the run: a round prepares the module, finds and checks a device, and
/// starts the pipeline; the settings window can ask for another round. A device
/// that is missing or cannot be opened is explained, and the user may restart
/// from there. `cfg` is the configuration of the current round.
pub fn run(dry_run: bool, cfg: &ResolvedConfig, event: RunEvent) -> (r: RunAction)
    ensures
        run_step(dry_run, *cfg, event, r),
{
    match event {
        RunEvent::RoundBegins => {
            if dry_run {
                return RunAction::DryRun;
            }
            let nodes: u32 = effective_devices(cfg);
            RunAction::Prepare {
                nodes,
                params: messages::module_params(cfg.exclusive_caps, nodes, cfg.timeout),
            }
        },
        RunEvent::DryRunEnded => RunAction::Finish { by_gui: false },
        RunEvent::DeviceSought(sought) => match sought {
            Ok(path) => RunAction::CheckAccess(path),
            Err(e) => RunAction::ExplainAndWait(loopback_guidance(&e)),
        },
        RunEvent::AccessChecked { path, result } => match result {
            Ok(()) => RunAction::Launch(path),
            Err(e) => RunAction::ExplainAndWait(access_guidance(&e, path.as_str())),
        },
        RunEvent::Waited { restart } => if restart {
            RunAction::NextRound { wait_ms: 0 }
        } else {
            RunAction::Exit(1)
        },
        RunEvent::PipelineEnded { restart, quit } => if quit {
            RunAction::Finish { by_gui: true }
        } else if restart {
            RunAction::NextRound { wait_ms: 200 }
        } else {
            RunAction::Finish { by_gui: false }
        },
    }
}

/// The state after `frames` frames of the window in which nothing is clicked.
pub open spec fn after_frames(state: GuiState, frames: nat) -> GuiState
    decreases frames,
{
    if frames == 0 {
        state
    } else {
        after_frames(state, (frames - 1) as nat).frame_begun()
    }
}

/// One "Apply & Restart" restarts the pipeline exactly once: the request ends the
/// wait however many frames passed, the run goes on with another round, and once the
/// round took the request up, the pipeline keeps running until the next restart, quit
/// or shutdown, again however many frames pass.
pub proof fn law_one_restart_per_request(
    state: GuiState,
    before: nat,
    after: nat,
    dry_run: bool,
    cfg: ResolvedConfig,
    action: RunAction,
)
    requires
        state.restart,
        !state.quit,
        run_step(
            dry_run,
            cfg,
            RunEvent::PipelineEnded { restart: true, quit: after_frames(state, before).quit },
            action,
        ),
    ensures
        wait_end(Some(after_frames(state, before)), false) == Some(true),
        action == (RunAction::NextRound { wait_ms: 200 }),
        after_frames(state, before).desired == state.desired,
        wait_end(Some(after_frames(after_frames(state, before).taken_up(), after)), false) is None,
{
    lemma_frames_keep_requests(state, before);
    lemma_frames_keep_requests(after_frames(state, before).taken_up(), after);
}

/// Frames in which nothing is clicked change no request.
proof fn lemma_frames_keep_requests(state: GuiState, frames: nat)
    ensures
        after_frames(state, frames).restart == state.restart,
        after_frames(state, frames).quit == state.quit,
        after_frames(state, frames).desired == state.desired,
    decreases frames,
{
    if frames > 0 {
        lemma_frames_keep_requests(state, (frames - 1) as nat);
    }
}

/// The pipeline is only ever started on a device whose access was just checked
/// and granted, and never in a dry run's place: a dry run prepares nothing.
pub proof fn law_launch_needs_access(
    dry_run: bool,
    cfg: ResolvedConfig,
    event: RunEvent,
    action: RunAction,
)
    requires
        run_step(dry_run, cfg, event, action),
    ensures
        action matches RunAction::Launch(device) ==> (
        event matches RunEvent::AccessChecked { path, result } && path == device && result is Ok),
        action matches RunAction::CheckAccess(device) ==> (event matches RunEvent::DeviceSought(
            found,
        ) && found == Ok::<String, LoopbackError>(device)),
        action is Prepare ==> !dry_run,
        action is Exit ==> (event matches RunEvent::Waited { restart } && !restart),
{
}

// ---------------------------------------------------------------------------
// Laws of the decisions
// ---------------------------------------------------------------------------

/// The number of nodes is the configured one, taken into the range from one to eight,
/// and two where several apps are to read and only one node would be there. More
/// configured nodes never give fewer.
pub proof fn law_nodes_by_configuration(cfg: ResolvedConfig, more: ResolvedConfig)
    ensures
        cfg.devices > 8 ==> nodes_wanted(cfg) == 8,
        2 <= cfg.devices <= 8 ==> nodes_wanted(cfg) == cfg.devices,
        cfg.devices <= 1 ==> nodes_wanted(cfg) == if cfg.multi_reader {
            2
        } else {
            1int
        },
        cfg.devices <= more.devices && cfg.multi_reader == more.multi_reader ==> nodes_wanted(cfg)
            <= nodes_wanted(more),
{
}

/// Each thing that is known of the module is told once, and nothing is told of what is
/// not known: whether browsers list the camera, how many readers a node has, and whether
/// the openers are enough, which takes two.
pub proof fn law_module_notices(facts: ModuleFacts)
    ensures
        facts.exclusive_caps is None ==> caps_notices(facts).len() == 0,
        facts.exclusive_caps == Some(true) ==> caps_notices(facts) == seq![
            ModuleNotice::ExclusiveCapsOn,
        ],
        facts.exclusive_caps == Some(false) ==> caps_notices(facts) == seq![
            ModuleNotice::ExclusiveCapsOff,
        ],
        reader_notices(facts).contains(ModuleNotice::SingleStreamer) <==> facts.single_streamer
            == Some(true),
        reader_notices(facts).contains(ModuleNotice::BroadcastsToReaders)
            <==> facts.single_streamer == Some(false),
        facts.max_openers matches Some(n) ==> reader_notices(facts).last() == if n < 2 {
            ModuleNotice::FewOpeners(n)
        } else {
            ModuleNotice::EnoughOpeners(n)
        },
        reader_notices(facts).len() == (if facts.single_streamer is Some {
            1int
        } else {
            0int
        }) + (if facts.max_openers is Some {
            1int
        } else {
            0int
        }),
{
    let all = reader_notices(facts);
    if facts.single_streamer is Some {
        assert(all[0] == if facts.single_streamer->Some_0 {
            ModuleNotice::SingleStreamer
        } else {
            ModuleNotice::BroadcastsToReaders
        });
    }
}

/// Nodes are seen to step by step: the module is reloaded exactly where it is loaded and
/// has fewer nodes than the two or more that are wanted; then they are counted up to
/// fifty times, a fifth of a second apart, and a last time, until they are there.
pub proof fn law_nodes_step_by_step(
    desired: u32,
    params: Seq<char>,
    loaded: bool,
    current: usize,
    attempt: u32,
    found: usize,
    action: NodesAction,
)
    ensures
        ({
            let event = NodesEvent::Counted { loaded, current };
            let missing = desired >= 2 && loaded && current < desired;
            &&& nodes_step(desired, params, event, action) ==> (action is Reload <==> missing)
            &&& !missing ==> (nodes_step(desired, params, event, action) <==> action
                == NodesAction::Done(None))
        }),
        nodes_step(desired, params, NodesEvent::Reloaded(Ok(())), action) <==> action == (
        NodesAction::Poll { attempt: 0, wait_ms: 200 }),
        ({
            let event = NodesEvent::Polled { attempt, found };
            &&& found >= desired && nodes_step(desired, params, event, action) ==> action is Done
            &&& found < desired && attempt < 49 ==> (nodes_step(desired, params, event, action)
                <==> action == (NodesAction::Poll { attempt: (attempt + 1) as u32, wait_ms: 200 }))
            &&& found < desired && attempt >= 49 ==> (nodes_step(desired, params, event, action)
                <==> action is CountOnce)
        }),
        nodes_step(desired, params, NodesEvent::LastCount(found), action) ==> (action matches
            NodesAction::Done(text) && text is Some),
{
}

/// The nodes that are fed are the first ones, as many as are wanted or as there are.
pub proof fn law_first_nodes(paths: Seq<Seq<char>>, n: int, i: int)
    requires
        0 <= n,
    ensures
        first_of(paths, n).len() == if paths.len() < n {
            paths.len() as int
        } else {
            n
        },
        0 <= i < first_of(paths, n).len() ==> first_of(paths, n)[i] == paths[i],
{
}

/// Every configuration has a backend on every platform: on Linux the loopback device at
/// the path, on Windows the pipe of the configured name, and the null sink wherever it is
/// asked for or the platform has nothing else, where it says that it stands in.
pub proof fn law_backends(b: Backend, cfg: ResolvedConfig, path: Seq<char>, platform: Platform)
    requires
        is_backend_for(b, cfg, path, platform),
    ensures
        ({
            let wanted = cfg.sink;
            let linux = platform == Platform::Linux;
            let windows = platform == Platform::Windows;
            let auto = wanted == crate::config::SinkKind::Auto;
            &&& linux && (auto || wanted == crate::config::SinkKind::V4l2) ==> (b matches
                Backend::V4l2 { path: p } && p@ == path)
            &&& windows && (auto || wanted == crate::config::SinkKind::Pipe) ==> b == (
            Backend::Pipe { name: cfg.pipe_name })
            &&& wanted == crate::config::SinkKind::Null ==> b == (Backend::Null {
                substituted: false,
            })
            &&& !linux && !windows && auto ==> b == (Backend::Null { substituted: false })
            &&& !linux && wanted == crate::config::SinkKind::V4l2 ==> b == (Backend::Null {
                substituted: true,
            })
            &&& !windows && wanted == crate::config::SinkKind::Pipe ==> b == (Backend::Null {
                substituted: true,
            })
        }),
{
}

/// Waiting ends with a restart whenever one is asked for, whatever else is; otherwise
/// with the end of the run, when the user quits or shutdown was requested; and else not.
pub proof fn law_how_waiting_ends(state: GuiState, shutdown: bool)
    ensures
        state.restart ==> wait_end(Some(state), shutdown) == Some(true),
        !state.restart && (state.quit || shutdown) ==> wait_end(Some(state), shutdown) == Some(
            false,
        ),
        !state.restart && !state.quit && !shutdown ==> wait_end(Some(state), shutdown) is None,
        wait_end(None, shutdown) == if shutdown {
            Some(false)
        } else {
            None
        },
{
}

/// A round goes from the module to the device, to access, to the pipeline, one step at a
/// time. A dry run takes the place of all of them. A device that is missing or cannot be
/// opened is explained; a restart begins another round, at once from there and after a
/// fifth of a second from a pipeline, and quitting wins over it.
pub proof fn law_run_step_by_step(
    dry_run: bool,
    cfg: ResolvedConfig,
    path: String,
    missing: LoopbackError,
    denied: AccessError,
    restart: bool,
    action: RunAction,
)
    ensures
        run_step(true, cfg, RunEvent::RoundBegins, action) <==> action is DryRun,
        run_step(false, cfg, RunEvent::RoundBegins, action) ==> (action matches
            RunAction::Prepare { nodes, params } && nodes == nodes_wanted(cfg) && params@
            == messages::module_params_text(cfg.exclusive_caps, nodes_wanted(cfg), cfg.timeout)),
        run_step(dry_run, cfg, RunEvent::DryRunEnded, action) <==> action == (RunAction::Finish {
            by_gui: false,
        }),
        run_step(dry_run, cfg, RunEvent::DeviceSought(Ok(path)), action) <==> action
            == RunAction::CheckAccess(path),
        run_step(dry_run, cfg, RunEvent::DeviceSought(Err(missing)), action) ==> action is
            ExplainAndWait,
        run_step(dry_run, cfg, RunEvent::AccessChecked { path, result: Ok(()) }, action)
            <==> action == RunAction::Launch(path),
        run_step(dry_run, cfg, RunEvent::AccessChecked { path, result: Err(denied) }, action)
            ==> action is ExplainAndWait,
        run_step(dry_run, cfg, RunEvent::Waited { restart: true }, action) <==> action == (
        RunAction::NextRound { wait_ms: 0 }),
        run_step(dry_run, cfg, RunEvent::Waited { restart: false }, action) <==> action
            == RunAction::Exit(1),
        run_step(dry_run, cfg, RunEvent::PipelineEnded { restart, quit: true }, action)
            <==> action == (RunAction::Finish { by_gui: true }),
        run_step(dry_run, cfg, RunEvent::PipelineEnded { restart: true, quit: false }, action)
            <==> action == (RunAction::NextRound { wait_ms: 200 }),
        run_step(dry_run, cfg, RunEvent::PipelineEnded { restart: false, quit: false }, action)
            <==> action == (RunAction::Finish { by_gui: false }),
{
}

/// Whatever kept the module from being loaded, the guidance says how to load it by hand,
/// with the parameters of this run.
pub proof fn law_guidance_ends_with_the_command(e: ModuleError, params: Seq<char>)
    ensures
        ({
            let text = auto_load_text(e, params);
            &&& text.len() >= params.len()
            &&& text.skip(text.len() - params.len()) == params
        }),
{
    let text = auto_load_text(e, params);
    let hint = "\nYou can also load it manually:\n  sudo modprobe v4l2loopback "@;
    assert(messages::note_manual_modprobe_text(params) == hint + params);
    assert(text.skip(text.len() - params.len()) =~= params);
}

/// Whether browsers often reject the wire format.
pub open spec fn is_rejected_by_browsers(format: FormatPref) -> bool {
    format == FormatPref::Rgb24 || format == FormatPref::Mjpeg
}

/// Browsers take YUYV and NV12; what they reject is neither, nor what `Auto` puts out.
pub proof fn law_browser_formats(format: FormatPref)
    ensures
        is_rejected_by_browsers(format) <==> format != FormatPref::Auto && format
            != FormatPref::Yuy2 && format != FormatPref::Nv12,
{
}

/// The number of slots of the pool and their size.
pub open spec fn pool_of(cfg: ResolvedConfig) -> Option<(int, int)> {
    if cfg.width * cfg.height * 3 > usize::MAX || cfg.buffers * 128 > isize::MAX {
        None
    } else {
        Some((cfg.buffers as int, cfg.width * cfg.height * 3))
    }
}

/// A slot of the pool holds a picture of the configured size in every packed format, and
/// there are as many slots as were configured.
pub proof fn law_slots_hold_a_picture(cfg: ResolvedConfig, format: crate::frame::PixelFormat)
    ensures
        pool_of(cfg) matches Some(size) ==> {
            &&& size.0 == cfg.buffers
            &&& size.1 == 3 * (cfg.width * cfg.height)
            &&& format.packed_bytes(cfg.width, cfg.height) matches Some(n) ==> n <= size.1
        },
        pool_of(cfg) is None <==> 3 * (cfg.width * cfg.height) > usize::MAX || 128 * cfg.buffers
            > isize::MAX,
{
    assert(0 <= cfg.width as int * cfg.height as int) by (nonlinear_arith);
}

/// Whether the module is to be loaded.
pub open spec fn loads_module(cfg: ResolvedConfig, facts: ModuleFacts) -> bool {
    cfg.auto_load_module && !facts.loaded
}

/// A module that is loaded is left alone, and one that is missing is loaded only where
/// that is wanted.
pub proof fn law_module_is_loaded_on_demand(cfg: ResolvedConfig, facts: ModuleFacts)
    ensures
        facts.loaded ==> !loads_module(cfg, facts),
        !facts.loaded ==> (loads_module(cfg, facts) <==> cfg.auto_load_module),
{
}

/// Whether several nodes are fed.
pub open spec fn feeds_several(desired: u32, paths: Seq<Seq<char>>) -> bool {
    desired >= 2 && paths.len() >= 2
}

/// Several nodes are fed exactly where two or more are wanted and there; with one wanted
/// or one there, the one device is fed, however many of the other there are.
pub proof fn law_when_several_nodes_are_fed(desired: u32, paths: Seq<Seq<char>>)
    ensures
        desired <= 1 ==> !feeds_several(desired, paths),
        paths.len() <= 1 ==> !feeds_several(desired, paths),
        desired > 1 && paths.len() > 1 ==> feeds_several(desired, paths),
{
}

/// The guidance for a failed load tells the cause: no `pkexec`, an unknown distribution, a
/// failed installation with its exit code, or else the failure itself.
pub proof fn law_guidance_tells_the_cause(e: ModuleError, params: Seq<char>)
    ensures
        e is PkexecNotAvailable ==> crate::text::has_prefix(
            auto_load_text(e, params),
            messages::note_pkexec_missing_text(params),
        ),
        e is DistroNotSupported ==> crate::text::has_prefix(
            auto_load_text(e, params),
            messages::note_distro_unsupported_text(params),
        ),
        e matches ModuleError::InstallFailed(code) ==> crate::text::has_prefix(
            auto_load_text(e, params),
            "Package installation failed (exit code "@ + crate::text::signed_digits(code as int),
        ),
        e is LoadFailed || e is NotInstalled ==> crate::text::has_prefix(
            auto_load_text(e, params),
            "Failed to auto-load v4l2loopback module: "@ + e.text(),
        ),
{
    let text = auto_load_text(e, params);
    match e {
        ModuleError::PkexecNotAvailable => {
            lemma_head(text, messages::note_pkexec_missing_text(params));
        },
        ModuleError::DistroNotSupported => {
            lemma_head(text, messages::note_distro_unsupported_text(params));
        },
        ModuleError::InstallFailed(code) => {
            lemma_head(
                text,
                "Package installation failed (exit code "@ + crate::text::signed_digits(
                    code as int,
                ),
            );
        },
        _ => {
            lemma_head(text, "Failed to auto-load v4l2loopback module: "@ + e.text());
        },
    }
}

/// A text starts with its own start.
proof fn lemma_head(text: Seq<char>, head: Seq<char>)
    requires
        text.len() >= head.len(),
        text.subrange(0, head.len() as int) =~= head,
    ensures
        crate::text::has_prefix(text, head),
{
}

} // verus!
