//! Command-line surface — optional overrides only.
//!
//! Prefer `~/.config/vcam-proxy/config.toml` (or the Settings GUI). CLI flags
//! exist for one-shot utilities (`--list`, `--setup`) and rare overrides.
//! A plain `vcam-proxy` uses config defaults with every feature on.

use vstd::prelude::*;

use crate::settings::Settings;

verus! {

/// The parsed command line.
#[derive(Debug)]
pub struct Config {
    /// Enumerate capture devices and exit.
    pub list: bool,
    /// List available v4l2loopback output devices and exit.
    pub list_loopback: bool,
    /// Auto-setup: check system, load module, fix permissions, then exit.
    pub setup: bool,
    /// Save current effective settings to the config file and exit.
    pub save_config: bool,
    /// Open the config file in the default editor.
    pub edit_config: bool,
    /// Show the current settings and their source, then exit.
    pub show_config: bool,
    /// Test capture without writing to the loopback device.
    pub dry_run: bool,
    /// Force the settings window open on startup.
    pub settings: bool,
    /// Run headless (no settings GUI).
    pub no_gui: bool,
    /// Disable the system-tray icon.
    pub no_tray: bool,
    /// Feed a still image instead of a webcam (demos / tests).
    pub image: Option<String>,
    /// Override: camera index.
    pub camera: Option<u32>,
    /// Override: sink backend.
    pub sink: Option<SinkKind>,
    /// Override: loopback device node.
    pub device: Option<String>,
    /// Override: named-pipe name (Windows).
    pub pipe_name: Option<String>,
    /// Override: capture width (also disables auto_resolution).
    pub width: Option<u32>,
    /// Override: capture height (also disables auto_resolution).
    pub height: Option<u32>,
    /// Override: capture frame rate.
    pub fps: Option<u32>,
    /// Override: wire format policy.
    pub format: Option<FormatPref>,
    /// Override: ring buffer depth.
    pub buffers: Option<usize>,
    /// Override: camera re-open backoff (ms).
    pub retry_ms: Option<u64>,
    /// Override: auto-load v4l2loopback when missing (`true`/`false`).
    pub auto_load_module: Option<bool>,
    /// Override: multi-reader mode (`true`/`false`).
    pub multi_reader: Option<bool>,
    /// Override: number of v4l2loopback nodes.
    pub devices: Option<u32>,
    /// Override: exclusive_caps (0 or 1).
    pub exclusive_caps: Option<u32>,
    /// Override: v4l2loopback timeout ms (`0` = keep last frame).
    pub timeout: Option<u32>,
}

/// Resolved configuration: config file + optional CLI overrides.
#[derive(Debug)]
pub struct ResolvedConfig {
    pub camera: u32,
    pub sink: SinkKind,
    pub device: String,
    pub pipe_name: String,
    pub width: u32,
    pub height: u32,
    pub fps: u32,
    pub format: FormatPref,
    pub buffers: usize,
    pub retry_ms: u64,
    pub multi_reader: bool,
    pub devices: u32,
    pub exclusive_caps: u32,
    pub timeout: u32,
    /// How long a module reload waits for busy apps, in seconds (0 = off).
    /// Lives in the settings window only; the config file does not hold it.
    pub multi_app_timeout: u32,
    pub auto_load_module: bool,
    /// When true, capture negotiates the camera's highest supported mode.
    pub auto_resolution: bool,
    pub image: Option<String>,
}

/// Which backend carries the frames out.
#[derive(Clone, Copy, Debug, PartialEq, Eq, Structural)]
pub enum SinkKind {
    Auto,
    V4l2,
    Pipe,
    Null,
}

/// Wire format preference.
#[derive(Clone, Copy, Debug, PartialEq, Eq, Structural)]
pub enum FormatPref {
    Auto,
    Yuy2,
    Rgb24,
    Nv12,
    Mjpeg,
}

impl Default for FormatPref {
    fn default() -> (r: Self)
        ensures
            r == FormatPref::Auto,
    {
        FormatPref::Auto
    }
}

impl FormatPref {
    /// The name of the variant.
    pub open spec fn label(self) -> Seq<char> {
        match self {
            FormatPref::Auto => "Auto"@,
            FormatPref::Yuy2 => "Yuy2"@,
            FormatPref::Rgb24 => "Rgb24"@,
            FormatPref::Nv12 => "Nv12"@,
            FormatPref::Mjpeg => "Mjpeg"@,
        }
    }

    /// The name of the variant, as text.
    pub fn name(self) -> (r: &'static str)
        ensures
            r@ == self.label(),
    {
        match self {
            FormatPref::Auto => "Auto",
            FormatPref::Yuy2 => "Yuy2",
            FormatPref::Rgb24 => "Rgb24",
            FormatPref::Nv12 => "Nv12",
            FormatPref::Mjpeg => "Mjpeg",
        }
    }
}

/// The override if there is one, else the value from the file.
pub open spec fn chosen<T>(over: Option<T>, file: T) -> T {
    match over {
        Some(v) => v,
        None => file,
    }
}

/// A copy of an optional text.
pub fn copy_text(t: &Option<String>) -> (r: Option<String>)
    ensures
        r == *t,
{
    match t {
        Some(s) => Some(s.clone()),
        None => None,
    }
}

impl Config {
    /// Whether the command line pins the capture geometry.
    pub open spec fn pins_geometry(self) -> bool {
        self.image is Some || self.width is Some || self.height is Some
    }

    /// A command line without any flag.
    pub open spec fn is_bare(self) -> bool {
        &&& !self.list && !self.list_loopback && !self.setup && !self.save_config
        &&& !self.edit_config && !self.show_config && !self.dry_run && !self.settings
        &&& !self.no_gui && !self.no_tray
        &&& self.image is None && self.camera is None && self.sink is None && self.device is None
        &&& self.pipe_name is None && self.width is None && self.height is None && self.fps is None
        &&& self.format is None && self.buffers is None && self.retry_ms is None
        &&& self.auto_load_module is None && self.multi_reader is None && self.devices is None
        &&& self.exclusive_caps is None && self.timeout is None
    }

    /// The command line of a plain `vcam-proxy`.
    pub fn bare() -> (r: Self)
        ensures
            r.is_bare(),
    {
        Config {
            list: false,
            list_loopback: false,
            setup: false,
            save_config: false,
            edit_config: false,
            show_config: false,
            dry_run: false,
            settings: false,
            no_gui: false,
            no_tray: false,
            image: None,
            camera: None,
            sink: None,
            device: None,
            pipe_name: None,
            width: None,
            height: None,
            fps: None,
            format: None,
            buffers: None,
            retry_ms: None,
            auto_load_module: None,
            multi_reader: None,
            devices: None,
            exclusive_caps: None,
            timeout: None,
        }
    }
}

impl ResolvedConfig {
    /// This is what merging a command line over settings gives.
    pub open spec fn merges(self, cli: Config, settings: Settings) -> bool {
        &&& self.camera == chosen(cli.camera, settings.camera)
        &&& self.sink == chosen(cli.sink, SinkKind::Auto)
        &&& self.device == chosen(cli.device, settings.device)
        &&& match cli.pipe_name {
            Some(name) => self.pipe_name == name,
            None => self.pipe_name@ == "vcam_proxy_0"@,
        }
        &&& self.width == chosen(cli.width, settings.width)
        &&& self.height == chosen(cli.height, settings.height)
        &&& self.fps == chosen(cli.fps, settings.fps)
        &&& self.format == chosen(cli.format, settings.format)
        &&& self.buffers == chosen(cli.buffers, settings.buffers)
        &&& self.retry_ms == chosen(cli.retry_ms, settings.retry_ms)
        &&& self.multi_reader == chosen(cli.multi_reader, settings.multi_reader)
        &&& self.devices == chosen(cli.devices, settings.devices)
        &&& self.exclusive_caps == chosen(cli.exclusive_caps, settings.exclusive_caps)
        &&& self.timeout == chosen(cli.timeout, settings.timeout)
        &&& self.multi_app_timeout == 0
        &&& self.auto_load_module == chosen(cli.auto_load_module, settings.auto_load_module)
        &&& self.auto_resolution == (!cli.pins_geometry() && settings.auto_resolution)
        &&& self.image == cli.image
    }

    /// The settings that this configuration stands for.
    pub open spec fn as_settings(self) -> Settings {
        Settings {
            camera: self.camera,
            device: self.device,
            width: self.width,
            height: self.height,
            fps: self.fps,
            buffers: self.buffers,
            format: self.format,
            retry_ms: self.retry_ms,
            multi_reader: self.multi_reader,
            devices: self.devices,
            exclusive_caps: self.exclusive_caps,
            timeout: self.timeout,
            auto_load_module: self.auto_load_module,
            auto_resolution: self.auto_resolution,
        }
    }

    /// The same configuration, zero geometry, rate and depth replaced.
    pub open spec fn cleaned(self) -> ResolvedConfig {
        ResolvedConfig {
            width: if self.width == 0 {
                1280
            } else {
                self.width
            },
            height: if self.height == 0 {
                720
            } else {
                self.height
            },
            fps: if self.fps == 0 {
                30
            } else {
                self.fps
            },
            buffers: if self.buffers == 0 {
                4
            } else {
                self.buffers
            },
            ..self
        }
    }

    /// Merge CLI overrides over settings-file values.
    pub fn from_cli_and_settings(cli: &Config, settings: &Settings) -> (r: Self)
        ensures
            r.merges(*cli, *settings),
    {
        let image = copy_text(&cli.image);
        // Explicit --width/--height or --image pins geometry; otherwise honor
        // the config's auto_resolution flag (default true).
        let auto_resolution = if image.is_some() || cli.width.is_some() || cli.height.is_some() {
            false
        } else {
            settings.auto_resolution
        };

        Self {
            camera: cli.camera.unwrap_or(settings.camera),
            sink: cli.sink.unwrap_or(SinkKind::Auto),
            device: match &cli.device {
                Some(device) => device.clone(),
                None => settings.device.clone(),
            },
            pipe_name: match &cli.pipe_name {
                Some(name) => name.clone(),
                None => "vcam_proxy_0".to_owned(),
            },
            width: cli.width.unwrap_or(settings.width),
            height: cli.height.unwrap_or(settings.height),
            fps: cli.fps.unwrap_or(settings.fps),
            format: cli.format.unwrap_or(settings.format),
            buffers: cli.buffers.unwrap_or(settings.buffers),
            retry_ms: cli.retry_ms.unwrap_or(settings.retry_ms),
            multi_reader: cli.multi_reader.unwrap_or(settings.multi_reader),
            devices: cli.devices.unwrap_or(settings.devices),
            exclusive_caps: cli.exclusive_caps.unwrap_or(settings.exclusive_caps),
            timeout: cli.timeout.unwrap_or(settings.timeout),
            multi_app_timeout: 0,
            auto_load_module: cli.auto_load_module.unwrap_or(settings.auto_load_module),
            auto_resolution,
            image,
        }
    }

    /// The configuration of a run without command-line overrides.
    pub fn from_settings(settings: &Settings) -> (r: Self)
        ensures
            exists|cli: Config| #[trigger] cli.is_bare() && r.merges(cli, *settings),
            r.as_settings() == *settings,
            r.sink == SinkKind::Auto,
            r.pipe_name@ == "vcam_proxy_0"@,
            r.multi_app_timeout == 0,
            r.image is None,
    {
        let cli = Config::bare();
        Self::from_cli_and_settings(&cli, settings)
    }

    /// Replaces zero geometry, frame rate and buffer depth by usable values.
    pub fn sanitized(self) -> (r: Self)
        ensures
            r == self.cleaned(),
    {
        let mut c = self;
        if c.width == 0 {
            c.width = 1280;
        }
        if c.height == 0 {
            c.height = 720;
        }
        if c.fps == 0 {
            c.fps = 30;
        }
        if c.buffers == 0 {
            c.buffers = 4;
        }
        c
    }

    /// The part of the configuration that the config file holds.
    pub fn to_settings(&self) -> (r: Settings)
        ensures
            r == self.as_settings(),
    {
        Settings {
            camera: self.camera,
            device: self.device.clone(),
            width: self.width,
            height: self.height,
            fps: self.fps,
            buffers: self.buffers,
            format: self.format,
            retry_ms: self.retry_ms,
            multi_reader: self.multi_reader,
            devices: self.devices,
            exclusive_caps: self.exclusive_caps,
            timeout: self.timeout,
            auto_load_module: self.auto_load_module,
            auto_resolution: self.auto_resolution,
        }
    }
}

impl Clone for ResolvedConfig {
    fn clone(&self) -> (r: Self)
        ensures
            r == *self,
    {
        Self {
            camera: self.camera,
            sink: self.sink,
            device: self.device.clone(),
            pipe_name: self.pipe_name.clone(),
            width: self.width,
            height: self.height,
            fps: self.fps,
            format: self.format,
            buffers: self.buffers,
            retry_ms: self.retry_ms,
            multi_reader: self.multi_reader,
            devices: self.devices,
            exclusive_caps: self.exclusive_caps,
            timeout: self.timeout,
            multi_app_timeout: self.multi_app_timeout,
            auto_load_module: self.auto_load_module,
            auto_resolution: self.auto_resolution,
            image: copy_text(&self.image),
        }
    }
}

/// A value given on the command line always wins over the config file, and a
/// value that is not given always comes from the file, for every setting that has
/// a flag. The sink and the pipe name, which the file does not hold, have defaults
/// of their own, and the image comes from the command line alone. The size that
/// the camera offers is taken only where the command line pins neither a size nor
/// an image and the file asks for it.
pub proof fn law_cli_takes_precedence(cli: Config, settings: Settings, cfg: ResolvedConfig)
    requires
        cfg.merges(cli, settings),
    ensures
        cli.camera matches Some(v) ==> cfg.camera == v,
        cli.camera is None ==> cfg.camera == settings.camera,
        cli.device matches Some(v) ==> cfg.device == v,
        cli.device is None ==> cfg.device == settings.device,
        cli.width matches Some(v) ==> cfg.width == v && !cfg.auto_resolution,
        cli.width is None ==> cfg.width == settings.width,
        cli.height matches Some(v) ==> cfg.height == v && !cfg.auto_resolution,
        cli.height is None ==> cfg.height == settings.height,
        cli.fps matches Some(v) ==> cfg.fps == v,
        cli.fps is None ==> cfg.fps == settings.fps,
        cli.format matches Some(v) ==> cfg.format == v,
        cli.format is None ==> cfg.format == settings.format,
        cli.buffers matches Some(v) ==> cfg.buffers == v,
        cli.buffers is None ==> cfg.buffers == settings.buffers,
        cli.retry_ms matches Some(v) ==> cfg.retry_ms == v,
        cli.retry_ms is None ==> cfg.retry_ms == settings.retry_ms,
        cli.multi_reader matches Some(v) ==> cfg.multi_reader == v,
        cli.multi_reader is None ==> cfg.multi_reader == settings.multi_reader,
        cli.devices matches Some(v) ==> cfg.devices == v,
        cli.devices is None ==> cfg.devices == settings.devices,
        cli.exclusive_caps matches Some(v) ==> cfg.exclusive_caps == v,
        cli.exclusive_caps is None ==> cfg.exclusive_caps == settings.exclusive_caps,
        cli.timeout matches Some(v) ==> cfg.timeout == v,
        cli.timeout is None ==> cfg.timeout == settings.timeout,
        cli.auto_load_module matches Some(v) ==> cfg.auto_load_module == v,
        cli.auto_load_module is None ==> cfg.auto_load_module == settings.auto_load_module,
        cli.sink matches Some(v) ==> cfg.sink == v,
        cli.sink is None ==> cfg.sink == SinkKind::Auto,
        cli.pipe_name matches Some(v) ==> cfg.pipe_name == v,
        cli.pipe_name is None ==> cfg.pipe_name@ == "vcam_proxy_0"@,
        cfg.image == cli.image,
        cli.image is Some ==> !cfg.auto_resolution,
        cli.image is None && cli.width is None && cli.height is None ==> cfg.auto_resolution
            == settings.auto_resolution,
        cfg.multi_app_timeout == 0,
        cli.is_bare() ==> cfg.as_settings() == settings,
{
}

/// Flags do not reach each other's settings: two runs over the same file whose
/// command lines agree on a flag agree on the setting of that flag, whatever the
/// other flags are.
pub proof fn law_flags_are_independent(
    cli1: Config,
    cli2: Config,
    settings: Settings,
    cfg1: ResolvedConfig,
    cfg2: ResolvedConfig,
)
    requires
        cfg1.merges(cli1, settings),
        cfg2.merges(cli2, settings),
    ensures
        cli1.camera == cli2.camera ==> cfg1.camera == cfg2.camera,
        cli1.device == cli2.device ==> cfg1.device == cfg2.device,
        cli1.width == cli2.width ==> cfg1.width == cfg2.width,
        cli1.height == cli2.height ==> cfg1.height == cfg2.height,
        cli1.fps == cli2.fps ==> cfg1.fps == cfg2.fps,
        cli1.format == cli2.format ==> cfg1.format == cfg2.format,
        cli1.buffers == cli2.buffers ==> cfg1.buffers == cfg2.buffers,
        cli1.retry_ms == cli2.retry_ms ==> cfg1.retry_ms == cfg2.retry_ms,
        cli1.multi_reader == cli2.multi_reader ==> cfg1.multi_reader == cfg2.multi_reader,
        cli1.devices == cli2.devices ==> cfg1.devices == cfg2.devices,
        cli1.exclusive_caps == cli2.exclusive_caps ==> cfg1.exclusive_caps == cfg2.exclusive_caps,
        cli1.timeout == cli2.timeout ==> cfg1.timeout == cfg2.timeout,
        cli1.auto_load_module == cli2.auto_load_module ==> cfg1.auto_load_module
            == cfg2.auto_load_module,
        cli1.sink == cli2.sink ==> cfg1.sink == cfg2.sink,
        cli1.pipe_name == cli2.pipe_name ==> cfg1.pipe_name@ == cfg2.pipe_name@,
        cli1.image == cli2.image ==> cfg1.image == cfg2.image,
{
}

/// A bare command line asks for no command and overrides nothing.
pub proof fn law_bare_overrides_nothing(cli: Config)
    requires
        cli.is_bare(),
    ensures
        !cli.list && !cli.list_loopback && !cli.setup && !cli.save_config && !cli.edit_config
            && !cli.show_config && !cli.dry_run && !cli.settings && !cli.no_gui && !cli.no_tray,
        cli.image is None && cli.camera is None && cli.sink is None && cli.device is None,
        cli.pipe_name is None && cli.width is None && cli.height is None && cli.fps is None,
        cli.format is None && cli.buffers is None && cli.retry_ms is None,
        cli.auto_load_module is None && cli.multi_reader is None && cli.devices is None,
        cli.exclusive_caps is None && cli.timeout is None,
{
}

/// What is saved of a configuration is each of its settings under its own name,
/// overrides of the run included.
pub proof fn law_saved_settings_are_those_in_force(cfg: ResolvedConfig)
    ensures
        ({
            let saved = cfg.as_settings();
            &&& saved.camera == cfg.camera && saved.device == cfg.device
            &&& saved.width == cfg.width && saved.height == cfg.height && saved.fps == cfg.fps
            &&& saved.buffers == cfg.buffers && saved.format == cfg.format
            &&& saved.retry_ms == cfg.retry_ms && saved.multi_reader == cfg.multi_reader
            &&& saved.devices == cfg.devices && saved.exclusive_caps == cfg.exclusive_caps
            &&& saved.timeout == cfg.timeout && saved.auto_load_module == cfg.auto_load_module
            &&& saved.auto_resolution == cfg.auto_resolution
        }),
{
}

/// Saving a configuration that came from settings alone writes the same
/// settings back.
pub proof fn law_settings_round_trip(cli: Config, settings: Settings, cfg: ResolvedConfig)
    requires
        cli.is_bare(),
        cfg.merges(cli, settings),
    ensures
        cfg.as_settings() == settings,
{
}

/// A sanitized configuration has usable geometry, rate and depth, sanitizing
/// it again changes nothing, and usable values are kept. Each of the four values is
/// replaced on its own, a zero by 1280, 720, 30 or 4, and nothing else is touched.
pub proof fn law_sanitized(cfg: ResolvedConfig)
    ensures
        cfg.cleaned().width > 0,
        cfg.cleaned().height > 0,
        cfg.cleaned().fps > 0,
        cfg.cleaned().buffers > 0,
        cfg.cleaned().cleaned() == cfg.cleaned(),
        cfg.width > 0 && cfg.height > 0 && cfg.fps > 0 && cfg.buffers > 0 ==> cfg.cleaned() == cfg,
        cfg.width > 0 ==> cfg.cleaned().width == cfg.width,
        cfg.height > 0 ==> cfg.cleaned().height == cfg.height,
        cfg.fps > 0 ==> cfg.cleaned().fps == cfg.fps,
        cfg.buffers > 0 ==> cfg.cleaned().buffers == cfg.buffers,
        cfg.width == 0 ==> cfg.cleaned().width == 1280,
        cfg.height == 0 ==> cfg.cleaned().height == 720,
        cfg.fps == 0 ==> cfg.cleaned().fps == 30,
        cfg.buffers == 0 ==> cfg.cleaned().buffers == 4,
        cfg.cleaned() == (ResolvedConfig {
            width: cfg.cleaned().width,
            height: cfg.cleaned().height,
            fps: cfg.cleaned().fps,
            buffers: cfg.cleaned().buffers,
            ..cfg
        }),
{
}

} // verus!
