//! Persistent configuration file support.
//!
//! Settings are stored in TOML format at `~/.config/vcam-proxy/config.toml`.
//! CLI arguments always take precedence over file settings.
//!
//! Example config file:
//! ```toml
//! camera = 0
//! device = "/dev/video10"
//! width = 1280
//! height = 720
//! fps = 30
//! buffers = 4
//! format = "auto"
//! retry_ms = 1000
//! multi_reader = true
//! devices = 1
//! exclusive_caps = 1
//! timeout = 0
//! auto_load_module = true
//! auto_resolution = true
//! ```

use vstd::prelude::*;

use crate::config::FormatPref;

verus! {

/// Persistent settings that can be saved to and loaded from a config file.
#[derive(Debug)]
pub struct Settings {
    /// Physical camera index.
    pub camera: u32,
    /// Virtual device node path.
    pub device: String,
    /// Requested capture width.
    pub width: u32,
    /// Requested capture height.
    pub height: u32,
    /// Requested frame rate.
    pub fps: u32,
    /// Number of frame buffers in circulation.
    pub buffers: usize,
    /// Wire format preference.
    pub format: FormatPref,
    /// Backoff between camera re-open attempts (ms).
    pub retry_ms: u64,
    /// Allow multiple apps to read the virtual camera at the same time.
    pub multi_reader: bool,
    /// Number of v4l2loopback device nodes to feed (multi-node mode).
    /// 1 = a single virtual camera (default). >=2 writes the feed to N
    /// isolated nodes for apps that grab a device exclusively.
    pub devices: u32,
    /// v4l2loopback exclusive_caps parameter (0 or 1).
    /// Controls capability advertisement only (CAPTURE-only while a producer
    /// is attached, so browsers list the node as a camera). It does NOT limit
    /// the number of concurrent readers. Keep at 1.
    pub exclusive_caps: u32,
    /// v4l2loopback timeout in ms (how long frames persist without a reader);
    /// 0 keeps the last frame.
    pub timeout: u32,
    /// Load the kernel module when it is missing.
    pub auto_load_module: bool,
    /// Prefer the camera's highest mode over `width` and `height`.
    pub auto_resolution: bool,
}

pub fn default_device() -> (r: String)
    ensures
        r@ == "/dev/video10"@,
{
    "/dev/video10".to_owned()
}

pub fn default_width() -> (r: u32)
    ensures
        r == 1280,
{
    1280
}

pub fn default_height() -> (r: u32)
    ensures
        r == 720,
{
    720
}

pub fn default_fps() -> (r: u32)
    ensures
        r == 30,
{
    30
}

pub fn default_buffers() -> (r: usize)
    ensures
        r == 4,
{
    4
}

pub fn default_retry_ms() -> (r: u64)
    ensures
        r == 1000,
{
    1000
}

pub fn default_multi_reader() -> (r: bool)
    ensures
        r,
{
    true
}

pub fn default_devices() -> (r: u32)
    ensures
        r == 1,
{
    1
}

pub fn default_exclusive_caps() -> (r: u32)
    ensures
        r == 1,
{
    1
}

/// `0` keeps the last frame, so that readers never see a reconnect flash.
pub fn default_timeout() -> (r: u32)
    ensures
        r == 0,
{
    0
}

pub fn default_auto_load_module() -> (r: bool)
    ensures
        r,
{
    true
}

pub fn default_auto_resolution() -> (r: bool)
    ensures
        r,
{
    true
}

impl Settings {
    /// Every value is the documented default.
    pub open spec fn is_default(self) -> bool {
        &&& self.camera == 0
        &&& self.device@ == "/dev/video10"@
        &&& self.width == 1280
        &&& self.height == 720
        &&& self.fps == 30
        &&& self.buffers == 4
        &&& self.format == FormatPref::Auto
        &&& self.retry_ms == 1000
        &&& self.multi_reader
        &&& self.devices == 1
        &&& self.exclusive_caps == 1
        &&& self.timeout == 0
        &&& self.auto_load_module
        &&& self.auto_resolution
    }
}

// The no-config-file path uses the same sane values as a config file that
// leaves the keys out: a zeroed `buffers` or geometry would yield an empty
// buffer pool and drop every captured frame.
impl Default for Settings {
    fn default() -> (r: Self)
        ensures
            r.is_default(),
    {
        Self {
            camera: 0,
            device: default_device(),
            width: default_width(),
            height: default_height(),
            fps: default_fps(),
            buffers: default_buffers(),
            format: FormatPref::Auto,
            retry_ms: default_retry_ms(),
            multi_reader: default_multi_reader(),
            devices: default_devices(),
            exclusive_caps: default_exclusive_caps(),
            timeout: default_timeout(),
            auto_load_module: default_auto_load_module(),
            auto_resolution: default_auto_resolution(),
        }
    }
}

impl Clone for Settings {
    fn clone(&self) -> (r: Self)
        ensures
            r == *self,
    {
        Self {
            camera: self.camera,
            device: self.device.clone(),
            width: self.width,
            height: self.height,
            fps: self.fps,
            buffers: self.buffers,
            format: self.format,
            retry_ms: self.retry_ms,
            multi_reader: self.multi_reader,
            devices: self.devices,
            exclusive_caps: self.exclusive_caps,
            timeout: self.timeout,
            auto_load_module: self.auto_load_module,
            auto_resolution: self.auto_resolution,
        }
    }
}

/// The directory that holds the config directory when the user has none.
pub open spec fn config_base(user_config_dir: Option<Seq<char>>) -> Seq<char> {
    match user_config_dir {
        Some(dir) => dir,
        None => "/tmp"@,
    }
}

/// `base` and `name` with one separator between them.
pub open spec fn path_joined(base: Seq<char>, name: Seq<char>) -> Seq<char> {
    if base.len() == 0 || base.last() == '/' {
        base + name
    } else {
        base + "/"@ + name
    }
}

/// Joins a relative name to a directory path.
fn join_path(base: &str, name: &str) -> (r: String)
    ensures
        r@ == path_joined(base@, name@),
{
    let mut r = base.to_owned();
    let n: usize = base.unicode_len();
    if n > 0 && base.get_char(n - 1) != '/' {
        r.append("/");
    }
    r.append(name);
    r
}

/// What reading the config file came to.
pub enum ConfigRead {
    /// There is no file at the config path.
    Missing,
    /// The file could not be read.
    Unreadable,
    /// The file is not valid TOML, or does not hold settings.
    Invalid,
    /// The settings in the file.
    Parsed(Settings),
}

/// What creating the config file takes.
#[derive(Clone, Copy, Debug, PartialEq, Eq, Structural)]
pub enum CreateStep {
    /// Write the default settings to the config path.
    WriteDefaults,
    /// The file is there: leave it alone.
    Keep,
}

impl Settings {
    /// The config file path, from the user's config directory (`XDG_CONFIG_HOME`
    /// or `~/.config`). Without one, the file goes under `/tmp`.
    pub fn config_path(user_config_dir: Option<&str>) -> (r: String)
        ensures
            r@ == path_joined(
                path_joined(
                    config_base(
                        match user_config_dir {
                            Some(dir) => Some(dir@),
                            None => None,
                        },
                    ),
                    "vcam-proxy"@,
                ),
                "config.toml"@,
            ),
            r@ == config_file(
                match user_config_dir {
                    Some(dir) => Some(dir@),
                    None => None,
                },
            ),
    {
        let base: &str = match user_config_dir {
            Some(dir) => dir,
            None => "/tmp",
        };
        let dir = join_path(base, "vcam-proxy");
        join_path(dir.as_str(), "config.toml")
    }

    /// The settings to run with, given what reading the config file came to.
    /// Default settings if the file doesn't exist or is invalid.
    pub fn load(read: ConfigRead) -> (r: Self)
        ensures
            match read {
                ConfigRead::Parsed(settings) => r == settings,
                _ => r.is_default(),
            },
            match read_settings(read) {
                Some(settings) => r == settings,
                None => r.is_default(),
            },
    {
        match read {
            ConfigRead::Parsed(settings) => settings,
            _ => Self::default(),
        }
    }

    /// What first-time setup does with the config file: an existing file is
    /// never overwritten.
    pub fn create_default_file(present: bool) -> (r: CreateStep)
        ensures
            r == (if present {
                CreateStep::Keep
            } else {
                CreateStep::WriteDefaults
            }),
            r == created(present),
    {
        if !present {
            CreateStep::WriteDefaults
        } else {
            CreateStep::Keep
        }
    }
}

/// Default settings are usable as they are and ask for one camera picture size, one
/// node, and an automatic choice of everything else.
pub proof fn law_default_settings(s: Settings)
    requires
        s.is_default(),
    ensures
        s.camera == 0 && s.device@ == "/dev/video10"@,
        s.width == 1280 && s.height == 720 && s.fps == 30 && s.buffers == 4,
        s.format == FormatPref::Auto && s.retry_ms == 1000,
        s.multi_reader && s.devices == 1 && s.exclusive_caps == 1 && s.timeout == 0,
        s.auto_load_module && s.auto_resolution,
        crate::messages::module_params_text(s.exclusive_caps, s.devices, s.timeout)
            == crate::messages::DEFAULT_MODULE_PARAMS@,
{
    crate::messages::law_default_module_params();
}

/// Joining puts exactly one separator between a directory and a name: a directory that
/// already ends in one gets no second. The name is then the file name of the path, and
/// the directory is what stands before it.
pub proof fn law_joined_paths(base: Seq<char>, name: Seq<char>)
    requires
        base.len() > 0,
        base.last() != '/',
        crate::sink::v4l2loop::discovery::is_plain_name(name),
    ensures
        path_joined(base, name) == base + seq!['/'] + name,
        path_joined(base + seq!['/'], name) == path_joined(base, name),
        path_joined(Seq::<char>::empty(), name) == name,
        crate::sink::v4l2loop::discovery::file_name_of(path_joined(base, name)) == Some(name),
{
    reveal_strlit("/");
    assert("/"@ =~= seq!['/']);
    assert((base + seq!['/']).last() == '/');
    assert(Seq::<char>::empty() + name =~= name);
    crate::sink::v4l2loop::discovery::law_file_names(base, name);
}

/// The config file is under the user's own directory where there is one, and under
/// `/tmp` only where there is none.
pub proof fn law_config_base(dir: Seq<char>)
    ensures
        config_base(Some(dir)) == dir,
        config_base(None) == "/tmp"@,
{
}

/// What first-time setup does with the config file.
pub open spec fn created(present: bool) -> CreateStep {
    if present {
        CreateStep::Keep
    } else {
        CreateStep::WriteDefaults
    }
}

/// A config file that is there is never overwritten, and one that is missing is written.
pub proof fn law_config_file_is_kept(present: bool)
    ensures
        created(present) is WriteDefaults <==> !present,
{
}

/// The config file of a user with this config directory.
pub open spec fn config_file(user_config_dir: Option<Seq<char>>) -> Seq<char> {
    path_joined(path_joined(config_base(user_config_dir), "vcam-proxy"@), "config.toml"@)
}

/// The config file is `config.toml` in a directory of its own below the user's config
/// directory, and below `/tmp` for a user who has none.
pub proof fn law_config_file(dir: Seq<char>)
    requires
        dir.len() > 0,
        dir.last() != '/',
    ensures
        config_file(Some(dir)) == dir + "/vcam-proxy/config.toml"@,
        config_file(Some(dir + seq!['/'])) == config_file(Some(dir)),
        config_file(None) == "/tmp/vcam-proxy/config.toml"@,
{
    reveal_strlit("/");
    reveal_strlit("/tmp");
    reveal_strlit("vcam-proxy");
    reveal_strlit("config.toml");
    reveal_strlit("/vcam-proxy/config.toml");
    reveal_strlit("/tmp/vcam-proxy/config.toml");
    assert("vcam-proxy"@[9] == 'y' && "/tmp"@[3] == 'p');
    let below = dir + "/"@ + "vcam-proxy"@;
    assert(path_joined(dir, "vcam-proxy"@) == below);
    assert(below.last() == 'y');
    assert(config_file(Some(dir)) =~= dir + "/vcam-proxy/config.toml"@);
    assert((dir + seq!['/']).last() == '/');
    assert(dir + seq!['/'] + "vcam-proxy"@ =~= below);
    let tmp = "/tmp"@ + "/"@ + "vcam-proxy"@;
    assert(tmp.last() == 'y');
    assert(config_file(None) =~= "/tmp/vcam-proxy/config.toml"@);
}

/// The path that messages give for the config file is the one that is used where the
/// config directory is `~/.config`.
pub proof fn law_config_path_hint()
    ensures
        config_file(Some("~/.config"@)) == crate::messages::CONFIG_PATH_HINT@,
{
    reveal_strlit("~/.config");
    reveal_strlit("/vcam-proxy/config.toml");
    reveal_strlit("~/.config/vcam-proxy/config.toml");
    assert("~/.config"@[8] == 'g');
    law_config_file("~/.config"@);
    assert("~/.config"@ + "/vcam-proxy/config.toml"@ =~= crate::messages::CONFIG_PATH_HINT@);
}

/// The settings that reading the config file gave, if it gave any.
pub open spec fn read_settings(read: ConfigRead) -> Option<Settings> {
    match read {
        ConfigRead::Parsed(settings) => Some(settings),
        _ => None,
    }
}

/// Settings that were read are taken as they are; a file that is missing, unreadable or
/// invalid gives none, and so the defaults.
pub proof fn law_read_settings(read: ConfigRead, settings: Settings)
    ensures
        read_settings(ConfigRead::Parsed(settings)) == Some(settings),
        read is Missing || read is Unreadable || read is Invalid ==> read_settings(read) is None,
{
}

} // verus!
