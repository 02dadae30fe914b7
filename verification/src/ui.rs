//! The settings window: what it edits, what its buttons do, and which commands
//! it sends to the window system.
//!
//! This is the primary configuration surface: every option is editable here. The
//! window is:
//!
//! - **Open on first run** (no config file present) as a guided setup.
//! - **Hidden afterwards**, reachable from the tray "Settings…" menu item or
//!   the `--settings` flag. A `--no-gui` flag restores pure CLI behaviour.
//!
//! The window and the pipeline controller run on different threads and
//! communicate through a shared `GuiState`:
//! - `desired`: the configuration the user is editing (and can apply).
//! - `live_on`: mirrors the virtual-camera on/off switch (live, no restart).
//! - `open_window`: set by the tray / first-run to pop the window up.
//! - `restart`: set by "Apply & Restart" so the controller tears down and
//!   re-spawns the pipeline with the new `desired` config.
//! - `quit`: set by the Quit button.

use vstd::prelude::*;

use crate::config::ResolvedConfig;
use crate::settings::Settings;
use crate::sink::v4l2loop::usage::DeviceUser;
use crate::text::chars_of;
use crate::text::decimal;
use crate::text::join;
use crate::text::parse_u32;
use crate::text::parse_unsigned;
use crate::text::signed_decimal;

verus! {

/// Shared mutable state between the GUI thread (main) and the controller thread.
pub struct GuiState {
    /// Configuration currently shown / edited in the window.
    pub desired: ResolvedConfig,
    /// Live on/off mirroring the sink switch (toggle is immediate).
    pub live_on: bool,
    /// Set true to pop the window open; the GUI clears it after showing.
    pub open_window: bool,
    /// Set true when the user clicks "Apply & Restart".
    pub restart: bool,
    /// Set true when the user clicks "Quit".
    pub quit: bool,
    /// Set true once the window has been shown at least once (first-run done).
    pub seen: bool,
}

impl GuiState {
    /// The state at startup.
    pub fn new(initial: ResolvedConfig, open_immediately: bool) -> (r: Self)
        ensures
            r == (GuiState {
                desired: initial,
                live_on: true,
                open_window: open_immediately,
                restart: false,
                quit: false,
                seen: false,
            }),
    {
        GuiState {
            desired: initial,
            live_on: true,
            open_window: open_immediately,
            restart: false,
            quit: false,
            seen: false,
        }
    }

    /// Request the window to open. The GUI polls this flag and re-shows itself
    /// (no OS-level event needed, so it works from any thread).
    pub fn request_open(&mut self)
        ensures
            *final(self) == (GuiState { open_window: true, ..*old(self) }),
    {
        self.open_window = true;
    }

    /// The state after a round of the controller took it up.
    pub open spec fn taken_up(self) -> GuiState {
        GuiState { restart: false, ..self }
    }

    /// The state after a frame of the window began.
    pub open spec fn frame_begun(self) -> GuiState {
        GuiState { open_window: false, seen: self.seen || self.open_window, ..self }
    }

    /// Begins a round of the controller: the configuration that the window asks for,
    /// made usable. A request to restart is met by this, and is not met twice.
    pub fn begin_round(&mut self) -> (r: ResolvedConfig)
        ensures
            r == old(self).desired.cleaned(),
            *final(self) == old(self).taken_up(),
    {
        self.restart = false;
        self.desired.clone().sanitized()
    }

    /// Writes what was edited in a frame back to the shared state.
    pub fn write_back(
        &mut self,
        desired: ResolvedConfig,
        live_on: bool,
        restart: bool,
        quit: bool,
    )
        ensures
            *final(self) == (GuiState { desired, live_on, restart, quit, ..*old(self) }),
    {
        self.desired = desired;
        self.live_on = live_on;
        self.restart = restart;
        self.quit = quit;
    }
}

/// The window's own state.
pub struct App {
    /// Whether the window is currently shown. We drive this explicitly so we
    /// don't toggle visibility every frame (which made the window flash to
    /// black right after opening).
    pub visible: bool,
    /// Tracks the last visibility state we sent to the viewport, to avoid
    /// redundant Wayland protocol messages: repeatedly sending a command every
    /// 200ms while hidden spams the compositor with xdg-toplevel events.
    pub shown: bool,
    // Local UI scratch values (so we can validate before committing).
    pub camera_text: String,
    pub device_text: String,
    pub width_text: String,
    pub height_text: String,
    pub fps_text: String,
    pub buffers_text: String,
    pub retry_text: String,
    pub timeout_text: String,
    pub exclusive_caps_text: String,
    pub devices_text: String,
    pub multi_app_timeout_text: String,
    pub status: String,
}

// ---------------------------------------------------------------------------
// The form
// ---------------------------------------------------------------------------

/// Number of fields that hold a number.
pub const NUMBER_FIELDS: u32 = 10;

/// The text of the `i`-th number field, in the order in which they are read.
pub open spec fn field_text(app: App, i: int) -> Seq<char> {
    if i == 0 {
        app.camera_text@
    } else if i == 1 {
        app.width_text@
    } else if i == 2 {
        app.height_text@
    } else if i == 3 {
        app.fps_text@
    } else if i == 4 {
        app.buffers_text@
    } else if i == 5 {
        app.retry_text@
    } else if i == 6 {
        app.timeout_text@
    } else if i == 7 {
        app.exclusive_caps_text@
    } else if i == 8 {
        app.devices_text@
    } else {
        app.multi_app_timeout_text@
    }
}

/// The largest number that the `i`-th number field can take.
pub open spec fn field_max(i: int) -> nat {
    if i == 4 {
        usize::MAX as nat
    } else if i == 5 {
        u64::MAX as nat
    } else {
        u32::MAX as nat
    }
}

/// The message for an `i`-th number field that holds no number.
pub open spec fn field_error(i: int) -> Seq<char> {
    if i == 0 {
        "camera must be a number"@
    } else if i == 1 {
        "width must be a number"@
    } else if i == 2 {
        "height must be a number"@
    } else if i == 3 {
        "fps must be a number"@
    } else if i == 4 {
        "buffers must be a number"@
    } else if i == 5 {
        "retry_ms must be a number"@
    } else if i == 6 {
        "timeout must be a number"@
    } else if i == 7 {
        "exclusive_caps must be 0 or 1"@
    } else if i == 8 {
        "devices must be a number (1-8)"@
    } else {
        "multi_app_timeout must be a number (seconds)"@
    }
}

/// The number in the `i`-th number field, if there is one.
pub open spec fn field_value(app: App, i: int) -> Option<nat> {
    crate::text::unsigned_value(field_text(app, i), field_max(i))
}

/// Whether the `i`-th number field is the first that holds no number.
pub open spec fn is_first_bad(app: App, i: int) -> bool {
    &&& 0 <= i < NUMBER_FIELDS
    &&& field_value(app, i) is None
    &&& forall|j: int| 0 <= j < i ==> (#[trigger] field_value(app, j)) is Some
}

/// The configuration with the first `n` number fields taken over.
pub open spec fn applied(app: App, cfg: ResolvedConfig, n: int) -> ResolvedConfig {
    ResolvedConfig {
        camera: if n > 0 {
            field_value(app, 0).unwrap() as u32
        } else {
            cfg.camera
        },
        width: if n > 1 {
            field_value(app, 1).unwrap() as u32
        } else {
            cfg.width
        },
        height: if n > 2 {
            field_value(app, 2).unwrap() as u32
        } else {
            cfg.height
        },
        fps: if n > 3 {
            field_value(app, 3).unwrap() as u32
        } else {
            cfg.fps
        },
        buffers: if n > 4 {
            field_value(app, 4).unwrap() as usize
        } else {
            cfg.buffers
        },
        retry_ms: if n > 5 {
            field_value(app, 5).unwrap() as u64
        } else {
            cfg.retry_ms
        },
        timeout: if n > 6 {
            field_value(app, 6).unwrap() as u32
        } else {
            cfg.timeout
        },
        exclusive_caps: if n > 7 {
            field_value(app, 7).unwrap() as u32
        } else {
            cfg.exclusive_caps
        },
        devices: if n > 8 {
            field_value(app, 8).unwrap() as u32
        } else {
            cfg.devices
        },
        multi_app_timeout: if n > 9 {
            field_value(app, 9).unwrap() as u32
        } else {
            cfg.multi_app_timeout
        },
        ..cfg
    }
}

/// Reads a number no larger than `max` from a text.
fn read_number(text: &String, max: u64) -> (r: Option<u64>)
    ensures
        match r {
            Some(v) => crate::text::unsigned_value(text@, max as nat) == Some(v as nat),
            None => crate::text::unsigned_value(text@, max as nat) is None,
        },
{
    let chars = chars_of(text.as_str());
    parse_unsigned(chars.as_slice(), max)
}

/// Reads a `u32` from a text.
fn read_u32(text: &String) -> (r: Option<u32>)
    ensures
        match r {
            Some(v) => crate::text::unsigned_value(text@, u32::MAX as nat) == Some(v as nat),
            None => crate::text::unsigned_value(text@, u32::MAX as nat) is None,
        },
{
    let chars = chars_of(text.as_str());
    parse_u32(chars.as_slice())
}

impl App {
    /// The form shows a configuration.
    pub open spec fn shows(self, cfg: ResolvedConfig) -> bool {
        &&& self.camera_text@ == crate::text::decimal_digits(cfg.camera as nat)
        &&& self.width_text@ == crate::text::decimal_digits(cfg.width as nat)
        &&& self.height_text@ == crate::text::decimal_digits(cfg.height as nat)
        &&& self.fps_text@ == crate::text::decimal_digits(cfg.fps as nat)
        &&& self.buffers_text@ == crate::text::decimal_digits(cfg.buffers as nat)
        &&& self.retry_text@ == crate::text::decimal_digits(cfg.retry_ms as nat)
        &&& self.timeout_text@ == crate::text::decimal_digits(cfg.timeout as nat)
        &&& self.exclusive_caps_text@ == crate::text::decimal_digits(cfg.exclusive_caps as nat)
        &&& self.devices_text@ == crate::text::decimal_digits(cfg.devices as nat)
        &&& self.multi_app_timeout_text@ == crate::text::decimal_digits(cfg.multi_app_timeout as nat)
        &&& self.device_text == cfg.device
    }

    /// A form that shows a configuration. A window that opens at once was created
    /// visible, so it counts as shown; otherwise no command was sent yet.
    pub fn new(cfg: &ResolvedConfig, open_immediately: bool) -> (r: Self)
        ensures
            r.shows(*cfg),
            r.visible == open_immediately,
            r.shown == open_immediately,
            r.status@.len() == 0,
    {
        App {
            visible: open_immediately,
            shown: open_immediately,
            camera_text: decimal(cfg.camera as u64),
            width_text: decimal(cfg.width as u64),
            height_text: decimal(cfg.height as u64),
            fps_text: decimal(cfg.fps as u64),
            buffers_text: decimal(cfg.buffers as u64),
            retry_text: decimal(cfg.retry_ms as u64),
            timeout_text: decimal(cfg.timeout as u64),
            exclusive_caps_text: decimal(cfg.exclusive_caps as u64),
            devices_text: decimal(cfg.devices as u64),
            multi_app_timeout_text: decimal(cfg.multi_app_timeout as u64),
            device_text: cfg.device.clone(),
            status: String::new(),
        }
    }

    /// Parse the local text fields into `cfg`. Returns an error string if
    /// anything fails to parse; the fields before the one that failed are taken
    /// over all the same.
    pub fn commit(&self, cfg: &mut ResolvedConfig) -> (r: Result<(), String>)
        ensures
            match r {
                Ok(()) => {
                    &&& forall|i: int|
                        0 <= i < NUMBER_FIELDS ==> (#[trigger] field_value(*self, i)) is Some
                    &&& *final(cfg) == (ResolvedConfig {
                        device: self.device_text,
                        ..applied(*self, *old(cfg), NUMBER_FIELDS as int)
                    })
                },
                Err(e) => exists|i: int| #[trigger]
                    is_first_bad(*self, i) && e@ == field_error(i) && *final(cfg) == applied(
                        *self,
                        *old(cfg),
                        i,
                    ),
            },
    {
        match read_u32(&self.camera_text) {
            Some(v) => {
                cfg.camera = v;
            },
            None => {
                assert(is_first_bad(*self, 0));
                return Err("camera must be a number".to_owned());
            },
        }
        assert(field_value(*self, 0) is Some);
        match read_u32(&self.width_text) {
            Some(v) => {
                cfg.width = v;
            },
            None => {
                assert(is_first_bad(*self, 1));
                return Err("width must be a number".to_owned());
            },
        }
        assert(field_value(*self, 1) is Some);
        match read_u32(&self.height_text) {
            Some(v) => {
                cfg.height = v;
            },
            None => {
                assert(is_first_bad(*self, 2));
                return Err("height must be a number".to_owned());
            },
        }
        assert(field_value(*self, 2) is Some);
        match read_u32(&self.fps_text) {
            Some(v) => {
                cfg.fps = v;
            },
            None => {
                assert(is_first_bad(*self, 3));
                return Err("fps must be a number".to_owned());
            },
        }
        assert(field_value(*self, 3) is Some);
        match read_number(&self.buffers_text, usize::MAX as u64) {
            Some(v) => {
                cfg.buffers = v as usize;
            },
            None => {
                assert(is_first_bad(*self, 4));
                return Err("buffers must be a number".to_owned());
            },
        }
        assert(field_value(*self, 4) is Some);
        match read_number(&self.retry_text, u64::MAX) {
            Some(v) => {
                cfg.retry_ms = v;
            },
            None => {
                assert(is_first_bad(*self, 5));
                return Err("retry_ms must be a number".to_owned());
            },
        }
        assert(field_value(*self, 5) is Some);
        match read_u32(&self.timeout_text) {
            Some(v) => {
                cfg.timeout = v;
            },
            None => {
                assert(is_first_bad(*self, 6));
                return Err("timeout must be a number".to_owned());
            },
        }
        assert(field_value(*self, 6) is Some);
        match read_u32(&self.exclusive_caps_text) {
            Some(v) => {
                cfg.exclusive_caps = v;
            },
            None => {
                assert(is_first_bad(*self, 7));
                return Err("exclusive_caps must be 0 or 1".to_owned());
            },
        }
        assert(field_value(*self, 7) is Some);
        match read_u32(&self.devices_text) {
            Some(v) => {
                cfg.devices = v;
            },
            None => {
                assert(is_first_bad(*self, 8));
                return Err("devices must be a number (1-8)".to_owned());
            },
        }
        assert(field_value(*self, 8) is Some);
        match read_u32(&self.multi_app_timeout_text) {
            Some(v) => {
                cfg.multi_app_timeout = v;
            },
            None => {
                assert(is_first_bad(*self, 9));
                return Err("multi_app_timeout must be a number (seconds)".to_owned());
            },
        }
        assert(field_value(*self, 9) is Some);
        cfg.device = self.device_text.clone();
        Ok(())
    }
}

/// A form that shows a configuration and was not edited changes nothing when it
/// is committed.
pub proof fn law_unedited_form_changes_nothing(app: App, cfg: ResolvedConfig)
    requires
        app.shows(cfg),
    ensures
        forall|i: int| 0 <= i < NUMBER_FIELDS ==> (#[trigger] field_value(app, i)) is Some,
        (ResolvedConfig {
            device: app.device_text,
            ..applied(app, cfg, NUMBER_FIELDS as int)
        }) == cfg,
{
    crate::text::law_decimal_round_trip(cfg.camera as nat, u32::MAX as nat);
    crate::text::law_decimal_round_trip(cfg.width as nat, u32::MAX as nat);
    crate::text::law_decimal_round_trip(cfg.height as nat, u32::MAX as nat);
    crate::text::law_decimal_round_trip(cfg.fps as nat, u32::MAX as nat);
    crate::text::law_decimal_round_trip(cfg.buffers as nat, usize::MAX as nat);
    crate::text::law_decimal_round_trip(cfg.retry_ms as nat, u64::MAX as nat);
    crate::text::law_decimal_round_trip(cfg.timeout as nat, u32::MAX as nat);
    crate::text::law_decimal_round_trip(cfg.exclusive_caps as nat, u32::MAX as nat);
    crate::text::law_decimal_round_trip(cfg.devices as nat, u32::MAX as nat);
    crate::text::law_decimal_round_trip(cfg.multi_app_timeout as nat, u32::MAX as nat);
    assert(field_value(app, 0) is Some);
    assert(field_value(app, 1) is Some);
    assert(field_value(app, 2) is Some);
    assert(field_value(app, 3) is Some);
    assert(field_value(app, 4) is Some);
    assert(field_value(app, 5) is Some);
    assert(field_value(app, 6) is Some);
    assert(field_value(app, 7) is Some);
    assert(field_value(app, 8) is Some);
    assert(field_value(app, 9) is Some);
}

// ---------------------------------------------------------------------------
// The buttons
// ---------------------------------------------------------------------------

/// The buttons of the window.
#[derive(Clone, Copy, Debug, PartialEq, Eq, Structural)]
pub enum Button {
    /// "Apply & reload virtual cameras"
    ApplyReload,
    /// "Save to config"
    Save,
    /// "Apply & Restart"
    ApplyRestart,
    /// "Hide"
    Hide,
    /// "Quit"
    Quit,
}

/// What pressing a button asks for.
pub struct Pressed {
    /// Write these settings to the config file.
    pub save: Option<Settings>,
    /// Restart the pipeline with the edited configuration.
    pub restart: bool,
    /// Quit.
    pub quit: bool,
}

impl App {
    /// Handles a button. Saving and applying first read the form into `desired`;
    /// a field that holds no number is reported in the status line, and nothing
    /// else happens. Applying hides the window.
    pub fn press(&mut self, button: Button, desired: &mut ResolvedConfig) -> (r: Pressed)
        ensures
            match button {
                Button::Hide => {
                    &&& r.save is None && !r.restart && !r.quit
                    &&& *final(desired) == *old(desired)
                    &&& *final(self) == (App { visible: false, ..*old(self) })
                },
                Button::Quit => {
                    &&& r.save is None && !r.restart && r.quit
                    &&& *final(desired) == *old(desired)
                    &&& *final(self) == *old(self)
                },
                _ => {
                    &&& !r.quit
                    &&& match r.save {
                        Some(saved) => {
                            &&& forall|i: int|
                                0 <= i < NUMBER_FIELDS ==> (#[trigger] field_value(
                                    *old(self),
                                    i,
                                )) is Some
                            &&& *final(desired) == (ResolvedConfig {
                                device: old(self).device_text,
                                ..applied(*old(self), *old(desired), NUMBER_FIELDS as int)
                            })
                            &&& saved == final(desired).as_settings()
                            &&& r.restart == (button != Button::Save)
                            &&& final(self).status@ == if button == Button::Save {
                                old(self).status@
                            } else {
                                Seq::<char>::empty()
                            }
                            &&& *final(self) == (App {
                                visible: old(self).visible && button == Button::Save,
                                status: final(self).status,
                                ..*old(self)
                            })
                        },
                        None => {
                            &&& !r.restart
                            &&& exists|i: int| #[trigger]
                                is_first_bad(*old(self), i) && final(self).status@ == field_error(i)
                                    && *final(desired) == applied(*old(self), *old(desired), i)
                            &&& *final(self) == (App { status: final(self).status, ..*old(self) })
                        },
                    }
                },
            },
            ({
                let valid = forall|i: int|
                    0 <= i < NUMBER_FIELDS ==> (#[trigger] field_value(*old(self), i)) is Some;
                let (save, restart, quit, hide) = asks(button, valid);
                &&& r.save is Some <==> save
                &&& r.restart == restart
                &&& r.quit == quit
                &&& final(self).visible == (old(self).visible && !hide)
            }),
    {
        match button {
            Button::Hide => {
                self.visible = false;
                Pressed { save: None, restart: false, quit: false }
            },
            // The exit path at the start of the next frame closes the window.
            Button::Quit => Pressed { save: None, restart: false, quit: true },
            _ => match self.commit(desired) {
                Ok(()) => {
                    let saved = desired.to_settings();
                    if button == Button::Save {
                        Pressed { save: Some(saved), restart: false, quit: false }
                    } else {
                        let cleared = String::new();
                        assert(cleared@ =~= Seq::<char>::empty());
                        self.status = cleared;
                        // Hides to the taskbar (minimized) via the hidden
                        // branch on the next frame.
                        self.visible = false;
                        Pressed { save: Some(saved), restart: true, quit: false }
                    }
                },
                Err(e) => {
                    self.status = e;
                    Pressed { save: None, restart: false, quit: false }
                },
            },
        }
    }

    /// Shows how "Save to config" came out: the status line tells of a failure
    /// and is cleared by a success.
    pub fn save_finished(&mut self, failure: Option<&str>)
        ensures
            final(self).status@ == (match failure {
                Some(why) => "Save failed: "@ + why@,
                None => Seq::<char>::empty(),
            }),
            *final(self) == (App { status: final(self).status, ..*old(self) }),
    {
        match failure {
            Some(why) => {
                let mut status = "Save failed: ".to_owned();
                status.append(why);
                self.status = status;
            },
            None => {
                let cleared = String::new();
                assert(cleared@ =~= Seq::<char>::empty());
                self.status = cleared;
            },
        }
    }
}

/// The state of the live switch after a click on its first label (on) or its
/// second (off). With both, the second wins.
pub fn live_after(live_on: bool, on_clicked: bool, off_clicked: bool) -> (r: bool)
    ensures
        r == (if off_clicked {
            false
        } else if on_clicked {
            true
        } else {
            live_on
        }),
        r == live_switch(live_on, on_clicked, off_clicked),
{
    let mut live = live_on;
    if on_clicked {
        live = true;
    }
    if off_clicked {
        live = false;
    }
    live
}

// ---------------------------------------------------------------------------
// The window
// ---------------------------------------------------------------------------

/// A command to the window system.
#[derive(Clone, Copy, Debug, PartialEq, Eq, Structural)]
pub enum WindowCommand {
    /// Map the window.
    Show,
    /// Raise and focus the window. This also restores a minimized one.
    Focus,
    /// Minimize the window. ("Hidden" is implemented as minimized because Wayland
    /// cannot unmap a toplevel window.)
    Minimize,
    /// Keep the window although its close button was pressed.
    CancelClose,
    /// Close the window.
    Close,
}

/// How a frame goes on.
#[derive(Clone, Copy, Debug, PartialEq, Eq, Structural)]
pub enum FrameOutcome {
    /// The window closes.
    Closing,
    /// Nothing is drawn; look again after this many milliseconds.
    Hidden(u64),
    /// Draw the form.
    Draw,
}

/// What a frame starts from.
#[derive(Clone, Copy, Debug, PartialEq, Eq, Structural)]
pub struct FrameInput {
    /// The window's close button was pressed.
    pub close_requested: bool,
    /// The process is shutting down.
    pub shutting_down: bool,
}

/// Whether the window is meant to be visible after the start of a frame.
pub open spec fn visible_after(
    visible: bool,
    open: bool,
    closing: bool,
    close_requested: bool,
) -> bool {
    (visible || open) && (closing || !close_requested)
}

/// The commands that the start of a frame sends.
pub open spec fn frame_commands(
    visible: bool,
    shown: bool,
    open: bool,
    closing: bool,
    close_requested: bool,
) -> Seq<WindowCommand> {
    let opening = if open {
        seq![WindowCommand::Show, WindowCommand::Focus]
    } else {
        Seq::empty()
    };
    if closing {
        opening.push(WindowCommand::Close)
    } else {
        let kept = if close_requested {
            opening.push(WindowCommand::CancelClose)
        } else {
            opening
        };
        let now = visible_after(visible, open, closing, close_requested);
        if !now && (shown || open) {
            kept.push(WindowCommand::Minimize)
        } else if now && !(shown || open) {
            kept.push(WindowCommand::Show)
        } else {
            kept
        }
    }
}

impl App {
    /// Starts a frame: honours a request to open the window, closes it on quit or
    /// shutdown, hides it when its close button is pressed, and brings the window
    /// system in line with what is meant to be visible.
    pub fn begin_frame(&mut self, state: &mut GuiState, input: FrameInput) -> (r: (
        Vec<WindowCommand>,
        FrameOutcome,
    ))
        ensures
            ({
                let open = old(state).open_window;
                let closing = old(state).quit || input.shutting_down;
                let now = visible_after(
                    old(self).visible,
                    open,
                    closing,
                    input.close_requested,
                );
                &&& r.0@ == frame_commands(
                    old(self).visible,
                    old(self).shown,
                    open,
                    closing,
                    input.close_requested,
                )
                &&& r.1 == (if closing {
                    FrameOutcome::Closing
                } else if now {
                    FrameOutcome::Draw
                } else {
                    FrameOutcome::Hidden(200)
                })
                &&& *final(self) == (App {
                    visible: now,
                    shown: if closing {
                        old(self).shown || open
                    } else {
                        now
                    },
                    ..*old(self)
                })
                &&& *final(state) == old(state).frame_begun()
            }),
            r.1 == outcome_of(old(state).quit || input.shutting_down, final(self).visible),
    {
        let mut commands: Vec<WindowCommand> = Vec::new();
        // Open request (tray "Settings…" / first run / --settings): show.
        if state.open_window {
            state.open_window = false;
            state.seen = true;
            self.visible = true;
            // Wayland-safe show: map the window (first time) and raise/focus it.
            // There is no un-minimize request, so none is ever sent.
            commands.push(WindowCommand::Show);
            commands.push(WindowCommand::Focus);
            self.shown = true;
        }
        // Exit path: Quit (or process shutdown) must close the native window.

        if state.quit || input.shutting_down {
            commands.push(WindowCommand::Close);
            return (commands, FrameOutcome::Closing);
        }
        // Closing the window (vs. an explicit Quit) just hides it.

        if input.close_requested {
            commands.push(WindowCommand::CancelClose);
            self.visible = false;
        }
        // Commands go out on transitions only.

        if !self.visible {
            if self.shown {
                commands.push(WindowCommand::Minimize);
                self.shown = false;
            }
            return (commands, FrameOutcome::Hidden(200));
        }
        if !self.shown {
            commands.push(WindowCommand::Show);
            self.shown = true;
        }
        (commands, FrameOutcome::Draw)
    }
}

/// Visibility commands are sent on transitions only: a frame without a request
/// minimizes a window only if it was shown and is to be hidden, maps it only if
/// it was hidden and is to be shown, and otherwise sends nothing. Once a frame is
/// through, the window system is in line, so the next quiet frame is silent.
pub proof fn law_commands_only_on_transitions(visible: bool, shown: bool)
    ensures
        shown == visible ==> frame_commands(visible, shown, false, false, false) == Seq::<
            WindowCommand,
        >::empty(),
        shown && !visible ==> frame_commands(visible, shown, false, false, false) == seq![
            WindowCommand::Minimize,
        ],
        !shown && visible ==> frame_commands(visible, shown, false, false, false) == seq![
            WindowCommand::Show,
        ],
{
    assert(Seq::<WindowCommand>::empty().push(WindowCommand::Minimize) =~= seq![
        WindowCommand::Minimize,
    ]);
    assert(Seq::<WindowCommand>::empty().push(WindowCommand::Show) =~= seq![WindowCommand::Show]);
}

/// The close button never closes the window by itself: it only hides it.
pub proof fn law_close_button_only_hides(visible: bool, shown: bool, open: bool)
    ensures
        !frame_commands(visible, shown, open, false, true).contains(WindowCommand::Close),
        frame_commands(visible, shown, open, false, true).contains(WindowCommand::CancelClose),
        !visible_after(visible, open, false, true),
{
    let opening = if open {
        seq![WindowCommand::Show, WindowCommand::Focus]
    } else {
        Seq::empty()
    };
    let kept = opening.push(WindowCommand::CancelClose);
    assert(kept[opening.len() as int] == WindowCommand::CancelClose);
    let all = frame_commands(visible, shown, open, false, true);
    assert(all[opening.len() as int] == WindowCommand::CancelClose);
}

// ---------------------------------------------------------------------------
// The list of virtual cameras
// ---------------------------------------------------------------------------

/// A user as the window shows it.
pub open spec fn user_text(pid: i32, comm: Seq<char>) -> Seq<char> {
    comm + " (pid "@ + crate::text::signed_digits(pid as int) + ")"@
}

/// The users of a device as the window shows them.
pub open spec fn user_texts(users: Seq<DeviceUser>) -> Seq<Seq<char>> {
    users.map_values(|u: DeviceUser| user_text(u.pid, u.comm@))
}

/// What the window says of the users of a device.
pub fn usage_label(users: &Vec<DeviceUser>) -> (r: String)
    ensures
        r@ == (if users@.len() == 0 {
            "free"@
        } else {
            "in use: "@ + crate::text::joined(user_texts(users@), ", "@)
        }),
        r@ == usage_text(users@),
{
    if users.len() == 0 {
        return "free".to_owned();
    }
    let mut names: Vec<String> = Vec::new();
    for i in 0..users.len()
        invariant
            names@.len() == i,
            forall|k: int|
                0 <= k < i ==> (#[trigger] names@[k])@ == user_text(
                    users@[k].pid,
                    users@[k].comm@,
                ),
    {
        let mut name = users[i].comm.clone();
        name.append(" (pid ");
        name.append(signed_decimal(users[i].pid).as_str());
        name.append(")");
        names.push(name);
    }
    assert(crate::text::texts(names@) =~= user_texts(users@));
    let mut r = "in use: ".to_owned();
    r.append(join(&names, ", ").as_str());
    r
}

/// The line for a device.
pub fn device_label(path: &str, card: &str) -> (r: String)
    ensures
        r@ == "• "@ + path@ + "  ["@ + card@ + "]"@,
{
    let mut r = "• ".to_owned();
    r.append(path);
    r.append("  [");
    r.append(card);
    r.append("]");
    r
}

/// Convert a `Settings` into a `ResolvedConfig` for seeding.
pub fn settings_to_resolved(s: &Settings) -> (r: ResolvedConfig)
    ensures
        r.as_settings() == *s,
        r.sink == crate::config::SinkKind::Auto,
        r.pipe_name@ == "vcam_proxy_0"@,
        r.multi_app_timeout == 0,
        r.image is None,
{
    ResolvedConfig::from_settings(s)
}

// ---------------------------------------------------------------------------
// Laws of the form and the window
// ---------------------------------------------------------------------------

/// Each field of the form is the setting of its own name: where every field holds a
/// number, the configuration after a commit has the number of each field in the setting
/// that the field is for, and the form leaves alone what it has no field for.
pub proof fn law_fields_reach_their_settings(app: App, cfg: ResolvedConfig)
    requires
        forall|i: int| 0 <= i < NUMBER_FIELDS ==> (#[trigger] field_value(app, i)) is Some,
    ensures
        ({
            let after = applied(app, cfg, NUMBER_FIELDS as int);
            &&& crate::text::unsigned_value(app.camera_text@, u32::MAX as nat) == Some(after.camera as nat)
            &&& crate::text::unsigned_value(app.width_text@, u32::MAX as nat) == Some(after.width as nat)
            &&& crate::text::unsigned_value(app.height_text@, u32::MAX as nat) == Some(after.height as nat)
            &&& crate::text::unsigned_value(app.fps_text@, u32::MAX as nat) == Some(after.fps as nat)
            &&& crate::text::unsigned_value(app.buffers_text@, usize::MAX as nat) == Some(after.buffers as nat)
            &&& crate::text::unsigned_value(app.retry_text@, u64::MAX as nat) == Some(after.retry_ms as nat)
            &&& crate::text::unsigned_value(app.timeout_text@, u32::MAX as nat) == Some(after.timeout as nat)
            &&& crate::text::unsigned_value(app.exclusive_caps_text@, u32::MAX as nat) == Some(after.exclusive_caps as nat)
            &&& crate::text::unsigned_value(app.devices_text@, u32::MAX as nat) == Some(after.devices as nat)
            &&& crate::text::unsigned_value(app.multi_app_timeout_text@, u32::MAX as nat) == Some(after.multi_app_timeout as nat)
            &&& after.device == cfg.device && after.pipe_name == cfg.pipe_name
            &&& after.sink == cfg.sink && after.format == cfg.format && after.image == cfg.image
            &&& after.multi_reader == cfg.multi_reader
            &&& after.auto_load_module == cfg.auto_load_module
            &&& after.auto_resolution == cfg.auto_resolution
        }),
{
    assert(field_value(app, 0) is Some);
    assert(field_value(app, 1) is Some);
    assert(field_value(app, 2) is Some);
    assert(field_value(app, 3) is Some);
    assert(field_value(app, 4) is Some);
    assert(field_value(app, 5) is Some);
    assert(field_value(app, 6) is Some);
    assert(field_value(app, 7) is Some);
    assert(field_value(app, 8) is Some);
    assert(field_value(app, 9) is Some);
}

/// The first field that holds no number is reported by its own message, whatever the
/// fields behind it hold.
pub proof fn law_bad_fields_are_named(app: App, i: int)
    requires
        is_first_bad(app, i),
    ensures
        0 <= i < 10,
        i == 0 ==> crate::text::unsigned_value(app.camera_text@, u32::MAX as nat) is None && field_error(i)
            == "camera must be a number"@,
        i == 1 ==> crate::text::unsigned_value(app.width_text@, u32::MAX as nat) is None && field_error(i)
            == "width must be a number"@,
        i == 2 ==> crate::text::unsigned_value(app.height_text@, u32::MAX as nat) is None && field_error(i)
            == "height must be a number"@,
        i == 3 ==> crate::text::unsigned_value(app.fps_text@, u32::MAX as nat) is None && field_error(i)
            == "fps must be a number"@,
        i == 4 ==> crate::text::unsigned_value(app.buffers_text@, usize::MAX as nat) is None && field_error(i)
            == "buffers must be a number"@,
        i == 5 ==> crate::text::unsigned_value(app.retry_text@, u64::MAX as nat) is None && field_error(i)
            == "retry_ms must be a number"@,
        i == 6 ==> crate::text::unsigned_value(app.timeout_text@, u32::MAX as nat) is None && field_error(i)
            == "timeout must be a number"@,
        i == 7 ==> crate::text::unsigned_value(app.exclusive_caps_text@, u32::MAX as nat) is None && field_error(i)
            == "exclusive_caps must be 0 or 1"@,
        i == 8 ==> crate::text::unsigned_value(app.devices_text@, u32::MAX as nat) is None && field_error(i)
            == "devices must be a number (1-8)"@,
        i == 9 ==> crate::text::unsigned_value(app.multi_app_timeout_text@, u32::MAX as nat) is None && field_error(i)
            == "multi_app_timeout must be a number (seconds)"@,
        forall|j: int| is_first_bad(app, j) ==> i == j,
{
    assert forall|j: int| is_first_bad(app, j) implies i == j by {
        if j < i {
            assert(field_value(app, j) is Some);
        } else if i < j {
            assert(field_value(app, i) is Some);
        }
    }
}

/// A commit that stops at a field has taken over the fields before it and no other: a
/// field that comes earlier in the form is as in a whole commit, and one that comes
/// later is as before.
pub proof fn law_partial_commit(app: App, cfg: ResolvedConfig, n: int)
    requires
        0 <= n <= NUMBER_FIELDS,
    ensures
        ({
            let whole = applied(app, cfg, NUMBER_FIELDS as int);
            let part = applied(app, cfg, n);
            &&& part.camera == if 0 < n {
                whole.camera
            } else {
                cfg.camera
            }
            &&& part.width == if 1 < n {
                whole.width
            } else {
                cfg.width
            }
            &&& part.height == if 2 < n {
                whole.height
            } else {
                cfg.height
            }
            &&& part.fps == if 3 < n {
                whole.fps
            } else {
                cfg.fps
            }
            &&& part.buffers == if 4 < n {
                whole.buffers
            } else {
                cfg.buffers
            }
            &&& part.retry_ms == if 5 < n {
                whole.retry_ms
            } else {
                cfg.retry_ms
            }
            &&& part.timeout == if 6 < n {
                whole.timeout
            } else {
                cfg.timeout
            }
            &&& part.exclusive_caps == if 7 < n {
                whole.exclusive_caps
            } else {
                cfg.exclusive_caps
            }
            &&& part.devices == if 8 < n {
                whole.devices
            } else {
                cfg.devices
            }
            &&& part.multi_app_timeout == if 9 < n {
                whole.multi_app_timeout
            } else {
                cfg.multi_app_timeout
            }
            &&& part.device == cfg.device && part.format == cfg.format && part.image == cfg.image
        }),
        applied(app, cfg, 0) == cfg,
{
}

/// Taking up a request to restart ends that request and nothing else. A frame that
/// begins ends a request to open the window and remembers that there was one, and
/// touches nothing else.
pub proof fn law_requests_end_once(state: GuiState)
    ensures
        !state.taken_up().restart,
        state.taken_up() == (GuiState { restart: state.taken_up().restart, ..state }),
        !state.frame_begun().open_window,
        state.frame_begun().seen <==> state.seen || state.open_window,
        state.frame_begun() == (GuiState {
            open_window: state.frame_begun().open_window,
            seen: state.frame_begun().seen,
            ..state
        }),
{
}

/// A request to open the window maps and raises it before anything else. The window is
/// closed exactly on quit or shutdown, as the last command, and is not hidden then. A
/// frame leaves the window visible exactly when it was visible or was to be opened, and
/// its close button was not pressed.
pub proof fn law_open_and_close(
    visible: bool,
    shown: bool,
    open: bool,
    closing: bool,
    close_requested: bool,
)
    ensures
        ({
            let commands = frame_commands(visible, shown, open, closing, close_requested);
            &&& open ==> commands.len() >= 2 && commands[0] == WindowCommand::Show && commands[1]
                == WindowCommand::Focus
            &&& !open ==> !commands.contains(WindowCommand::Focus)
            &&& closing ==> commands.len() > 0 && commands.last() == WindowCommand::Close
                && !commands.contains(WindowCommand::Minimize) && !commands.contains(
                WindowCommand::CancelClose,
            )
            &&& !closing ==> !commands.contains(WindowCommand::Close)
            &&& !closing ==> (commands.contains(WindowCommand::CancelClose) <==> close_requested)
            &&& !closing ==> (commands.contains(WindowCommand::Minimize) <==> (shown || open)
                && !visible_after(visible, open, closing, close_requested))
        }),
        visible_after(visible, open, true, close_requested) <==> visible || open,
        visible_after(visible, open, false, close_requested) <==> (visible || open)
            && !close_requested,
{
    let commands = frame_commands(visible, shown, open, closing, close_requested);
    let opening = if open {
        seq![WindowCommand::Show, WindowCommand::Focus]
    } else {
        Seq::empty()
    };
    let n = opening.len() as int;
    if closing {
        assert(commands[n] == WindowCommand::Close);
    } else if close_requested {
        assert(commands[n] == WindowCommand::CancelClose);
        if shown || open {
            assert(commands[n + 1] == WindowCommand::Minimize);
        }
    } else if !visible && !open && shown {
        assert(commands[n] == WindowCommand::Minimize);
    }
}

/// A user is shown by name and number, in the order of the list.
pub proof fn law_user_texts(users: Seq<DeviceUser>, i: int)
    requires
        0 <= i < users.len(),
    ensures
        user_texts(users).len() == users.len(),
        user_texts(users)[i] == users[i].comm@ + " (pid "@ + crate::text::signed_digits(
            users[i].pid as int,
        ) + ")"@,
{
}

/// The state of the live switch after clicks on its labels.
pub open spec fn live_switch(live_on: bool, on_clicked: bool, off_clicked: bool) -> bool {
    !off_clicked && (on_clicked || live_on)
}

/// The switch moves only when it is clicked, to the label that was clicked, and clicking
/// the same label again changes nothing more.
pub proof fn law_live_switch(live_on: bool, on_clicked: bool, off_clicked: bool)
    ensures
        live_switch(live_on, false, false) == live_on,
        live_switch(live_on, true, false),
        !live_switch(live_on, on_clicked, true),
        live_switch(live_switch(live_on, on_clicked, off_clicked), on_clicked, off_clicked)
            == live_switch(live_on, on_clicked, off_clicked),
{
}

/// How a frame goes on.
pub open spec fn outcome_of(closing: bool, visible: bool) -> FrameOutcome {
    if closing {
        FrameOutcome::Closing
    } else if visible {
        FrameOutcome::Draw
    } else {
        FrameOutcome::Hidden(200)
    }
}

/// The form is drawn exactly in a visible window that is not closing, and a hidden window
/// is looked at again after a fifth of a second.
pub proof fn law_frame_outcomes(closing: bool, visible: bool)
    ensures
        outcome_of(closing, visible) is Draw <==> visible && !closing,
        outcome_of(closing, visible) is Closing <==> closing,
        !closing && !visible ==> outcome_of(closing, visible) == FrameOutcome::Hidden(200),
{
}

/// What a button asks for, given whether the form holds only numbers: to save, to restart,
/// to quit, and to hide the window.
pub open spec fn asks(button: Button, valid: bool) -> (bool, bool, bool, bool) {
    match button {
        Button::ApplyReload | Button::ApplyRestart => (valid, valid, false, valid),
        Button::Save => (valid, false, false, false),
        Button::Hide => (false, false, false, true),
        Button::Quit => (false, false, true, false),
    }
}

/// Only applying restarts, and it always saves and hides as well; saving leaves the window
/// alone; only quitting quits, and needs no valid form; a form that is not valid is
/// neither saved nor applied.
pub proof fn law_what_buttons_ask_for(button: Button, valid: bool)
    ensures
        ({
            let (save, restart, quit, hide) = asks(button, valid);
            &&& restart ==> save && hide && !quit
            &&& restart <==> valid && (button == Button::ApplyReload || button
                == Button::ApplyRestart)
            &&& save <==> valid && button != Button::Hide && button != Button::Quit
            &&& quit <==> button == Button::Quit
            &&& hide <==> restart || button == Button::Hide
        }),
{
}

/// What the window says of the users of a device.
pub open spec fn usage_text(users: Seq<DeviceUser>) -> Seq<char> {
    if users.len() == 0 {
        "free"@
    } else {
        "in use: "@ + crate::text::joined(user_texts(users), ", "@)
    }
}

/// A device is called free exactly when nobody uses it; its only user is named alone, and
/// a further user behind a comma.
pub proof fn law_usage_text(users: Seq<DeviceUser>, user: DeviceUser)
    ensures
        usage_text(Seq::<DeviceUser>::empty()) == "free"@,
        usage_text(seq![user]) == "in use: "@ + user_text(user.pid, user.comm@),
        users.len() > 0 ==> usage_text(users.push(user)) == usage_text(users) + ", "@ + user_text(
            user.pid,
            user.comm@,
        ),
{
    let one = user_texts(seq![user]);
    let text = user_text(user.pid, user.comm@);
    assert(one =~= seq![text]);
    if users.len() > 0 {
        let before = user_texts(users);
        let after = user_texts(users.push(user));
        assert(after =~= before + seq![text]);
        crate::text::law_joining(before, seq![text], text, ", "@);
        assert(usage_text(users.push(user)) =~= usage_text(users) + ", "@ + text);
    }
}

} // verus!
