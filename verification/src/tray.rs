//! System-tray on/off toggle for the virtual camera: the switch that the tray
//! shares with the sink loop, and what the tray shows for it.
//!
//! Toggling "off" stops writes to the loopback device while capture keeps
//! running (in standby).

use std::sync::atomic::AtomicBool;
use std::sync::atomic::Ordering;
use std::sync::Arc;
use vstd::prelude::*;

verus! {

/// Shared flag the sink loop reads and the tray flips. What it holds is shared
/// with every other handle, so nothing is said here of the value that a read
/// gives.
pub struct SinkSwitch {
    inner: Arc<AtomicBool>,
}

impl SinkSwitch {
    /// The flag behind the handle.
    pub closed spec fn flag(self) -> Arc<AtomicBool> {
        self.inner
    }

    /// A handle on a new switch.
    pub fn new(enabled: bool) -> (r: Self) {
        Self { inner: Arc::new(AtomicBool::new(enabled)) }
    }

    /// Whether the virtual camera is on.
    pub fn is_on(&self) -> (r: bool) {
        self.inner.load(Ordering::Relaxed)
    }

    /// Turns the virtual camera on or off.
    pub fn set(&self, on: bool) {
        self.inner.store(on, Ordering::Relaxed);
    }

    /// Flips the switch in one step, and returns what it was flipped to: `flipped` of
    /// what it held.
    pub fn toggle(&self) -> (r: bool) {
        flipped(self.inner.fetch_xor(true, Ordering::Relaxed))
    }
}

/// What a flip turns the switch to, from what it held before.
pub fn flipped(prev: bool) -> (r: bool)
    ensures
        r == !prev,
{
    !prev
}

impl Clone for SinkSwitch {
    /// Another handle on the same switch.
    fn clone(&self) -> (r: Self)
        ensures
            r.flag() == self.flag(),
    {
        SinkSwitch { inner: self.inner.clone() }
    }
}

/// The tray's id.
pub const TRAY_ID: &'static str = "vcam-proxy";

/// The icon for the state of the switch.
pub fn icon_name(on: bool) -> (r: &'static str)
    ensures
        r@ == if on {
            "camera-web"@
        } else {
            "camera-web-disabled"@
        },
{
    if on {
        "camera-web"
    } else {
        "camera-web-disabled"
    }
}

/// The title for the state of the switch.
pub fn title(on: bool) -> (r: &'static str)
    ensures
        r@ == if on {
            "vcam-proxy — Virtual Camera ON"@
        } else {
            "vcam-proxy — Virtual Camera OFF"@
        },
{
    if on {
        "vcam-proxy — Virtual Camera ON"
    } else {
        "vcam-proxy — Virtual Camera OFF"
    }
}

/// What a menu entry does when it is activated.
#[derive(Clone, Copy, Debug, PartialEq, Eq, Structural)]
pub enum TrayAction {
    /// Flip the switch.
    Toggle,
    /// Open the settings window.
    OpenSettings,
    /// Request shutdown.
    Quit,
}

/// A line of the tray menu.
#[derive(Clone, Copy, Debug)]
pub enum TrayEntry {
    Separator,
    Item { label: &'static str, icon: &'static str, action: TrayAction },
}

impl TrayEntry {
    /// This is an item with these texts and this action.
    pub open spec fn is_item(
        self,
        label: Seq<char>,
        icon: Seq<char>,
        action: TrayAction,
    ) -> bool {
        self matches TrayEntry::Item { label: l, icon: i, action: a } && l@ == label && i@ == icon
            && a == action
    }
}

/// The tray menu for the state of the switch: the toggle, whose label says what
/// it would do, the settings window where there is one, and quit.
pub fn menu(on: bool, has_settings: bool) -> (r: Vec<TrayEntry>)
    ensures
        r@.len() == if has_settings {
            4int
        } else {
            3int
        },
        r@[0].is_item(
            if on {
                "Turn Virtual Camera OFF"@
            } else {
                "Turn Virtual Camera ON"@
            },
            if on {
                "media-playback-stop"@
            } else {
                "media-playback-start"@
            },
            TrayAction::Toggle,
        ),
        has_settings ==> r@[1].is_item(
            "Settings…"@,
            "preferences-system"@,
            TrayAction::OpenSettings,
        ),
        r@[r@.len() - 2] is Separator,
        r@[r@.len() - 1].is_item("Quit"@, "application-exit"@, TrayAction::Quit),
        r@[0] matches TrayEntry::Item { label, .. } && label@ == toggle_label(on),
{
    let toggle = TrayEntry::Item {
        label: if on {
            "Turn Virtual Camera OFF"
        } else {
            "Turn Virtual Camera ON"
        },
        icon: if on {
            "media-playback-stop"
        } else {
            "media-playback-start"
        },
        action: TrayAction::Toggle,
    };
    let mut entries: Vec<TrayEntry> = Vec::new();
    entries.push(toggle);
    if has_settings {
        entries.push(
            TrayEntry::Item {
                label: "Settings…",
                icon: "preferences-system",
                action: TrayAction::OpenSettings,
            },
        );
    }
    entries.push(TrayEntry::Separator);
    entries.push(
        TrayEntry::Item { label: "Quit", icon: "application-exit", action: TrayAction::Quit },
    );
    entries
}

/// What the toggle is labelled with.
pub open spec fn toggle_label(on: bool) -> Seq<char> {
    if on {
        "Turn Virtual Camera OFF"@
    } else {
        "Turn Virtual Camera ON"@
    }
}

/// The toggle says what it would do, which is never what is the case already.
pub proof fn law_toggle_label(on: bool)
    ensures
        toggle_label(true) == "Turn Virtual Camera OFF"@,
        toggle_label(false) == "Turn Virtual Camera ON"@,
        toggle_label(on) != toggle_label(!on),
{
    reveal_strlit("Turn Virtual Camera OFF");
    reveal_strlit("Turn Virtual Camera ON");
    assert("Turn Virtual Camera OFF"@.len() == 23 && "Turn Virtual Camera ON"@.len() == 22);
}

/// An item has exactly the texts and the action that it is said to have.
pub proof fn law_menu_items(
    entry: TrayEntry,
    label: Seq<char>,
    icon: Seq<char>,
    action: TrayAction,
)
    ensures
        entry.is_item(label, icon, action) <==> (entry matches TrayEntry::Item {
            label: l,
            icon: i,
            action: a,
        } && l@ == label && i@ == icon && a == action),
        entry is Separator ==> !entry.is_item(label, icon, action),
{
}

} // verus!
