//! Kernel module management for v4l2loopback.

use vstd::prelude::*;

use crate::sink::v4l2loop::discovery::is_loopback_driver;
use crate::sink::v4l2loop::discovery::loopback_name;
use crate::sink::v4l2loop::discovery::DeviceInfo;
use crate::text::chars_of;
use crate::text::digit;
use crate::text::lines;
use crate::text::parse_u32;
use crate::text::signed_decimal;
use crate::text::split;
use crate::text::starts_with;
use crate::text::sub_chars;
use crate::text::trim;

verus! {

/// Whether the text of `/proc/modules` lists the module.
pub open spec fn lists_module(modules: Seq<char>) -> bool {
    exists|i: int|
        0 <= i < crate::text::lines_of(modules).len() && crate::text::has_prefix(
            #[trigger] crate::text::lines_of(modules)[i],
            "v4l2loopback "@,
        )
}

/// Check if the v4l2loopback kernel module is currently loaded, from the text of
/// `/proc/modules`. A file that cannot be read counts as not loaded.
pub fn is_module_loaded(modules: Option<&str>) -> (r: bool)
    ensures
        r == (modules matches Some(text) && lists_module(text@)),
{
    match modules {
        Some(text) => {
            let chars = chars_of(text);
            let all = lines(chars.as_slice());
            let ghost spec_lines = crate::text::lines_of(text@);
            assert forall|k: int| 0 <= k < all@.len() implies (#[trigger] all@[k])@
                == spec_lines[k] by {
                assert(crate::text::views(all@)[k] == all@[k]@);
            }
            for i in 0..all.len()
                invariant
                    all@.len() == spec_lines.len(),
                    spec_lines == crate::text::lines_of(text@),
                    modules == Some(text),
                    forall|k: int| 0 <= k < all@.len() ==> (#[trigger] all@[k])@ == spec_lines[k],
                    forall|k: int|
                        0 <= k < i ==> !crate::text::has_prefix(
                            #[trigger] spec_lines[k],
                            "v4l2loopback "@,
                        ),
            {
                assert(all@[i as int]@ == spec_lines[i as int]);
                if starts_with(all[i].as_slice(), "v4l2loopback ") {
                    return true;
                }
            }
            false
        },
        None => false,
    }
}

// ---------------------------------------------------------------------------
// Versions
// ---------------------------------------------------------------------------

/// The longest prefix of digits.
pub open spec fn leading_digits(s: Seq<char>) -> Seq<char>
    decreases s.len(),
{
    if s.len() == 0 || !crate::text::is_digit(s[0]) {
        Seq::empty()
    } else {
        seq![s[0]] + leading_digits(s.drop_first())
    }
}

/// The version that a text names: three dot-separated numbers, of which the last
/// may carry a suffix.
pub open spec fn version_of(raw: Seq<char>) -> Option<(u32, u32, u32)> {
    let parts = crate::text::split_on(crate::text::trimmed(raw), '.');
    if parts.len() < 3 {
        None
    } else {
        match (
            crate::text::unsigned_value(parts[0], u32::MAX as nat),
            crate::text::unsigned_value(parts[1], u32::MAX as nat),
            crate::text::unsigned_value(leading_digits(parts[2]), u32::MAX as nat),
        ) {
            (Some(major), Some(minor), Some(patch)) => Some(
                (major as u32, minor as u32, patch as u32),
            ),
            _ => None,
        }
    }
}

/// Takes the digits at the start of a text.
fn take_digits(s: &[char]) -> (r: Vec<char>)
    ensures
        r@ == leading_digits(s@),
{
    let mut n: usize = 0;
    assert(s@.take(0) + leading_digits(s@.skip(0)) =~= leading_digits(s@)) by {
        assert(s@.skip(0) =~= s@);
    }
    while n < s.len() && digit(s[n])
        invariant
            n <= s@.len(),
            leading_digits(s@) == s@.take(n as int) + leading_digits(s@.skip(n as int)),
        ensures
            n <= s@.len(),
            n == s@.len() || !crate::text::is_digit(s@[n as int]),
            leading_digits(s@) == s@.take(n as int) + leading_digits(s@.skip(n as int)),
        decreases s@.len() - n,
    {
        let ghost rest = s@.skip(n as int);
        assert(rest.drop_first() =~= s@.skip(n + 1));
        assert(s@.take(n as int) + (seq![rest[0]] + leading_digits(rest.drop_first())) =~= s@.take(
            n + 1,
        ) + leading_digits(s@.skip(n + 1)));
        n += 1;
    }
    let out = sub_chars(s, 0, n);
    assert(leading_digits(s@.skip(n as int)) =~= Seq::<char>::empty());
    assert(out@ =~= leading_digits(s@));
    out
}

/// Parse a v4l2loopback version string ("0.15.3", "0.15.3-dirty") into a tuple.
pub fn parse_version(raw: &str) -> (r: Option<(u32, u32, u32)>)
    ensures
        r == version_of(raw@),
{
    let chars = chars_of(raw);
    let body = trim(chars.as_slice());
    let parts = split(body.as_slice(), '.');
    let ghost all = crate::text::split_on(body@, '.');
    assert forall|k: int| 0 <= k < parts@.len() implies (#[trigger] parts@[k])@ == all[k] by {
        assert(crate::text::views(parts@)[k] == parts@[k]@);
    }
    if parts.len() < 3 {
        return None;
    }
    let major = parse_u32(parts[0].as_slice());
    let minor = parse_u32(parts[1].as_slice());
    // Patch may carry a suffix ("3-dirty", "3rc1") — take leading digits only.
    let patch_digits = take_digits(parts[2].as_slice());
    let patch = parse_u32(patch_digits.as_slice());
    match (major, minor, patch) {
        (Some(a), Some(b), Some(c)) => Some((a, b, c)),
        _ => None,
    }
}

/// Version of the currently loaded v4l2loopback module, from the text of its
/// sysfs `version` file, if that is readable.
pub fn module_version(raw: Option<&str>) -> (r: Option<(u32, u32, u32)>)
    ensures
        r == (match raw {
            Some(text) => version_of(text@),
            None => None,
        }),
{
    match raw {
        Some(text) => parse_version(text),
        None => None,
    }
}

/// First driver release with the exclusive stream-token model.
pub const SINGLE_STREAMER_SINCE: (u32, u32, u32) = (0, 14, 0);

/// Whether version `a` is no older than version `b`.
pub open spec fn no_older(a: (u32, u32, u32), b: (u32, u32, u32)) -> bool {
    a.0 > b.0 || (a.0 == b.0 && (a.1 > b.1 || (a.1 == b.1 && a.2 >= b.2)))
}

/// Whether the loaded driver allows only ONE streaming reader per device node.
///
/// v4l2loopback ≥ 0.14 grants the CAPTURE stream token to a single opener:
/// the first app to stream from a node owns it, and every additional reader
/// fails with EBUSY ("Device or resource busy") from VIDIOC_REQBUFS/read().
/// Releases ≤ 0.13 broadcast frames to any number of concurrent readers on
/// one node. Returns `None` when the version can't be determined.
pub fn capture_single_streamer(version: Option<(u32, u32, u32)>) -> (r: Option<bool>)
    ensures
        r == (match version {
            Some(v) => Some(no_older(v, SINGLE_STREAMER_SINCE)),
            None => None,
        }),
        r == one_reader(version),
{
    match version {
        Some(v) => {
            let since = SINGLE_STREAMER_SINCE;
            Some(
                v.0 > since.0 || (v.0 == since.0 && (v.1 > since.1 || (v.1 == since.1 && v.2
                    >= since.2))),
            )
        },
        None => None,
    }
}

/// Every release from 0.14 on, and none before, has the single-streamer model.
pub proof fn law_single_streamer_threshold(v: (u32, u32, u32))
    ensures
        no_older(v, SINGLE_STREAMER_SINCE) <==> v.0 > 0 || v.1 >= 14,
{
}

// ---------------------------------------------------------------------------
// Counting devices
// ---------------------------------------------------------------------------

/// The number of loopback devices in a list.
pub open spec fn loopback_count(devices: Seq<DeviceInfo>) -> nat
    decreases devices.len(),
{
    if devices.len() == 0 {
        0
    } else {
        loopback_count(devices.drop_last()) + if loopback_name(devices.last().driver@) {
            1nat
        } else {
            0nat
        }
    }
}

/// Count how many v4l2loopback devices currently exist in /dev. A scan that
/// failed counts none.
pub fn count_loopback_devices(scan: &Result<Vec<DeviceInfo>, String>) -> (n: usize)
    ensures
        n == (match *scan {
            Ok(devices) => loopback_count(devices@),
            Err(_) => 0,
        }),
{
    match scan {
        Ok(devices) => {
            let mut n: usize = 0;
            for i in 0..devices.len()
                invariant
                    n == loopback_count(devices@.take(i as int)),
                    n <= i,
            {
                assert(devices@.take(i + 1).drop_last() =~= devices@.take(i as int));
                if is_loopback_driver(devices[i].driver.as_str()) {
                    n += 1;
                }
            }
            assert(devices@.take(devices@.len() as int) =~= devices@);
            n
        },
        Err(_) => 0,
    }
}

/// There are as many loopback devices as there are paths to write to.
pub proof fn law_count_matches_paths(devices: Seq<DeviceInfo>)
    ensures
        loopback_count(devices) == crate::sink::v4l2loop::discovery::loopback_paths_of(
            devices,
        ).len(),
    decreases devices.len(),
{
    if devices.len() > 0 {
        law_count_matches_paths(devices.drop_last());
    }
}

// ---------------------------------------------------------------------------
// Loading the module
// ---------------------------------------------------------------------------

/// Error type for module management operations.
#[derive(Debug)]
pub enum ModuleError {
    LoadFailed { reason: String },
    /// `modprobe` did not find the module: its package is not installed.
    NotInstalled { reason: String },
    PkexecNotAvailable,
    DistroNotSupported,
    InstallFailed(i32),
}

impl ModuleError {
    /// The message for the user.
    pub open spec fn text(self) -> Seq<char> {
        match self {
            ModuleError::LoadFailed { reason } => "module load failed: "@ + reason@,
            ModuleError::NotInstalled { reason } => "module load failed: "@ + reason@,
            ModuleError::PkexecNotAvailable =>
                "pkexec not available; run manually: sudo modprobe v4l2loopback exclusive_caps=1 card_label=vcam-proxy devices=1"@,
            ModuleError::DistroNotSupported =>
                "cannot auto-install: unsupported Linux distribution. Install v4l2loopback-dkms manually"@,
            ModuleError::InstallFailed(code) => "package install failed (exit code "@
                + crate::text::signed_digits(code as int)
                + "); check network and try installing v4l2loopback-dkms manually"@,
        }
    }

    /// A failure to load the module, for this reason.
    pub open spec fn is_load_failure(self, why: Seq<char>) -> bool {
        self matches ModuleError::LoadFailed { reason } && reason@ == why
    }

    /// The module was not found, with this report.
    pub open spec fn is_missing_module(self, why: Seq<char>) -> bool {
        self matches ModuleError::NotInstalled { reason } && reason@ == why
    }

    /// The message for the user.
    pub fn message(&self) -> (r: String)
        ensures
            r@ == self.text(),
    {
        match self {
            ModuleError::LoadFailed { reason } | ModuleError::NotInstalled { reason } => {
                let mut r = "module load failed: ".to_owned();
                r.append(reason.as_str());
                r
            },
            ModuleError::PkexecNotAvailable =>
                "pkexec not available; run manually: sudo modprobe v4l2loopback exclusive_caps=1 card_label=vcam-proxy devices=1".to_owned(),
            ModuleError::DistroNotSupported =>
                "cannot auto-install: unsupported Linux distribution. Install v4l2loopback-dkms manually".to_owned(),
            ModuleError::InstallFailed(code) => {
                let mut r = "package install failed (exit code ".to_owned();
                r.append(signed_decimal(*code).as_str());
                r.append("); check network and try installing v4l2loopback-dkms manually");
                r
            },
        }
    }
}

/// What happened since the last decision about the module.
pub enum EnsureEvent {
    /// `/proc/modules` was checked.
    Checked(bool),
    /// The first attempt to load the module ended.
    Loaded(Result<(), ModuleError>),
    /// The package installation ended.
    Installed(Result<(), ModuleError>),
    /// The attempt to load the installed module ended.
    Reloaded(Result<(), ModuleError>),
}

/// What to do about the module next.
pub enum EnsureAction {
    /// Load the module (it may be built but unloaded).
    Load,
    /// Install the package.
    Install,
    /// Load the module that was just installed.
    Reload,
    /// All is done, with this result.
    Done(Result<(), ModuleError>),
}

/// What to do about the module after an event.
pub open spec fn ensure_step(event: EnsureEvent) -> EnsureAction {
    match event {
        EnsureEvent::Checked(loaded) => if loaded {
            EnsureAction::Done(Ok(()))
        } else {
            EnsureAction::Load
        },
        EnsureEvent::Loaded(Ok(())) => EnsureAction::Done(Ok(())),
        EnsureEvent::Loaded(Err(e)) => if e is NotInstalled {
            EnsureAction::Install
        } else {
            EnsureAction::Done(Err(e))
        },
        EnsureEvent::Installed(Ok(())) => EnsureAction::Reload,
        EnsureEvent::Installed(Err(e)) => EnsureAction::Done(Err(e)),
        EnsureEvent::Reloaded(result) => EnsureAction::Done(result),
    }
}

/// Whether an event reports the end of an action.
pub open spec fn ensure_answers(action: EnsureAction, event: EnsureEvent) -> bool {
    match action {
        EnsureAction::Load => event is Loaded,
        EnsureAction::Install => event is Installed,
        EnsureAction::Reload => event is Reloaded,
        EnsureAction::Done(_) => false,
    }
}

/// How many actions can follow, this one included.
pub open spec fn ensure_rank(action: EnsureAction) -> nat {
    match action {
        EnsureAction::Load => 3,
        EnsureAction::Install => 2,
        EnsureAction::Reload => 1,
        EnsureAction::Done(_) => 0,
    }
}

/// Ensuring that the module is loaded comes to an end: at most two attempts to
/// load it, with one installation in between. A module that is loaded is left
/// alone, a package is installed only where the module was not found, and success is
/// reported only when a check or the last attempt to load it succeeded.
pub proof fn law_ensure_ends(action: EnsureAction, event: EnsureEvent)
    ensures
        ensure_answers(action, event) ==> ensure_rank(ensure_step(event)) < ensure_rank(action),
        ensure_step(EnsureEvent::Checked(true)) == EnsureAction::Done(Ok(())),
        ensure_step(event) is Install ==> (event matches EnsureEvent::Loaded(r) && (r matches Err(e)
            && e is NotInstalled)),
        (ensure_step(event) matches EnsureAction::Done(r) && r is Ok) ==> match event {
            EnsureEvent::Checked(loaded) => loaded,
            EnsureEvent::Loaded(result) => result is Ok,
            EnsureEvent::Installed(_) => false,
            EnsureEvent::Reloaded(result) => result is Ok,
        },
{
}

/// Ensure the v4l2loopback module is loaded, installing the package first if
/// it cannot be found by `modprobe`. Flow:
/// 1. Check `/proc/modules` — if already loaded, all is done.
/// 2. Try `modprobe v4l2loopback …` via pkexec.
/// 3. If modprobe failed because the module isn't installed, install the package
///    and retry modprobe once. Any other failure is returned.
pub fn ensure_module_loaded_with_install(event: EnsureEvent) -> (r: EnsureAction)
    ensures
        r == ensure_step(event),
{
    match event {
        EnsureEvent::Checked(loaded) => if loaded {
            EnsureAction::Done(Ok(()))
        } else {
            EnsureAction::Load
        },
        EnsureEvent::Loaded(result) => match result {
            Ok(()) => EnsureAction::Done(Ok(())),
            Err(e) => {
                let missing = match &e {
                    ModuleError::NotInstalled { .. } => true,
                    _ => false,
                };
                if missing {
                    EnsureAction::Install
                } else {
                    EnsureAction::Done(Err(e))
                }
            },
        },
        EnsureEvent::Installed(result) => match result {
            Ok(()) => EnsureAction::Reload,
            Err(e) => EnsureAction::Done(Err(e)),
        },
        EnsureEvent::Reloaded(result) => EnsureAction::Done(result),
    }
}

// ---------------------------------------------------------------------------
// Laws of what is read of the module
// ---------------------------------------------------------------------------

/// The module is loaded exactly when a line of the list starts with its name and a
/// space: a line decides for itself, and otherwise the lines behind it do.
pub proof fn law_module_line_by_line(line: Seq<char>, rest: Seq<char>)
    requires
        forall|i: int| 0 <= i < line.len() ==> #[trigger] line[i] != '\n',
        line.len() == 0 || line.last() != '\r',
    ensures
        !lists_module(Seq::<char>::empty()),
        lists_module(line + seq!['\n'] + rest) <==> crate::text::has_prefix(
            line,
            "v4l2loopback "@,
        ) || lists_module(rest),
{
    crate::text::law_lines(line, rest);
    let all = crate::text::lines_of(line + seq!['\n'] + rest);
    let behind = crate::text::lines_of(rest);
    assert(all[0] == line);
    if crate::text::has_prefix(line, "v4l2loopback "@) {
        assert(crate::text::has_prefix(all[0], "v4l2loopback "@));
    }
    if lists_module(rest) {
        let i = choose|i: int|
            0 <= i < behind.len() && crate::text::has_prefix(
                #[trigger] behind[i],
                "v4l2loopback "@,
            );
        assert(all[i + 1] == behind[i]);
    }
    if lists_module(line + seq!['\n'] + rest) {
        let i = choose|i: int|
            0 <= i < all.len() && crate::text::has_prefix(#[trigger] all[i], "v4l2loopback "@);
        if i > 0 {
            assert(all[i] == behind[i - 1]);
        }
    }
}

/// The leading digits of a text end at the first character that is none.
pub proof fn law_leading_digits(digits: Seq<char>, rest: Seq<char>)
    requires
        crate::text::all_digits(digits),
        rest.len() == 0 || !('0' <= rest[0] <= '9'),
    ensures
        leading_digits(digits + rest) == digits,
    decreases digits.len(),
{
    if digits.len() > 0 {
        let tail = digits.drop_first();
        assert forall|i: int| 0 <= i < tail.len() implies crate::text::is_digit(
            #[trigger] tail[i],
        ) by {
            assert(tail[i] == digits[i + 1]);
        }
        law_leading_digits(tail, rest);
        assert(crate::text::is_digit(digits[0]));
        assert((digits + rest)[0] == digits[0]);
        assert((digits + rest).drop_first() =~= tail + rest);
        assert(leading_digits(digits + rest) =~= digits);
    } else {
        assert(digits + rest =~= rest);
        assert(leading_digits(rest) =~= digits);
    }
}

/// A version that is written as three numbers with dots between them is read back as
/// these numbers, in their order, with white space around it and with a suffix behind
/// the last number. With two numbers there is no version.
pub proof fn law_version_round_trip(
    before: Seq<char>,
    major: u32,
    minor: u32,
    patch: u32,
    suffix: Seq<char>,
    behind: Seq<char>,
)
    requires
        forall|i: int| 0 <= i < before.len() ==> crate::text::is_white(#[trigger] before[i]),
        forall|i: int| 0 <= i < behind.len() ==> crate::text::is_white(#[trigger] behind[i]),
        suffix.len() == 0 || (!('0' <= suffix[0] <= '9') && !crate::text::is_white(suffix.last())),
        forall|i: int| 0 <= i < suffix.len() ==> #[trigger] suffix[i] != '.',
    ensures
        ({
            let a = crate::text::decimal_digits(major as nat);
            let b = crate::text::decimal_digits(minor as nat);
            let c = crate::text::decimal_digits(patch as nat);
            let two = a + seq!['.'] + b;
            let three = a + seq!['.'] + (b + seq!['.'] + (c + suffix));
            &&& version_of(before + three + behind) == Some((major, minor, patch))
            &&& version_of(before + two + behind) is None
        }),
{
    let a = crate::text::decimal_digits(major as nat);
    let b = crate::text::decimal_digits(minor as nat);
    let c = crate::text::decimal_digits(patch as nat);
    let last = c + suffix;
    let inner = b + seq!['.'] + last;
    let two = a + seq!['.'] + b;
    let three = a + seq!['.'] + inner;
    crate::text::lemma_decimal_is_digits(major as nat);
    crate::text::lemma_decimal_is_digits(minor as nat);
    crate::text::lemma_decimal_is_digits(patch as nat);
    assert(crate::text::is_digit(a[0]) && crate::text::is_digit(b[b.len() - 1])
        && crate::text::is_digit(c[c.len() - 1]));
    assert(three[0] == a[0] && two[0] == a[0]);
    assert(two.last() == b[b.len() - 1]);
    assert(last.last() == if suffix.len() > 0 {
        suffix.last()
    } else {
        c[c.len() - 1]
    });
    assert(three.last() == last.last());
    crate::text::law_trimming(before, three, behind);
    crate::text::law_trimming(before, two, behind);
    lemma_digits_are_one_piece(a, Seq::empty());
    lemma_digits_are_one_piece(b, Seq::empty());
    lemma_digits_are_one_piece(c, suffix);
    assert(a + Seq::<char>::empty() =~= a && b + Seq::<char>::empty() =~= b);
    crate::text::law_split_at_a_separator(b, last, '.');
    crate::text::law_split_at_a_separator(a, inner, '.');
    crate::text::law_split_at_a_separator(a, b, '.');
    assert(crate::text::split_on(three, '.') =~= seq![a, b, last]);
    assert(crate::text::split_on(two, '.') =~= seq![a, b]);
    law_leading_digits(c, suffix);
    crate::text::law_decimal_round_trip(major as nat, u32::MAX as nat);
    crate::text::law_decimal_round_trip(minor as nat, u32::MAX as nat);
    crate::text::law_decimal_round_trip(patch as nat, u32::MAX as nat);
}

/// Digits, and a suffix without a dot, are one piece.
proof fn lemma_digits_are_one_piece(digits: Seq<char>, suffix: Seq<char>)
    requires
        crate::text::all_digits(digits),
        forall|i: int| 0 <= i < suffix.len() ==> #[trigger] suffix[i] != '.',
    ensures
        crate::text::split_on(digits + suffix, '.') == seq![digits + suffix],
{
    let s = digits + suffix;
    assert forall|i: int| 0 <= i < s.len() implies #[trigger] s[i] != '.' by {
        if i < digits.len() {
            assert(crate::text::is_digit(digits[i]));
        } else {
            assert(s[i] == suffix[i - digits.len()]);
        }
    }
    crate::text::law_split_of_one_piece(s, '.');
}

/// Versions are ordered by their first number, then by the second, then by the third:
/// of two versions one is no older than the other, both only if they are the same, and
/// a larger number in a place counts more than all places behind it.
pub proof fn law_version_order(a: (u32, u32, u32), b: (u32, u32, u32), c: (u32, u32, u32))
    ensures
        no_older(a, b) || no_older(b, a),
        no_older(a, b) && no_older(b, a) ==> a == b,
        no_older(a, b) && no_older(b, c) ==> no_older(a, c),
        a.0 > b.0 ==> no_older(a, b),
        a.0 == b.0 && a.1 > b.1 ==> no_older(a, b),
        a.0 == b.0 && a.1 == b.1 ==> (no_older(a, b) <==> a.2 >= b.2),
{
}

/// Each step follows from what was reported: a module that is not loaded is loaded, an
/// installed one is loaded again, and an error that installing cannot mend is reported
/// as it came.
pub proof fn law_ensure_reports_what_happened(event: EnsureEvent)
    ensures
        event matches EnsureEvent::Checked(loaded) ==> (ensure_step(event) is Load <==> !loaded),
        event matches EnsureEvent::Loaded(r) ==> match r {
            Ok(()) => ensure_step(event) == EnsureAction::Done(Ok(())),
            Err(e) => if e is NotInstalled {
                ensure_step(event) is Install
            } else {
                ensure_step(event) == EnsureAction::Done(Err(e))
            },
        },
        event matches EnsureEvent::Installed(r) ==> match r {
            Ok(()) => ensure_step(event) is Reload,
            Err(e) => ensure_step(event) == EnsureAction::Done(Err(e)),
        },
        event matches EnsureEvent::Reloaded(r) ==> ensure_step(event) == EnsureAction::Done(r),
{
}

/// Whether a driver of this version allows one streaming reader only, if the version is
/// known.
pub open spec fn one_reader(version: Option<(u32, u32, u32)>) -> Option<bool> {
    match version {
        Some(v) => Some(no_older(v, SINGLE_STREAMER_SINCE)),
        None => None,
    }
}

/// A driver from 0.14 on has one reader, one up to 0.13 has any number, and nothing is
/// said of a driver whose version is not known. A newer driver never has more readers
/// again.
pub proof fn law_readers_by_version(v: (u32, u32, u32), newer: (u32, u32, u32))
    ensures
        one_reader(None) is None,
        one_reader(Some(v)) == Some(v.0 >= 1 || v.1 >= 14),
        no_older(newer, v) && one_reader(Some(v)) == Some(true) ==> one_reader(Some(newer)) == Some(
            true,
        ),
{
}

/// A failure is reported with its reason: that of a load or of a missing module behind the
/// same words, and that of an installation by its exit code. Kinds of failure are told
/// apart by what they are, and carry their reason unchanged.
pub proof fn law_module_failures(e: ModuleError, why: Seq<char>)
    ensures
        e.is_load_failure(why) <==> (e matches ModuleError::LoadFailed { reason } && reason@ == why),
        e.is_missing_module(why) <==> (e matches ModuleError::NotInstalled { reason } && reason@
            == why),
        e.is_load_failure(why) || e.is_missing_module(why) ==> e.text() == "module load failed: "@
            + why,
        e matches ModuleError::InstallFailed(code) ==> crate::text::has_prefix(
            e.text(),
            "package install failed (exit code "@ + crate::text::signed_digits(code as int),
        ),
{
    if let ModuleError::InstallFailed(code) = e {
        let head = "package install failed (exit code "@ + crate::text::signed_digits(code as int);
        crate::text::law_prefix(
            head,
            "); check network and try installing v4l2loopback-dkms manually"@,
            head,
        );
    }
}

} // verus!
