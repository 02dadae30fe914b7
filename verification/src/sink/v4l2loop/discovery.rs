//! Device discovery & validation for v4l2loopback devices.

use vstd::prelude::*;

use crate::text::chars_of;
use crate::text::parse_u32;
use crate::text::same_text;
use crate::text::split;
use crate::text::starts_with;
use crate::text::string_of;
use crate::text::strip_prefix;
use crate::text::trim;

verus! {

/// One discovered video device with its metadata.
#[derive(Debug)]
pub struct DeviceInfo {
    /// Device node path (e.g. `/dev/video0`).
    pub path: String,
    /// Human-readable card label from the driver.
    pub card: String,
    /// Kernel driver name. For physical devices this comes from the sysfs
    /// `device/driver` symlink (e.g. `uvcvideo`); for virtual devices such as
    /// v4l2loopback — which register no sysfs driver link — it is queried
    /// directly from the driver via `VIDIOC_QUERYCAP` (`"v4l2 loopback"`).
    pub driver: String,
}

/// The three texts of a device.
#[verifier::ext_equal]
pub struct DeviceText {
    pub path: Seq<char>,
    pub card: Seq<char>,
    pub driver: Seq<char>,
}

impl View for DeviceInfo {
    type V = DeviceText;

    open spec fn view(&self) -> DeviceText {
        DeviceText { path: self.path@, card: self.card@, driver: self.driver@ }
    }
}

impl Clone for DeviceInfo {
    fn clone(&self) -> (r: Self)
        ensures
            r == *self,
    {
        DeviceInfo {
            path: self.path.clone(),
            card: self.card.clone(),
            driver: self.driver.clone(),
        }
    }
}

/// The texts of a list of devices.
pub open spec fn device_texts(devices: Seq<DeviceInfo>) -> Seq<DeviceText> {
    devices.map_values(|d: DeviceInfo| d@)
}

// ---------------------------------------------------------------------------
// Node names
// ---------------------------------------------------------------------------

/// The components of a path that name something: no empty ones, and no `.`.
pub open spec fn named_parts(parts: Seq<Seq<char>>) -> Seq<Seq<char>>
    decreases parts.len(),
{
    if parts.len() == 0 {
        Seq::empty()
    } else {
        let rest = named_parts(parts.drop_last());
        if parts.last() == Seq::<char>::empty() || parts.last() == "."@ {
            rest
        } else {
            rest.push(parts.last())
        }
    }
}

/// The last component of a path, unless it is `..`.
pub open spec fn file_name_of(path: Seq<char>) -> Option<Seq<char>> {
    let parts = named_parts(crate::text::split_on(path, '/'));
    if parts.len() == 0 || parts.last() == ".."@ {
        None
    } else {
        Some(parts.last())
    }
}

/// The last component of a path, unless it is `..`.
pub fn file_name(path: &str) -> (r: Option<String>)
    ensures
        match r {
            Some(name) => file_name_of(path@) == Some(name@),
            None => file_name_of(path@) is None,
        },
{
    let chars = chars_of(path);
    let parts = split(chars.as_slice(), '/');
    let ghost all = crate::text::views(parts@);
    let mut last: Option<String> = None;
    for i in 0..parts.len()
        invariant
            all == crate::text::views(parts@),
            match last {
                Some(name) => named_parts(all.take(i as int)).len() > 0 && named_parts(
                    all.take(i as int),
                ).last() == name@,
                None => named_parts(all.take(i as int)).len() == 0,
            },
    {
        assert(all.take(i + 1).drop_last() =~= all.take(i as int));
        assert(all.take(i + 1).last() == parts@[i as int]@);
        let name = string_of(parts[i].as_slice());
        if parts[i].len() == 0 {
            assert(parts@[i as int]@ =~= Seq::<char>::empty());
        } else if same_text(name.as_str(), ".") {
        } else {
            last = Some(name);
        }
    }
    assert(all.take(all.len() as int) =~= all);
    match last {
        Some(name) => if same_text(name.as_str(), "..") {
            None
        } else {
            Some(name)
        },
        None => None,
    }
}

/// The numeric suffix of a `/dev/videoN` node, or the largest number for
/// anything else.
pub open spec fn node_number(path: Seq<char>) -> u32 {
    match file_name_of(path) {
        Some(name) => match crate::text::after_prefix(name, "video"@) {
            Some(digits) => match crate::text::unsigned_value(digits, u32::MAX as nat) {
                Some(n) => n as u32,
                None => u32::MAX,
            },
            None => u32::MAX,
        },
        None => u32::MAX,
    }
}

/// Extract the numeric suffix of a `/dev/videoN` node for natural ordering
/// (so `/dev/video2` sorts before `/dev/video10`).
pub fn device_number(path: &str) -> (r: u32)
    ensures
        r == node_number(path@),
{
    match file_name(path) {
        Some(name) => {
            let chars = chars_of(name.as_str());
            match strip_prefix(chars.as_slice(), "video") {
                Some(digits) => match parse_u32(digits.as_slice()) {
                    Some(n) => n,
                    None => u32::MAX,
                },
                None => u32::MAX,
            }
        },
        None => u32::MAX,
    }
}

// ---------------------------------------------------------------------------
// Drivers
// ---------------------------------------------------------------------------

/// The names under which the v4l2loopback driver reports itself.
pub open spec fn loopback_name(driver: Seq<char>) -> bool {
    driver == "v4l2loopback"@ || driver == "v4l2 loopback"@
}

/// Check whether a device is driven by the v4l2loopback kernel module.
pub fn is_loopback_driver(driver: &str) -> (r: bool)
    ensures
        r == loopback_name(driver@),
{
    // The sysfs driver link reports "v4l2loopback" while VIDIOC_QUERYCAP
    // reports "v4l2 loopback" (with a space); accept both.
    same_text(driver, "v4l2loopback") || same_text(driver, "v4l2 loopback")
}

/// The text in an optional string.
pub open spec fn opt_text(t: Option<String>) -> Option<Seq<char>> {
    match t {
        Some(s) => Some(s@),
        None => None,
    }
}

/// The driver of a device, from the target of its sysfs `device/driver` link
/// and from its answer to `VIDIOC_QUERYCAP`.
pub open spec fn driver_name(link: Option<Seq<char>>, queried: Option<Seq<char>>) -> Seq<char> {
    match link {
        Some(target) => match file_name_of(target) {
            Some(name) => name,
            None => match queried {
                Some(q) => q,
                None => Seq::empty(),
            },
        },
        None => match queried {
            Some(q) => q,
            None => Seq::empty(),
        },
    }
}

/// Resolve the driver name for a device: sysfs symlink first (works for
/// physical devices), `VIDIOC_QUERYCAP` as the fallback for virtual ones.
pub fn driver_for(link: &Option<String>, queried: &Option<String>) -> (r: String)
    ensures
        r@ == driver_name(opt_text(*link), opt_text(*queried)),
{
    if let Some(target) = link {
        if let Some(name) = file_name(target.as_str()) {
            return name;
        }
    }
    match queried {
        Some(q) => q.clone(),
        None => String::new(),
    }
}

/// Whether a device is driven by the v4l2loopback kernel module. Without a
/// sysfs entry (unusual) only the driver's own answer counts.
pub fn device_is_loopback(
    in_sysfs: bool,
    link: &Option<String>,
    queried: &Option<String>,
) -> (r: bool)
    ensures
        r == loopback_name(
            driver_name(
                if in_sysfs {
                    opt_text(*link)
                } else {
                    None
                },
                opt_text(*queried),
            ),
        ),
{
    if in_sysfs {
        let driver = driver_for(link, queried);
        is_loopback_driver(driver.as_str())
    } else {
        let driver = driver_for(&None, queried);
        is_loopback_driver(driver.as_str())
    }
}

// ---------------------------------------------------------------------------
// Enumeration
// ---------------------------------------------------------------------------

/// What was found under one entry of `/sys/class/video4linux`.
pub struct SysfsEntry {
    /// The entry's name (e.g. `video0`).
    pub name: String,
    /// Whether `/dev/<name>` exists.
    pub node_exists: bool,
    /// The content of the entry's `name` file.
    pub card: Option<String>,
    /// The target of the entry's `device/driver` link.
    pub link: Option<String>,
    /// The driver's answer to `VIDIOC_QUERYCAP`.
    pub queried: Option<String>,
}

impl SysfsEntry {
    /// The entry stands for a video node that exists.
    pub open spec fn is_node(self) -> bool {
        crate::text::has_prefix(self.name@, "video"@) && self.node_exists
    }

    /// The device that the entry stands for.
    pub open spec fn device(self) -> DeviceText {
        DeviceText {
            path: "/dev/"@ + self.name@,
            card: match self.card {
                Some(raw) => crate::text::trimmed(raw@),
                None => Seq::empty(),
            },
            driver: driver_name(opt_text(self.link), opt_text(self.queried)),
        }
    }

    /// The device that the entry stands for.
    fn to_device(&self) -> (r: DeviceInfo)
        ensures
            r@ == self.device(),
    {
        let mut path = "/dev/".to_owned();
        path.append(self.name.as_str());
        let card = match &self.card {
            Some(raw) => {
                let chars = chars_of(raw.as_str());
                string_of(trim(chars.as_slice()).as_slice())
            },
            None => {
                let empty = String::new();
                assert(empty@ =~= Seq::<char>::empty());
                empty
            },
        };
        DeviceInfo { path, card, driver: driver_for(&self.link, &self.queried) }
    }
}

/// The devices of the entries, in the order of the entries.
pub open spec fn found(entries: Seq<SysfsEntry>) -> Seq<DeviceText>
    decreases entries.len(),
{
    if entries.len() == 0 {
        Seq::empty()
    } else {
        let rest = found(entries.drop_last());
        if entries.last().is_node() {
            rest.push(entries.last().device())
        } else {
            rest
        }
    }
}

/// How many of the leading devices of a sorted list stay before `d`.
pub open spec fn place(sorted: Seq<DeviceText>, d: DeviceText) -> int
    decreases sorted.len(),
{
    if sorted.len() == 0 || node_number(sorted.last().path) <= node_number(d.path) {
        sorted.len() as int
    } else {
        place(sorted.drop_last(), d)
    }
}

/// The list in natural numeric order; equal numbers keep their order.
pub open spec fn in_order(devices: Seq<DeviceText>) -> Seq<DeviceText>
    decreases devices.len(),
{
    if devices.len() == 0 {
        Seq::empty()
    } else {
        let rest = in_order(devices.drop_last());
        rest.insert(place(rest, devices.last()), devices.last())
    }
}

/// Inserts a device into a list in natural numeric order.
fn insert_device(sorted: &mut Vec<DeviceInfo>, d: DeviceInfo)
    ensures
        device_texts(final(sorted)@) == device_texts(old(sorted)@).insert(
            place(device_texts(old(sorted)@), d@),
            d@,
        ),
{
    let key: u32 = device_number(d.path.as_str());
    let mut at: usize = sorted.len();
    let ghost all = device_texts(sorted@);
    assert(all.take(all.len() as int) =~= all);
    while at > 0 && device_number(sorted[at - 1].path.as_str()) > key
        invariant
            at <= sorted@.len(),
            all == device_texts(sorted@),
            key == node_number(d@.path),
            place(all, d@) == place(all.take(at as int), d@),
        ensures
            at <= sorted@.len(),
            at == 0 || node_number(all[at - 1].path) <= key,
            place(all, d@) == place(all.take(at as int), d@),
        decreases at,
    {
        assert(all.take(at as int).drop_last() =~= all.take(at - 1));
        at -= 1;
    }
    assert(place(all, d@) == at);
    sorted.insert(at, d);
    assert(device_texts(sorted@) =~= all.insert(at as int, d@));
}

/// Enumerate all video devices among the entries of `/sys/class/video4linux`,
/// in natural numeric order: video0, video1, video2, ..., video10.
/// Devices without a matching `/dev/video*` node are skipped.
pub fn discover_loopback_devices(entries: &Vec<SysfsEntry>) -> (r: Vec<DeviceInfo>)
    ensures
        device_texts(r@) == in_order(found(entries@)),
{
    let mut devices: Vec<DeviceInfo> = Vec::new();
    assert(device_texts(devices@) =~= in_order(found(entries@.take(0))));
    for i in 0..entries.len()
        invariant
            device_texts(devices@) == in_order(found(entries@.take(i as int))),
    {
        let ghost before = found(entries@.take(i as int));
        assert(entries@.take(i + 1).drop_last() =~= entries@.take(i as int));
        let entry = &entries[i];
        let chars = chars_of(entry.name.as_str());
        if starts_with(chars.as_slice(), "video") && entry.node_exists {
            assert(before.push(entry.device()).drop_last() =~= before);
            insert_device(&mut devices, entry.to_device());
        }
    }
    assert(entries@.take(entries@.len() as int) =~= entries@);
    devices
}

/// Whether the numbers of a list never go down.
pub open spec fn numbers_ascend(devices: Seq<DeviceText>) -> bool {
    forall|i: int, j: int|
        0 <= i < j < devices.len() ==> node_number((#[trigger] devices[i]).path) <= node_number(
            (#[trigger] devices[j]).path,
        )
}

/// Where a device is placed, everything before it has no larger number and
/// everything after it a larger one.
proof fn lemma_place(sorted: Seq<DeviceText>, d: DeviceText)
    requires
        numbers_ascend(sorted),
    ensures
        0 <= place(sorted, d) <= sorted.len(),
        forall|i: int|
            0 <= i < place(sorted, d) ==> node_number((#[trigger] sorted[i]).path) <= node_number(
                d.path,
            ),
        forall|i: int|
            place(sorted, d) <= i < sorted.len() ==> node_number((#[trigger] sorted[i]).path)
                > node_number(d.path),
    decreases sorted.len(),
{
    if sorted.len() > 0 && node_number(sorted.last().path) > node_number(d.path) {
        let rest = sorted.drop_last();
        lemma_place(rest, d);
        assert forall|i: int| 0 <= i < place(sorted, d) implies node_number(
            (#[trigger] sorted[i]).path,
        ) <= node_number(d.path) by {
            assert(sorted[i] == rest[i]);
        }
        assert forall|i: int| place(sorted, d) <= i < sorted.len() implies node_number(
            (#[trigger] sorted[i]).path,
        ) > node_number(d.path) by {
            if i < rest.len() {
                assert(sorted[i] == rest[i]);
            }
        }
    }
}

/// The discovered devices come in natural numeric order, and every one that was
/// found is there exactly as often as it was found.
pub proof fn law_discovery_is_sorted(devices: Seq<DeviceText>)
    ensures
        numbers_ascend(in_order(devices)),
        in_order(devices).to_multiset() == devices.to_multiset(),
        in_order(devices).len() == devices.len(),
    decreases devices.len(),
{
    broadcast use vstd::seq_lib::group_to_multiset_ensures;

    if devices.len() > 0 {
        let rest = in_order(devices.drop_last());
        let d = devices.last();
        law_discovery_is_sorted(devices.drop_last());
        lemma_place(rest, d);
        let at = place(rest, d);
        let all = rest.insert(at, d);
        assert forall|i: int, j: int| 0 <= i < j < all.len() implies node_number(
            (#[trigger] all[i]).path,
        ) <= node_number((#[trigger] all[j]).path) by {
            if i < at {
                assert(all[i] == rest[i]);
            } else if i > at {
                assert(all[i] == rest[i - 1]);
            }
            if j < at {
                assert(all[j] == rest[j]);
            } else if j > at {
                assert(all[j] == rest[j - 1]);
            }
        }
        vstd::seq_lib::to_multiset_insert(rest, at, d);
        assert(devices =~= devices.drop_last().push(d));
        vstd::seq_lib::to_multiset_build(devices.drop_last(), d);
    }
}

// ---------------------------------------------------------------------------
// Choosing a device
// ---------------------------------------------------------------------------

/// Error type for loopback device discovery operations.
#[derive(Debug)]
pub enum LoopbackError {
    NoDeviceFound,
    ScanFailed { source: String },
}

impl LoopbackError {
    /// The message for the user.
    pub open spec fn text(self) -> Seq<char> {
        match self {
            LoopbackError::NoDeviceFound =>
                "no v4l2loopback virtual camera device found on this system"@,
            LoopbackError::ScanFailed { source } => "error scanning /dev/video*: "@ + source@,
        }
    }

    /// The message for the user.
    pub fn message(&self) -> (r: String)
        ensures
            r@ == self.text(),
    {
        match self {
            LoopbackError::NoDeviceFound =>
                "no v4l2loopback virtual camera device found on this system".to_owned(),
            LoopbackError::ScanFailed { source } => {
                let mut r = "error scanning /dev/video*: ".to_owned();
                r.append(source.as_str());
                r
            },
        }
    }
}

/// The paths of the loopback devices among the devices, in order.
pub open spec fn loopback_paths_of(devices: Seq<DeviceInfo>) -> Seq<Seq<char>>
    decreases devices.len(),
{
    if devices.len() == 0 {
        Seq::empty()
    } else {
        let rest = loopback_paths_of(devices.drop_last());
        if loopback_name(devices.last().driver@) {
            rest.push(devices.last().path@)
        } else {
            rest
        }
    }
}

/// The paths of the loopback devices among the devices, in order.
pub fn loopback_paths(devices: &Vec<DeviceInfo>) -> (r: Vec<String>)
    ensures
        crate::text::texts(r@) == loopback_paths_of(devices@),
{
    let mut paths: Vec<String> = Vec::new();
    assert(crate::text::texts(paths@) =~= loopback_paths_of(devices@.take(0)));
    for i in 0..devices.len()
        invariant
            crate::text::texts(paths@) == loopback_paths_of(devices@.take(i as int)),
    {
        assert(devices@.take(i + 1).drop_last() =~= devices@.take(i as int));
        let ghost before = paths@;
        if is_loopback_driver(devices[i].driver.as_str()) {
            paths.push(devices[i].path.clone());
            assert(crate::text::texts(paths@) =~= crate::text::texts(before).push(
                devices@[i as int].path@,
            ));
        }
    }
    assert(devices@.take(devices@.len() as int) =~= devices@);
    paths
}

/// Where the first loopback device of a list stands.
spec fn is_first_loopback(devices: Seq<DeviceInfo>, i: int) -> bool {
    &&& 0 <= i < devices.len()
    &&& loopback_name(devices[i].driver@)
    &&& forall|j: int| 0 <= j < i ==> !loopback_name((#[trigger] devices[j]).driver@)
}

/// The first loopback device has the first path.
proof fn lemma_first_path(devices: Seq<DeviceInfo>, i: int)
    requires
        is_first_loopback(devices, i),
    ensures
        loopback_paths_of(devices).len() > 0,
        loopback_paths_of(devices)[0] == devices[i].path@,
    decreases devices.len(),
{
    let rest = devices.drop_last();
    if i < rest.len() {
        assert(is_first_loopback(rest, i)) by {
            assert forall|j: int| 0 <= j < i implies !loopback_name(
                (#[trigger] rest[j]).driver@,
            ) by {
                assert(devices[j] == rest[j]);
            }
        }
        lemma_first_path(rest, i);
    } else {
        lemma_no_loopback_no_paths(rest);
    }
}

/// Without a loopback device there is no path.
proof fn lemma_no_loopback_no_paths(devices: Seq<DeviceInfo>)
    requires
        forall|j: int| 0 <= j < devices.len() ==> !loopback_name((#[trigger] devices[j]).driver@),
    ensures
        loopback_paths_of(devices).len() == 0,
    decreases devices.len(),
{
    if devices.len() > 0 {
        let rest = devices.drop_last();
        assert forall|j: int| 0 <= j < rest.len() implies !loopback_name(
            (#[trigger] rest[j]).driver@,
        ) by {
            assert(devices[j] == rest[j]);
        }
        lemma_no_loopback_no_paths(rest);
    }
}

/// Where the first loopback device of a list stands, if there is one.
fn first_loopback(devices: &Vec<DeviceInfo>) -> (r: Option<usize>)
    ensures
        match r {
            Some(i) => is_first_loopback(devices@, i as int),
            None => forall|j: int|
                0 <= j < devices@.len() ==> !loopback_name((#[trigger] devices@[j]).driver@),
        },
{
    for i in 0..devices.len()
        invariant
            forall|j: int| 0 <= j < i ==> !loopback_name((#[trigger] devices@[j]).driver@),
    {
        if is_loopback_driver(devices[i].driver.as_str()) {
            return Some(i);
        }
    }
    None
}

/// Find a specific loopback device by path, or detect one automatically.
///
/// **Never** falls back to a non-loopback node: opening a physical camera
/// (uvcvideo) as an output device makes every write fail (black virtual
/// camera) and can disturb the real camera — a silent failure mode that is
/// far worse than a clean "no device found" error.
///
/// `preferred_exists` and `preferred_is_loopback` say what is known of the
/// preferred node; `scan` is the list of devices, or why there is none.
pub fn find_loopback_device(
    preferred: &str,
    preferred_exists: bool,
    preferred_is_loopback: bool,
    scan: &Result<Vec<DeviceInfo>, String>,
) -> (r: Result<String, LoopbackError>)
    ensures
        if preferred@.len() > 0 && preferred_exists && preferred_is_loopback {
            r is Ok && r->Ok_0@ == preferred@
        } else {
            match *scan {
                Err(source) => r == Err::<String, LoopbackError>(
                    LoopbackError::ScanFailed { source },
                ),
                Ok(devices) => if loopback_paths_of(devices@).len() > 0 {
                    r is Ok && r->Ok_0@ == loopback_paths_of(devices@)[0]
                } else {
                    r == Err::<String, LoopbackError>(LoopbackError::NoDeviceFound)
                },
            }
        },
        is_pick(preferred@, preferred_exists, preferred_is_loopback, *scan, r),
{
    // 1. If a preferred device was requested and exists, validate it.
    if preferred.unicode_len() > 0 && preferred_exists && preferred_is_loopback {
        return Ok(preferred.to_owned());
    }
    // 2. Scan all /dev/video* for a real loopback device.
    match scan {
        Err(source) => Err(LoopbackError::ScanFailed { source: source.clone() }),
        Ok(devices) => {
            if let Some(i) = first_loopback(devices) {
                proof {
                    lemma_first_path(devices@, i as int);
                }
                return Ok(devices[i].path.clone());
            }
            proof {
                lemma_no_loopback_no_paths(devices@);
            }
            // 3. No loopback device anywhere — report cleanly so the caller can
            //    guide the user instead of writing frames into the wrong device.
            Err(LoopbackError::NoDeviceFound)
        },
    }
}

/// Only loopback devices are ever chosen to write to: each candidate path
/// belongs to a listed device whose driver is v4l2loopback.
pub proof fn law_never_a_physical_camera(devices: Seq<DeviceInfo>, k: int)
    requires
        0 <= k < loopback_paths_of(devices).len(),
    ensures
        exists|i: int|
            0 <= i < devices.len() && loopback_name((#[trigger] devices[i]).driver@)
                && loopback_paths_of(devices)[k] == devices[i].path@,
    decreases devices.len(),
{
    let rest = devices.drop_last();
    if k < loopback_paths_of(rest).len() {
        law_never_a_physical_camera(rest, k);
        let i = choose|i: int|
            0 <= i < rest.len() && loopback_name((#[trigger] rest[i]).driver@)
                && loopback_paths_of(rest)[k] == rest[i].path@;
        assert(devices[i] == rest[i]);
    } else {
        assert(devices[devices.len() - 1] == devices.last());
    }
}

/// A v4l2 device that can take video output, as its driver describes it.
#[derive(Debug)]
pub struct LoopbackDevice {
    pub path: String,
    pub driver: String,
    pub card: String,
    pub bus: String,
    pub version: String,
    pub capabilities: u32,
}

impl LoopbackDevice {
    /// One line that describes the device.
    pub fn line(&self) -> (r: String)
        ensures
            r@ == self.path@ + " ["@ + self.card@ + "] (driver: "@ + self.driver@ + ", caps: 0x"@
                + crate::text::hex_digits(self.capabilities as nat, 8) + ")"@,
    {
        let mut r = self.path.clone();
        r.append(" [");
        r.append(self.card.as_str());
        r.append("] (driver: ");
        r.append(self.driver.as_str());
        r.append(", caps: 0x");
        r.append(crate::text::hex(self.capabilities, 8).as_str());
        r.append(")");
        r
    }
}

// ---------------------------------------------------------------------------
// Laws of names, drivers and lists
// ---------------------------------------------------------------------------

/// A text that can name a file: not empty, without a slash, and neither `.` nor `..`.
pub open spec fn is_plain_name(name: Seq<char>) -> bool {
    &&& name.len() > 0
    &&& forall|i: int| 0 <= i < name.len() ==> #[trigger] name[i] != '/'
    &&& name != "."@
    &&& name != ".."@
}

/// The file name is what follows the last slash. A slash at the end and a `.` at the
/// end are passed over, and a path that ends in `..` has none.
pub proof fn law_file_names(dir: Seq<char>, name: Seq<char>)
    requires
        is_plain_name(name),
    ensures
        file_name_of(name) == Some(name),
        file_name_of(dir + seq!['/'] + name) == Some(name),
        file_name_of(dir + seq!['/']) == file_name_of(dir),
        file_name_of(dir + seq!['/'] + "."@) == file_name_of(dir),
        file_name_of(dir + seq!['/'] + ".."@) is None,
        file_name_of(Seq::<char>::empty()) is None,
{
    let parts = crate::text::split_on(dir, '/');
    let e = Seq::<char>::empty();
    reveal_strlit(".");
    reveal_strlit("..");
    crate::text::law_split_of_one_piece(name, '/');
    assert(seq![name].drop_last() =~= Seq::<Seq<char>>::empty());
    assert(named_parts(seq![name].drop_last()) =~= Seq::<Seq<char>>::empty());
    assert(seq![name].last() == name);
    assert(named_parts(seq![name]) =~= seq![name]);
    crate::text::law_split_at_a_separator(dir, name, '/');
    assert((parts + seq![name]).drop_last() =~= parts);
    assert(named_parts(parts + seq![name]).last() == name);
    crate::text::law_split_of_one_piece(e, '/');
    crate::text::law_split_at_a_separator(dir, e, '/');
    assert(dir + seq!['/'] =~= dir + seq!['/'] + e);
    assert((parts + seq![e]).drop_last() =~= parts);
    crate::text::law_split_of_one_piece("."@, '/');
    crate::text::law_split_at_a_separator(dir, "."@, '/');
    assert((parts + seq!["."@]).drop_last() =~= parts);
    crate::text::law_split_of_one_piece(".."@, '/');
    crate::text::law_split_at_a_separator(dir, ".."@, '/');
    assert((parts + seq![".."@]).drop_last() =~= parts);
    assert("."@.len() == 1 && ".."@.len() == 2);
    assert(named_parts(parts + seq![".."@]).last() == ".."@);
    assert(seq![e].drop_last() =~= Seq::<Seq<char>>::empty());
    assert(named_parts(seq![e].drop_last()) =~= Seq::<Seq<char>>::empty());
    assert(named_parts(seq![e]) =~= Seq::<Seq<char>>::empty());
}

/// A node is numbered by the digits behind `video`, wherever it is: `video2` comes
/// before `video10`. Whatever is not named like that comes last.
pub proof fn law_node_numbers(dir: Seq<char>, n: u32, name: Seq<char>)
    requires
        is_plain_name(name),
    ensures
        node_number(dir + seq!['/'] + ("video"@ + crate::text::decimal_digits(n as nat))) == n,
        !crate::text::has_prefix(name, "video"@) ==> node_number(dir + seq!['/'] + name)
            == u32::MAX,
        file_name_of(dir) is None ==> node_number(dir) == u32::MAX,
{
    let digits = crate::text::decimal_digits(n as nat);
    let video = "video"@ + digits;
    reveal_strlit("video");
    reveal_strlit(".");
    reveal_strlit("..");
    crate::text::lemma_decimal_is_digits(n as nat);
    assert(video[0] == 'v');
    assert(is_plain_name(video)) by {
        assert("."@[0] == '.' && ".."@[0] == '.');
        assert forall|i: int| 0 <= i < video.len() implies #[trigger] video[i] != '/' by {
            if i >= 5 {
                assert(crate::text::is_digit(digits[i - 5]));
            }
        }
    }
    law_file_names(dir, video);
    law_file_names(dir, name);
    crate::text::law_prefix("video"@, digits, video);
    crate::text::law_decimal_round_trip(n as nat, u32::MAX as nat);
    crate::text::law_prefix("video"@, digits, name);
}

/// Only the two names that the v4l2loopback driver reports are taken for it; a
/// physical camera's driver is not.
pub proof fn law_loopback_names(driver: Seq<char>)
    ensures
        loopback_name("v4l2loopback"@),
        loopback_name("v4l2 loopback"@),
        loopback_name(driver) ==> driver == "v4l2loopback"@ || driver == "v4l2 loopback"@,
        !loopback_name("uvcvideo"@),
        !loopback_name(Seq::<char>::empty()),
{
    reveal_strlit("v4l2loopback");
    reveal_strlit("v4l2 loopback");
    reveal_strlit("uvcvideo");
    assert("uvcvideo"@.len() == 8 && "v4l2loopback"@.len() == 12 && "v4l2 loopback"@.len() == 13);
}

/// The link in sysfs names the driver wherever it leads to a name; the driver's own
/// answer counts only where it does not, and without either the name is empty.
pub proof fn law_driver_sources(dir: Seq<char>, name: Seq<char>, queried: Option<Seq<char>>)
    requires
        is_plain_name(name),
    ensures
        driver_name(Some(dir + seq!['/'] + name), queried) == name,
        queried matches Some(q) ==> driver_name(None, queried) == q,
        queried is None ==> driver_name(None, queried) == Seq::<char>::empty(),
        file_name_of(dir) is None ==> driver_name(Some(dir), queried) == driver_name(None, queried),
{
    law_file_names(dir, name);
}

/// An entry stands for a device exactly when it is named like a video node and the
/// node exists. The device has the node's path, the card label without the white space
/// around it, and its driver.
pub proof fn law_entry_device(entry: SysfsEntry, rest: Seq<char>)
    ensures
        entry.is_node() ==> entry.node_exists,
        entry.node_exists && entry.name@ == "video"@ + rest ==> entry.is_node(),
        entry.node_exists && entry.is_node() ==> exists|r: Seq<char>|
            entry.name@ == #[trigger] ("video"@ + r),
        entry.device().path == "/dev/"@ + entry.name@,
        entry.card is None ==> entry.device().card == Seq::<char>::empty(),
        entry.card matches Some(raw) ==> entry.device().card == crate::text::trimmed(raw@),
        entry.device().driver == driver_name(opt_text(entry.link), opt_text(entry.queried)),
{
    crate::text::law_prefix("video"@, rest, entry.name@);
    if entry.is_node() {
        let r = crate::text::after_prefix(entry.name@, "video"@)->Some_0;
        assert(entry.name@ == "video"@ + r);
    }
}

/// What is found is found entry by entry: the devices of two lists of entries are
/// those of the first and then those of the second, and one entry gives its device if
/// it is a node and nothing otherwise.
pub proof fn law_found_entry_by_entry(a: Seq<SysfsEntry>, b: Seq<SysfsEntry>, entry: SysfsEntry)
    ensures
        found(a + b) == found(a) + found(b),
        found(seq![entry]) == if entry.is_node() {
            seq![entry.device()]
        } else {
            Seq::<DeviceText>::empty()
        },
    decreases b.len(),
{
    assert(seq![entry].drop_last() =~= Seq::<SysfsEntry>::empty());
    assert(found(seq![entry].drop_last()) =~= Seq::<DeviceText>::empty());
    assert(Seq::<DeviceText>::empty().push(entry.device()) =~= seq![entry.device()]);
    if b.len() == 0 {
        assert(a + b =~= a);
        assert(found(a) + found(b) =~= found(a));
    } else {
        assert((a + b).drop_last() =~= a + b.drop_last());
        assert((a + b).last() == b.last());
        law_found_entry_by_entry(a, b.drop_last(), entry);
        assert(found(a + b) =~= found(a) + found(b));
    }
}

/// The devices of a list that have this number, in the order of the list.
pub open spec fn with_number(devices: Seq<DeviceText>, n: u32) -> Seq<DeviceText>
    decreases devices.len(),
{
    if devices.len() == 0 {
        Seq::empty()
    } else {
        let rest = with_number(devices.drop_last(), n);
        if node_number(devices.last().path) == n {
            rest.push(devices.last())
        } else {
            rest
        }
    }
}

/// The devices with a number are found list by list.
proof fn lemma_with_number_of_two(a: Seq<DeviceText>, b: Seq<DeviceText>, n: u32)
    ensures
        with_number(a + b, n) == with_number(a, n) + with_number(b, n),
    decreases b.len(),
{
    if b.len() == 0 {
        assert(a + b =~= a);
        assert(with_number(a, n) + with_number(b, n) =~= with_number(a, n));
    } else {
        assert((a + b).drop_last() =~= a + b.drop_last());
        assert((a + b).last() == b.last());
        lemma_with_number_of_two(a, b.drop_last(), n);
        assert(with_number(a + b, n) =~= with_number(a, n) + with_number(b, n));
    }
}

/// Among devices with other numbers, none has this one.
proof fn lemma_without_number(devices: Seq<DeviceText>, n: u32)
    requires
        forall|i: int| 0 <= i < devices.len() ==> node_number((#[trigger] devices[i]).path) != n,
    ensures
        with_number(devices, n) == Seq::<DeviceText>::empty(),
    decreases devices.len(),
{
    if devices.len() > 0 {
        let rest = devices.drop_last();
        assert forall|i: int| 0 <= i < rest.len() implies node_number((#[trigger] rest[i]).path)
            != n by {
            assert(rest[i] == devices[i]);
        }
        lemma_without_number(rest, n);
        assert(devices.last() == devices[devices.len() - 1]);
    }
}

/// Devices with equal numbers keep their order.
pub proof fn law_order_is_stable(devices: Seq<DeviceText>, n: u32)
    ensures
        with_number(in_order(devices), n) == with_number(devices, n),
    decreases devices.len(),
{
    if devices.len() > 0 {
        let rest = in_order(devices.drop_last());
        let d = devices.last();
        law_order_is_stable(devices.drop_last(), n);
        law_discovery_is_sorted(devices.drop_last());
        lemma_place(rest, d);
        let at = place(rest, d);
        let low = rest.take(at);
        let high = rest.skip(at);
        assert(rest =~= low + high);
        assert(rest.insert(at, d) =~= low.push(d) + high);
        lemma_with_number_of_two(low, high, n);
        lemma_with_number_of_two(low.push(d), high, n);
        assert(low.push(d).drop_last() =~= low);
        if node_number(d.path) == n {
            assert forall|i: int| 0 <= i < high.len() implies node_number(
                (#[trigger] high[i]).path,
            ) != n by {
                assert(high[i] == rest[at + i]);
            }
            lemma_without_number(high, n);
            assert(with_number(in_order(devices), n) =~= with_number(rest, n).push(d));
        }
    }
}

/// The paths of two lists of devices are those of the first and then those of the
/// second, and one device gives its path if it is a loopback device and nothing
/// otherwise.
pub proof fn law_loopback_paths_one_by_one(a: Seq<DeviceInfo>, b: Seq<DeviceInfo>, d: DeviceInfo)
    ensures
        loopback_paths_of(a + b) == loopback_paths_of(a) + loopback_paths_of(b),
        loopback_paths_of(seq![d]) == if loopback_name(d.driver@) {
            seq![d.path@]
        } else {
            Seq::<Seq<char>>::empty()
        },
    decreases b.len(),
{
    assert(seq![d].drop_last() =~= Seq::<DeviceInfo>::empty());
    assert(loopback_paths_of(seq![d].drop_last()) =~= Seq::<Seq<char>>::empty());
    assert(Seq::<Seq<char>>::empty().push(d.path@) =~= seq![d.path@]);
    if b.len() == 0 {
        assert(a + b =~= a);
        assert(loopback_paths_of(a) + loopback_paths_of(b) =~= loopback_paths_of(a));
    } else {
        assert((a + b).drop_last() =~= a + b.drop_last());
        assert((a + b).last() == b.last());
        law_loopback_paths_one_by_one(a, b.drop_last(), d);
        assert(loopback_paths_of(a + b) =~= loopback_paths_of(a) + loopback_paths_of(b));
    }
}

/// This is the device that is written to.
pub open spec fn is_pick(
    preferred: Seq<char>,
    preferred_exists: bool,
    preferred_is_loopback: bool,
    scan: Result<Vec<DeviceInfo>, String>,
    r: Result<String, LoopbackError>,
) -> bool {
    if preferred.len() > 0 && preferred_exists && preferred_is_loopback {
        r is Ok && r->Ok_0@ == preferred
    } else {
        match scan {
            Err(source) => r == Err::<String, LoopbackError>(LoopbackError::ScanFailed { source }),
            Ok(devices) => {
                let paths = loopback_paths_of(devices@);
                if paths.len() == 0 {
                    r == Err::<String, LoopbackError>(LoopbackError::NoDeviceFound)
                } else {
                    r is Ok && r->Ok_0@ == paths.first()
                }
            },
        }
    }
}

/// The preferred device is taken wherever it can be; otherwise the device is one that the
/// scan lists as a loopback device, and the first of them. Without one there is no device,
/// and a scan that failed is told apart from one that found nothing.
pub proof fn law_device_pick(
    preferred: Seq<char>,
    preferred_exists: bool,
    preferred_is_loopback: bool,
    scan: Result<Vec<DeviceInfo>, String>,
    r: Result<String, LoopbackError>,
)
    requires
        is_pick(preferred, preferred_exists, preferred_is_loopback, scan, r),
    ensures
        ({
            let usable = preferred.len() > 0 && preferred_exists && preferred_is_loopback;
            &&& usable ==> (r matches Ok(path) && path@ == preferred)
            &&& !usable && r is Ok ==> (scan matches Ok(devices) && exists|i: int|
                0 <= i < devices@.len() && loopback_name((#[trigger] devices@[i]).driver@)
                    && r->Ok_0@ == devices@[i].path@ && forall|j: int|
                    0 <= j < i ==> !loopback_name((#[trigger] devices@[j]).driver@))
            &&& !usable && scan is Err ==> (r matches Err(e) && e is ScanFailed)
            &&& !usable && r is Err && scan is Ok ==> (scan matches Ok(devices) && forall|i: int|
                0 <= i < devices@.len() ==> !loopback_name((#[trigger] devices@[i]).driver@))
        }),
{
    if let Ok(devices) = scan {
        lemma_first_or_none(devices@);
    }
}

/// Either there is a first loopback device, whose path comes first, or there is none.
proof fn lemma_first_or_none(devices: Seq<DeviceInfo>)
    ensures
        loopback_paths_of(devices).len() == 0 ==> forall|i: int|
            0 <= i < devices.len() ==> !loopback_name((#[trigger] devices[i]).driver@),
        loopback_paths_of(devices).len() > 0 ==> exists|i: int|
            0 <= i < devices.len() && loopback_name((#[trigger] devices[i]).driver@)
                && loopback_paths_of(devices)[0] == devices[i].path@ && forall|j: int|
                0 <= j < i ==> !loopback_name((#[trigger] devices[j]).driver@),
    decreases devices.len(),
{
    if devices.len() > 0 {
        let rest = devices.drop_last();
        lemma_first_or_none(rest);
        assert(forall|i: int| 0 <= i < rest.len() ==> #[trigger] devices[i] == rest[i]);
        if loopback_paths_of(rest).len() > 0 {
            let i = choose|i: int|
                0 <= i < rest.len() && loopback_name((#[trigger] rest[i]).driver@)
                    && loopback_paths_of(rest)[0] == rest[i].path@ && forall|j: int|
                    0 <= j < i ==> !loopback_name((#[trigger] rest[j]).driver@);
            assert(devices[i] == rest[i]);
            assert forall|j: int| 0 <= j < i implies !loopback_name(
                (#[trigger] devices[j]).driver@,
            ) by {
                assert(devices[j] == rest[j]);
            }
        } else {
            let n = rest.len() as int;
            assert forall|j: int| 0 <= j < n implies !loopback_name(
                (#[trigger] devices[j]).driver@,
            ) by {
                assert(devices[j] == rest[j]);
            }
            assert(devices[n] == devices.last());
        }
    }
}

/// A scan that failed is reported with its cause.
pub proof fn law_loopback_errors(e: LoopbackError)
    ensures
        e matches LoopbackError::ScanFailed { source } ==> e.text()
            == "error scanning /dev/video*: "@ + source@,
        e is NoDeviceFound ==> e.text()
            == "no v4l2loopback virtual camera device found on this system"@,
{
}

} // verus!
