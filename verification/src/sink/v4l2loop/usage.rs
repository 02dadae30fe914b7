//! Detect which processes are holding a loopback device node open.
//!
//! A v4l2loopback module reload (`modprobe -r`) fails with EBUSY while any
//! process keeps the `/dev/videoN` node open. To turn the generic
//! "Module is in use" error into an actionable message ("OBS (pid 1234) is
//! using the camera — close it"), the targets of every `/proc/<pid>/fd` link are
//! matched against the loopback device paths.

use vstd::prelude::*;

use crate::sink::v4l2loop::discovery::is_loopback_driver;
use crate::sink::v4l2loop::discovery::loopback_name;
use crate::sink::v4l2loop::discovery::DeviceInfo;
use crate::text::chars_of;
use crate::text::parse_i32;
use crate::text::same_text;
use crate::text::string_of;
use crate::text::trim;

verus! {

/// One process currently holding a device node open.
#[derive(Debug)]
pub struct DeviceUser {
    pub pid: i32,
    pub comm: String,
}

impl View for DeviceUser {
    type V = (i32, Seq<char>);

    open spec fn view(&self) -> (i32, Seq<char>) {
        (self.pid, self.comm@)
    }
}

impl Clone for DeviceUser {
    fn clone(&self) -> (r: Self)
        ensures
            r == *self,
    {
        DeviceUser { pid: self.pid, comm: self.comm.clone() }
    }
}

/// The pids and names of a list of users.
pub open spec fn user_views(users: Seq<DeviceUser>) -> Seq<(i32, Seq<char>)> {
    users.map_values(|u: DeviceUser| u@)
}

/// What was found under one entry of `/proc`.
pub struct ProcEntry {
    /// The entry's name; a process if it is a number.
    pub name: String,
    /// The targets of the entry's open files that can be resolved, if they may be
    /// read.
    pub targets: Option<Vec<String>>,
    /// The content of the entry's `comm` file.
    pub comm: Option<String>,
}

impl ProcEntry {
    /// The entry's process has the device open.
    pub open spec fn holds(self, device: Seq<char>) -> bool {
        self.targets matches Some(targets) && exists|i: int|
            0 <= i < targets@.len() && (#[trigger] targets@[i])@ == device
    }

    /// The name of the entry's process.
    pub open spec fn process_name(self) -> Seq<char> {
        match self.comm {
            Some(raw) => crate::text::trimmed(raw@),
            None => "<unknown>"@,
        }
    }

    /// Tests whether the entry's process has the device open.
    fn has_open(&self, device: &str) -> (r: bool)
        ensures
            r == self.holds(device@),
    {
        match &self.targets {
            Some(targets) => any_is(targets, device),
            None => false,
        }
    }
}

/// Whether a list of texts holds a text.
fn any_is(texts: &Vec<String>, wanted: &str) -> (r: bool)
    ensures
        r == exists|i: int| 0 <= i < texts@.len() && (#[trigger] texts@[i])@ == wanted@,
{
    for i in 0..texts.len()
        invariant
            forall|j: int| 0 <= j < i ==> (#[trigger] texts@[j])@ != wanted@,
    {
        if same_text(texts[i].as_str(), wanted) {
            return true;
        }
    }
    false
}

/// Whether a pid occurs in a list of users.
pub open spec fn has_pid(users: Seq<(i32, Seq<char>)>, pid: i32) -> bool {
    exists|i: int| 0 <= i < users.len() && (#[trigger] users[i]).0 == pid
}

/// Tests whether a pid occurs in a list of users.
fn lists_pid(users: &Vec<DeviceUser>, pid: i32) -> (r: bool)
    ensures
        r == has_pid(user_views(users@), pid),
{
    let ghost all = user_views(users@);
    for i in 0..users.len()
        invariant
            all == user_views(users@),
            forall|j: int| 0 <= j < i ==> (#[trigger] all[j]).0 != pid,
    {
        assert(all[i as int] == users@[i as int]@);
        if users[i].pid == pid {
            return true;
        }
    }
    false
}

/// The processes among the entries that have the device open, each once, in the
/// order of the entries.
pub open spec fn users_among(entries: Seq<ProcEntry>, device: Seq<char>) -> Seq<(i32, Seq<char>)>
    decreases entries.len(),
{
    if entries.len() == 0 {
        Seq::empty()
    } else {
        let rest = users_among(entries.drop_last(), device);
        let last = entries.last();
        match crate::text::signed_value(last.name@) {
            Some(pid) => if last.holds(device) && !has_pid(rest, pid as i32) {
                rest.push((pid as i32, last.process_name()))
            } else {
                rest
            },
            None => rest,
        }
    }
}

/// Find the processes that currently have `device` open, from the entries of
/// `/proc`. Returns an empty `Vec` when nothing matches.
pub fn device_users(device: &str, entries: &Vec<ProcEntry>) -> (r: Vec<DeviceUser>)
    ensures
        user_views(r@) == users_among(entries@, device@),
{
    let mut users: Vec<DeviceUser> = Vec::new();
    assert(user_views(users@) =~= users_among(entries@.take(0), device@));
    for i in 0..entries.len()
        invariant
            user_views(users@) == users_among(entries@.take(i as int), device@),
    {
        assert(entries@.take(i + 1).drop_last() =~= entries@.take(i as int));
        let entry = &entries[i];
        let name = chars_of(entry.name.as_str());
        if let Some(pid) = parse_i32(name.as_slice()) {
            if entry.has_open(device) && !lists_pid(&users, pid) {
                let comm = match &entry.comm {
                    Some(raw) => {
                        let chars = chars_of(raw.as_str());
                        string_of(trim(chars.as_slice()).as_slice())
                    },
                    None => "<unknown>".to_owned(),
                };
                let ghost before = users@;
                users.push(DeviceUser { pid, comm });
                assert(user_views(users@) =~= user_views(before).push(
                    (pid, entry.process_name()),
                ));
            }
        }
    }
    assert(entries@.take(entries@.len() as int) =~= entries@);
    users
}

/// The loopback devices of a list, each with the users that the lookup gives.
pub open spec fn loopback_users(
    devices: Seq<DeviceInfo>,
    entries: Seq<ProcEntry>,
) -> Seq<(DeviceInfo, Seq<(i32, Seq<char>)>)>
    decreases devices.len(),
{
    if devices.len() == 0 {
        Seq::empty()
    } else {
        let rest = loopback_users(devices.drop_last(), entries);
        let d = devices.last();
        if loopback_name(d.driver@) {
            rest.push((d, users_among(entries, d.path@)))
        } else {
            rest
        }
    }
}

/// Devices with the pids and names of their users.
pub open spec fn usage_views(list: Seq<(DeviceInfo, Vec<DeviceUser>)>) -> Seq<
    (DeviceInfo, Seq<(i32, Seq<char>)>),
> {
    list.map_values(|p: (DeviceInfo, Vec<DeviceUser>)| (p.0, user_views(p.1@)))
}

/// Return the current loopback devices together with the processes using each.
///
/// Used by the in-app device *manager* to show which virtual cameras are in use
/// and by the reload path to name the blockers that keep `modprobe -r` busy. A
/// scan that failed lists none.
pub fn all_loopback_users(scan: &Result<Vec<DeviceInfo>, String>, entries: &Vec<ProcEntry>) -> (r:
    Vec<(DeviceInfo, Vec<DeviceUser>)>)
    ensures
        usage_views(r@) == (match *scan {
            Ok(devices) => loopback_users(devices@, entries@),
            Err(_) => Seq::empty(),
        }),
{
    let mut list: Vec<(DeviceInfo, Vec<DeviceUser>)> = Vec::new();
    match scan {
        Ok(devices) => {
            assert(usage_views(list@) =~= loopback_users(devices@.take(0), entries@));
            for i in 0..devices.len()
                invariant
                    usage_views(list@) == loopback_users(devices@.take(i as int), entries@),
            {
                assert(devices@.take(i + 1).drop_last() =~= devices@.take(i as int));
                let d = &devices[i];
                if is_loopback_driver(d.driver.as_str()) {
                    let users = device_users(d.path.as_str(), entries);
                    let ghost before = list@;
                    let ghost seen = user_views(users@);
                    list.push((d.clone(), users));
                    assert(usage_views(list@) =~= usage_views(before).push((*d, seen)));
                }
            }
            assert(devices@.take(devices@.len() as int) =~= devices@);
        },
        Err(_) => {
            assert(usage_views(list@) =~= Seq::empty());
        },
    }
    list
}

/// A list of users, each pid once, the first mention kept.
pub open spec fn first_mentions(users: Seq<(i32, Seq<char>)>) -> Seq<(i32, Seq<char>)>
    decreases users.len(),
{
    if users.len() == 0 {
        Seq::empty()
    } else {
        let rest = first_mentions(users.drop_last());
        if has_pid(rest, users.last().0) {
            rest
        } else {
            rest.push(users.last())
        }
    }
}

/// All users of all devices, in order, with repetitions.
pub open spec fn all_mentions(list: Seq<(DeviceInfo, Seq<(i32, Seq<char>)>)>) -> Seq<
    (i32, Seq<char>),
>
    decreases list.len(),
{
    if list.len() == 0 {
        Seq::empty()
    } else {
        all_mentions(list.drop_last()) + list.last().1
    }
}

/// Adds the users that are not yet listed.
fn add_users(out: &mut Vec<DeviceUser>, users: &Vec<DeviceUser>, Ghost(mentions): Ghost<
    Seq<(i32, Seq<char>)>,
>)
    requires
        user_views(old(out)@) == first_mentions(mentions),
    ensures
        user_views(final(out)@) == first_mentions(mentions + user_views(users@)),
{
    assert(mentions + user_views(users@).take(0) =~= mentions);
    for i in 0..users.len()
        invariant
            user_views(out@) == first_mentions(mentions + user_views(users@).take(i as int)),
    {
        let ghost so_far = mentions + user_views(users@).take(i as int);
        let ghost next = mentions + user_views(users@).take(i + 1);
        assert(next.drop_last() =~= so_far);
        assert(next.last() == users@[i as int]@);
        if !lists_pid(out, users[i].pid) {
            let ghost before = out@;
            out.push(users[i].clone());
            assert(user_views(out@) =~= user_views(before).push(users@[i as int]@));
        }
    }
    assert(user_views(users@).take(users@.len() as int) =~= user_views(users@));
}

/// Flattened list of every process using any loopback device, each once.
pub fn all_loopback_user_pids(list: &Vec<(DeviceInfo, Vec<DeviceUser>)>) -> (r: Vec<DeviceUser>)
    ensures
        user_views(r@) == first_mentions(all_mentions(usage_views(list@))),
{
    let mut out: Vec<DeviceUser> = Vec::new();
    let ghost all = usage_views(list@);
    assert(user_views(out@) =~= first_mentions(all_mentions(all.take(0))));
    for i in 0..list.len()
        invariant
            all == usage_views(list@),
            user_views(out@) == first_mentions(all_mentions(all.take(i as int))),
    {
        assert(all.take(i + 1).drop_last() =~= all.take(i as int));
        assert(all.take(i + 1).last() == all[i as int]);
        add_users(&mut out, &list[i].1, Ghost(all_mentions(all.take(i as int))));
    }
    assert(all.take(all.len() as int) =~= all);
    out
}

/// No process is listed twice, and every one that was mentioned is listed.
pub proof fn law_users_are_listed_once(users: Seq<(i32, Seq<char>)>)
    ensures
        forall|i: int, j: int|
            0 <= i < j < first_mentions(users).len() ==> (#[trigger] first_mentions(users)[i]).0
                != (#[trigger] first_mentions(users)[j]).0,
        forall|k: int|
            0 <= k < users.len() ==> has_pid(first_mentions(users), (#[trigger] users[k]).0),
    decreases users.len(),
{
    if users.len() > 0 {
        let rest = users.drop_last();
        law_users_are_listed_once(rest);
        let was = first_mentions(rest);
        let now = first_mentions(users);
        assert forall|i: int, j: int| 0 <= i < j < now.len() implies (#[trigger] now[i]).0 != (
        #[trigger] now[j]).0 by {
            assert(now[i] == was[i]);
            if j < was.len() {
                assert(now[j] == was[j]);
            } else if now[i].0 == now[j].0 {
                assert(has_pid(was, users.last().0));
            }
        }
        assert forall|k: int| 0 <= k < users.len() implies has_pid(
            now,
            (#[trigger] users[k]).0,
        ) by {
            if k < rest.len() {
                assert(rest[k] == users[k]);
                let i = choose|i: int| 0 <= i < was.len() && (#[trigger] was[i]).0 == users[k].0;
                assert(now[i] == was[i]);
            } else if !has_pid(was, users.last().0) {
                assert(now[was.len() as int].0 == users[k].0);
            }
        }
    }
}

/// A process is listed for a device exactly when it holds the device: every listed one
/// is an entry with that number, that name and the device among its open files, every
/// entry that is a process and holds the device is listed, and none twice.
pub proof fn law_holders_are_listed(entries: Seq<ProcEntry>, device: Seq<char>)
    ensures
        forall|k: int|
            0 <= k < users_among(entries, device).len() ==> is_listed_from(
                entries,
                device,
                #[trigger] users_among(entries, device)[k],
            ),
        forall|i: int|
            0 <= i < entries.len() && (#[trigger] entries[i]).holds(device) ==> (
            crate::text::signed_value(entries[i].name@) matches Some(pid) ==> has_pid(
                users_among(entries, device),
                pid as i32,
            )),
        forall|k: int, l: int|
            0 <= k < l < users_among(entries, device).len() ==> (#[trigger] users_among(
                entries,
                device,
            )[k]).0 != (#[trigger] users_among(entries, device)[l]).0,
    decreases entries.len(),
{
    if entries.len() > 0 {
        let front = entries.drop_last();
        let last = entries.last();
        let was = users_among(front, device);
        let now = users_among(entries, device);
        law_holders_are_listed(front, device);
        assert(forall|k: int| 0 <= k < was.len() ==> now[k] == was[k]);
        assert forall|k: int| 0 <= k < now.len() implies is_listed_from(
            entries,
            device,
            #[trigger] now[k],
        ) by {
            if k < was.len() {
                assert(is_listed_from(front, device, was[k]));
                let i = choose|i: int|
                    0 <= i < front.len() && is_listing(#[trigger] front[i], device, was[k]);
                assert(entries[i] == front[i]);
                assert(is_listing(entries[i], device, now[k]));
            } else {
                assert(is_listing(entries[entries.len() - 1], device, now[k]));
            }
        }
        assert forall|i: int| 0 <= i < entries.len() && (#[trigger] entries[i]).holds(
            device,
        ) implies (crate::text::signed_value(entries[i].name@) matches Some(pid) ==> has_pid(
            now,
            pid as i32,
        )) by {
            if let Some(pid) = crate::text::signed_value(entries[i].name@) {
                if i < front.len() {
                    assert(front[i] == entries[i]);
                    assert(has_pid(was, pid as i32));
                    let k = choose|k: int| 0 <= k < was.len() && (#[trigger] was[k]).0 == pid as i32;
                    assert(now[k].0 == pid as i32);
                } else if has_pid(was, pid as i32) {
                    let k = choose|k: int| 0 <= k < was.len() && (#[trigger] was[k]).0 == pid as i32;
                    assert(now[k].0 == pid as i32);
                } else {
                    assert(now[was.len() as int].0 == pid as i32);
                }
            }
        }
        assert forall|k: int, l: int| 0 <= k < l < now.len() implies (#[trigger] now[k]).0 != (
        #[trigger] now[l]).0 by {
            assert(now[k] == was[k]);
            if l < was.len() {
                assert(now[l] == was[l]);
            } else if now[k].0 == now[l].0 {
                assert(has_pid(was, now[l].0));
            }
        }
    }
}

/// The entry is a process that has the device open, and this is its number and name.
pub open spec fn is_listing(entry: ProcEntry, device: Seq<char>, user: (i32, Seq<char>)) -> bool {
    &&& crate::text::signed_value(entry.name@) matches Some(pid)
    &&& user.0 == pid as i32
    &&& entry.holds(device)
    &&& user.1 == entry.process_name()
}

/// This number and name come from one of the entries.
pub open spec fn is_listed_from(
    entries: Seq<ProcEntry>,
    device: Seq<char>,
    user: (i32, Seq<char>),
) -> bool {
    exists|i: int| 0 <= i < entries.len() && is_listing(#[trigger] entries[i], device, user)
}

/// A process holds a device exactly when the device is one of its open files, and a
/// process whose files cannot be read holds none. It goes by the name in its `comm`
/// file, without the white space around it.
pub proof fn law_holding_and_names(entry: ProcEntry, device: Seq<char>, i: int)
    ensures
        entry.targets is None ==> !entry.holds(device),
        entry.targets matches Some(t) ==> (0 <= i < t@.len() && t@[i]@ == device ==> entry.holds(
            device,
        )),
        entry.holds(device) ==> (entry.targets matches Some(t) && exists|k: int|
            0 <= k < t@.len() && (#[trigger] t@[k])@ == device),
        entry.comm is None ==> entry.process_name() == "<unknown>"@,
        entry.comm matches Some(raw) ==> entry.process_name() == crate::text::trimmed(raw@),
{
}

/// The users of two lists of devices are those of the first and then those of the
/// second; a loopback device is listed with exactly its own users, and another device
/// not at all.
pub proof fn law_loopback_users_one_by_one(
    a: Seq<DeviceInfo>,
    b: Seq<DeviceInfo>,
    d: DeviceInfo,
    entries: Seq<ProcEntry>,
)
    ensures
        loopback_users(a + b, entries) == loopback_users(a, entries) + loopback_users(b, entries),
        loopback_users(seq![d], entries) == if loopback_name(d.driver@) {
            seq![(d, users_among(entries, d.path@))]
        } else {
            Seq::empty()
        },
    decreases b.len(),
{
    assert(seq![d].drop_last() =~= Seq::<DeviceInfo>::empty());
    let none = loopback_users(seq![d].drop_last(), entries);
    assert(none.len() == 0);
    assert(none.push((d, users_among(entries, d.path@))) =~= seq![
        (d, users_among(entries, d.path@)),
    ]);
    if b.len() == 0 {
        assert(a + b =~= a);
        assert(loopback_users(a, entries) + loopback_users(b, entries) =~= loopback_users(
            a,
            entries,
        ));
    } else {
        assert((a + b).drop_last() =~= a + b.drop_last());
        assert((a + b).last() == b.last());
        law_loopback_users_one_by_one(a, b.drop_last(), d, entries);
        assert(loopback_users(a + b, entries) =~= loopback_users(a, entries) + loopback_users(
            b,
            entries,
        ));
    }
}

/// Of several mentions of a process the first is kept: what is listed is a mention that
/// no earlier one has the number of, and a list without repetitions stays as it is.
pub proof fn law_first_mention_is_kept(users: Seq<(i32, Seq<char>)>, k: int)
    ensures
        0 <= k < first_mentions(users).len() ==> exists|i: int|
            0 <= i < users.len() && #[trigger] is_first_mention(users, i) && users[i]
                == first_mentions(users)[k],
        first_mentions(users).len() <= users.len(),
        (forall|i: int, j: int|
            0 <= i < j < users.len() ==> (#[trigger] users[i]).0 != (#[trigger] users[j]).0)
            ==> first_mentions(users) == users,
    decreases users.len(),
{
    if users.len() > 0 {
        let front = users.drop_last();
        let was = first_mentions(front);
        law_first_mention_is_kept(front, k);
        law_users_are_listed_once(front);
        if 0 <= k < was.len() {
            let i = choose|i: int|
                0 <= i < front.len() && #[trigger] is_first_mention(front, i) && front[i] == was[k];
            assert(users[i] == front[i]);
            assert forall|j: int| 0 <= j < i implies (#[trigger] users[j]).0 != users[i].0 by {
                assert(front[j] == users[j]);
            }
            assert(is_first_mention(users, i));
        } else if k == was.len() && k < first_mentions(users).len() {
            let i = users.len() - 1;
            assert forall|j: int| 0 <= j < i implies (#[trigger] users[j]).0 != users[i].0 by {
                assert(front[j] == users[j]);
                assert(has_pid(was, front[j].0));
            }
            assert(is_first_mention(users, i));
        }
        if forall|i: int, j: int|
            0 <= i < j < users.len() ==> (#[trigger] users[i]).0 != (#[trigger] users[j]).0 {
            assert forall|i: int, j: int| 0 <= i < j < front.len() implies (#[trigger] front[i]).0
                != (#[trigger] front[j]).0 by {
                assert(front[i] == users[i] && front[j] == users[j]);
            }
            assert(was == front);
            if has_pid(was, users.last().0) {
                let i = choose|i: int| 0 <= i < was.len() && (#[trigger] was[i]).0
                    == users.last().0;
                assert(users[i] == was[i]);
                assert(users[users.len() - 1].0 == users[i].0);
            }
            assert(first_mentions(users) =~= users);
        }
    } else {
        assert(first_mentions(users) =~= users);
    }
}

/// No earlier mention has the number of mention `i`.
pub open spec fn is_first_mention(users: Seq<(i32, Seq<char>)>, i: int) -> bool {
    forall|j: int| 0 <= j < i ==> (#[trigger] users[j]).0 != users[i].0
}

/// The mentions of several devices are those of each, one device behind the other.
pub proof fn law_mentions_are_joined(
    a: Seq<(DeviceInfo, Seq<(i32, Seq<char>)>)>,
    d: DeviceInfo,
    users: Seq<(i32, Seq<char>)>,
)
    ensures
        all_mentions(a.push((d, users))) == all_mentions(a) + users,
        all_mentions(Seq::<(DeviceInfo, Seq<(i32, Seq<char>)>)>::empty()) == Seq::<
            (i32, Seq<char>),
        >::empty(),
{
    assert(a.push((d, users)).drop_last() =~= a);
}

} // verus!
