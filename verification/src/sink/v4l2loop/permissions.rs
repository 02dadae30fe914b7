//! Permission validation for v4l2loopback device nodes.

use vstd::prelude::*;

use crate::text::chars_of;
use crate::text::contains;
use crate::text::parse_u32;
use crate::text::same_text;
use crate::text::split;
use crate::text::string_of;
use crate::text::trim;

verus! {

/// Error type for device access validation.
#[derive(Debug)]
pub enum AccessError {
    NotFound { path: String },
    PermissionDenied { path: String, suggestion: String },
    Other { source: String, path: String },
}

impl AccessError {
    /// The message for the user.
    pub open spec fn text(self) -> Seq<char> {
        match self {
            AccessError::NotFound { path } => "device "@ + path@ + " does not exist"@,
            AccessError::PermissionDenied { path, suggestion } => "permission denied on "@ + path@
                + ". "@ + suggestion@,
            AccessError::Other { source, path } => "cannot access device "@ + path@ + ": "@
                + source@,
        }
    }

    /// The message for the user.
    pub fn message(&self) -> (r: String)
        ensures
            r@ == self.text(),
    {
        match self {
            AccessError::NotFound { path } => {
                let mut r = "device ".to_owned();
                r.append(path.as_str());
                r.append(" does not exist");
                r
            },
            AccessError::PermissionDenied { path, suggestion } => {
                let mut r = "permission denied on ".to_owned();
                r.append(path.as_str());
                r.append(". ");
                r.append(suggestion.as_str());
                r
            },
            AccessError::Other { source, path } => {
                let mut r = "cannot access device ".to_owned();
                r.append(path.as_str());
                r.append(": ");
                r.append(source.as_str());
                r
            },
        }
    }
}

/// How opening a device for reading and writing came out.
pub enum OpenOutcome {
    Opened,
    PermissionDenied,
    /// It failed for this reason.
    Failed(String),
}

/// The advice for a user who may not open a device. `groups` is what the
/// `groups` command printed, if it ran.
pub open spec fn access_advice(path: Seq<char>, groups: Option<Seq<char>>) -> Seq<char> {
    if groups matches Some(g) && crate::text::occurs(g, "video"@) {
        "User is in 'video' group but device is not writable. Try: sudo chmod 0660 {} OR relogin"@
    } else {
        "Run: sudo usermod -aG video $USER\nThen LOG OUT and log back in for the group change to take effect.\n(Temporary: sudo chmod 0660 "@
            + path + ")"@
    }
}

/// Check if we can read/write the given video device.
/// Returns Ok(()) or an Err with an actionable suggestion.
pub fn check_device_access(
    path: &str,
    present: bool,
    outcome: OpenOutcome,
    groups: Option<&str>,
) -> (r: Result<(), AccessError>)
    ensures
        if !present {
            r matches Err(AccessError::NotFound { path: p }) && p@ == path@
        } else {
            match outcome {
                OpenOutcome::Opened => r is Ok,
                OpenOutcome::PermissionDenied => {
                    &&& r matches Err(AccessError::PermissionDenied { path: p, suggestion })
                    &&& p@ == path@
                    &&& suggestion@ == access_advice(
                        path@,
                        match groups {
                            Some(g) => Some(g@),
                            None => None,
                        },
                    )
                },
                OpenOutcome::Failed(why) => {
                    &&& r matches Err(AccessError::Other { source, path: p })
                    &&& p@ == path@
                    &&& source == why
                },
            }
        },
{
    if !present {
        return Err(AccessError::NotFound { path: path.to_owned() });
    }
    match outcome {
        OpenOutcome::Opened => Ok(()),
        OpenOutcome::PermissionDenied => {
            // Check if user is in 'video' group
            let in_video_group = match groups {
                Some(g) => {
                    let chars = chars_of(g);
                    contains(chars.as_slice(), "video")
                },
                None => false,
            };
            let suggestion = if in_video_group {
                "User is in 'video' group but device is not writable. Try: sudo chmod 0660 {} OR relogin".to_owned()
            } else {
                let mut s =
                    "Run: sudo usermod -aG video $USER\nThen LOG OUT and log back in for the group change to take effect.\n(Temporary: sudo chmod 0660 ".to_owned();
                s.append(path);
                s.append(")");
                s
            };
            Err(AccessError::PermissionDenied { path: path.to_owned(), suggestion })
        },
        OpenOutcome::Failed(why) => Err(AccessError::Other { source: why, path: path.to_owned() }),
    }
}

/// The value for the first device of an array parameter ("16,16,16").
pub open spec fn first_value(raw: Seq<char>) -> Seq<char> {
    crate::text::trimmed(crate::text::split_on(raw, ',')[0])
}

/// The value for the first device of an array parameter.
fn first_param(raw: &str) -> (r: Vec<char>)
    ensures
        r@ == first_value(raw@),
{
    let chars = chars_of(raw);
    let parts = split(chars.as_slice(), ',');
    proof {
        assert(crate::text::views(parts@)[0] == parts@[0]@);
    }
    trim(parts[0].as_slice())
}

/// Whether a value of a boolean parameter is on.
pub open spec fn is_on(value: Seq<char>) -> bool {
    value == "Y"@ || value == "y"@ || value == "1"@
}

/// Whether an array parameter ("Y,N,N") is on for any device.
pub open spec fn any_on(raw: Seq<char>) -> bool {
    exists|i: int|
        0 <= i < crate::text::split_on(raw, ',').len() && is_on(
            crate::text::trimmed(#[trigger] crate::text::split_on(raw, ',')[i]),
        )
}

/// Whether exclusive_caps is enabled on any loopback device, from the text of the
/// module parameter. Browsers refuse devices that advertise both CAPTURE
/// and OUTPUT; exclusive caps is what makes the virtual node look like a real
/// webcam. `None` if the parameter can't be read.
pub fn exclusive_caps_active(raw: Option<&str>) -> (r: Option<bool>)
    ensures
        r == (match raw {
            Some(text) => Some(any_on(text@)),
            None => None,
        }),
{
    match raw {
        Some(text) => {
            // Format is "Y,N,N,..." or "1,0,0,..." depending on kernel/module version.
            let chars = chars_of(text);
            let parts = split(chars.as_slice(), ',');
            let mut on = false;
            for i in 0..parts.len()
                invariant
                    crate::text::views(parts@) == crate::text::split_on(text@, ','),
                    on == exists|k: int|
                        0 <= k < i && is_on(
                            crate::text::trimmed(#[trigger] crate::text::split_on(text@, ',')[k]),
                        ),
            {
                assert(crate::text::views(parts@)[i as int] == parts@[i as int]@);
                let value = string_of(trim(parts[i].as_slice()).as_slice());
                let v = value.as_str();
                if same_text(v, "Y") || same_text(v, "y") || same_text(v, "1") {
                    on = true;
                }
            }
            Some(on)
        },
        None => None,
    }
}

/// The current v4l2loopback `max_openers` (first device), from the text of the
/// module parameter.
///
/// `max_openers` controls how many file descriptors can open the loopback
/// device simultaneously. With `max_openers < 2` only one app can read the
/// virtual camera at a time — the writer (vcam-proxy) counts as one opener,
/// so at least 2 are needed for a single reader, and more for multi-reader.
///
/// Returns `None` if the module isn't loaded or the parameter can't be read.
pub fn max_openers(raw: Option<&str>) -> (r: Option<u32>)
    ensures
        match raw {
            Some(text) => match crate::text::unsigned_value(
                first_value(text@),
                u32::MAX as nat,
            ) {
                Some(n) => r == Some(n as u32) && n == n as u32,
                None => r is None,
            },
            None => r is None,
        },
{
    match raw {
        Some(text) => parse_u32(first_param(text).as_slice()),
        None => None,
    }
}

/// The value for the first device is what stands before the first comma, without the
/// white space around it.
pub proof fn law_first_value(first: Seq<char>, rest: Seq<char>)
    requires
        forall|i: int| 0 <= i < first.len() ==> #[trigger] first[i] != ',',
    ensures
        first_value(first) == crate::text::trimmed(first),
        first_value(first + seq![','] + rest) == crate::text::trimmed(first),
{
    crate::text::law_split_of_one_piece(first, ',');
    crate::text::law_split_at_a_separator(first, rest, ',');
    assert((seq![first] + crate::text::split_on(rest, ','))[0] == first);
}

/// Only `Y`, `y` and `1` are on.
pub proof fn law_what_is_on(value: Seq<char>)
    ensures
        is_on("Y"@) && is_on("y"@) && is_on("1"@),
        !is_on("N"@) && !is_on("n"@) && !is_on("0"@) && !is_on(Seq::<char>::empty()),
        is_on(value) ==> value.len() == 1 && (value[0] == 'Y' || value[0] == 'y' || value[0]
            == '1'),
{
    reveal_strlit("Y");
    reveal_strlit("y");
    reveal_strlit("1");
    reveal_strlit("N");
    reveal_strlit("n");
    reveal_strlit("0");
    assert("Y"@[0] == 'Y' && "y"@[0] == 'y' && "1"@[0] == '1');
    assert("N"@[0] == 'N' && "n"@[0] == 'n' && "0"@[0] == '0');
    assert("Y"@.len() == 1 && "y"@.len() == 1 && "1"@.len() == 1);
}

/// An array parameter is on where the part before a comma or the part behind it is, and
/// a part without a comma where its value is on, with white space around it or not.
pub proof fn law_any_device_on(a: Seq<char>, b: Seq<char>, one: Seq<char>)
    requires
        forall|i: int| 0 <= i < one.len() ==> #[trigger] one[i] != ',',
    ensures
        any_on(a + seq![','] + b) <==> any_on(a) || any_on(b),
        any_on(one) <==> is_on(crate::text::trimmed(one)),
{
    let whole = a + seq![','] + b;
    let left = crate::text::split_on(a, ',');
    let right = crate::text::split_on(b, ',');
    let all = crate::text::split_on(whole, ',');
    crate::text::law_split_at_a_separator(a, b, ',');
    crate::text::law_split_of_one_piece(one, ',');
    if any_on(a) {
        let i = choose|i: int|
            0 <= i < left.len() && is_on(crate::text::trimmed(#[trigger] left[i]));
        assert(all[i] == left[i]);
    }
    if any_on(b) {
        let i = choose|i: int|
            0 <= i < right.len() && is_on(crate::text::trimmed(#[trigger] right[i]));
        assert(all[left.len() + i] == right[i]);
    }
    if any_on(whole) {
        let i = choose|i: int|
            0 <= i < all.len() && is_on(crate::text::trimmed(#[trigger] all[i]));
        if i < left.len() {
            assert(left[i] == all[i]);
        } else {
            assert(right[i - left.len()] == all[i]);
        }
    }
    assert(crate::text::split_on(one, ',')[0] == one);
}

/// The advice depends only on whether the user is in the video group, and outside it
/// names the device.
pub proof fn law_access_advice(
    path: Seq<char>,
    path2: Seq<char>,
    before: Seq<char>,
    behind: Seq<char>,
    groups: Option<Seq<char>>,
)
    ensures
        access_advice(path, Some(before + "video"@ + behind)) == access_advice(
            path2,
            Some("video"@),
        ),
        groups is None || !crate::text::occurs(groups->Some_0, "video"@) ==> access_advice(
            path,
            groups,
        ) == access_advice(path, None),
        crate::text::occurs(access_advice(path, None), path),
{
    crate::text::law_occurrence(before, "video"@, behind, "video"@);
    let e = Seq::<char>::empty();
    crate::text::law_occurrence(e, "video"@, e, "video"@);
    assert(e + "video"@ + e =~= "video"@);
    let head =
        "Run: sudo usermod -aG video $USER\nThen LOG OUT and log back in for the group change to take effect.\n(Temporary: sudo chmod 0660 "@;
    crate::text::law_occurrence(head, path, ")"@, path);
}

/// A device that cannot be used is named, and so is the advice or the reason.
pub proof fn law_access_errors(e: AccessError)
    ensures
        e matches AccessError::NotFound { path } ==> crate::text::has_prefix(
            e.text(),
            "device "@ + path@,
        ),
        e matches AccessError::PermissionDenied { path, suggestion } ==> e.text()
            == "permission denied on "@ + path@ + ". "@ + suggestion@,
        e matches AccessError::Other { source, path } ==> e.text() == "cannot access device "@
            + path@ + ": "@ + source@,
{
    if let AccessError::NotFound { path } = e {
        crate::text::law_prefix("device "@ + path@, " does not exist"@, path@);
    }
}

} // verus!
