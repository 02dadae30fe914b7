//! Distribution detection & auto-install for v4l2loopback.

use vstd::prelude::*;

use crate::sink::v4l2loop::module::ModuleError;
use crate::text::chars_of;
use crate::text::contains;
use crate::text::lines;
use crate::text::same_text;
use crate::text::string_of;
use crate::text::strip_prefix;
use crate::text::unquote;

verus! {

/// Known Linux package-manager families we can auto-install for.
#[derive(Debug, Clone, Copy, PartialEq, Eq, Structural)]
pub enum Distro {
    Debian,
    Ubuntu,
    Fedora,
    Arch,
    OpenSuse,
    Unknown,
}

/// The value of a key in the lines of `/etc/os-release`, without its quotes. A
/// later line wins; a key that is missing has an empty value.
pub open spec fn os_value(all: Seq<Seq<char>>, key: Seq<char>) -> Seq<char>
    decreases all.len(),
{
    if all.len() == 0 {
        Seq::empty()
    } else {
        match crate::text::after_prefix(all.last(), key) {
            Some(v) => crate::text::unquoted(v),
            None => os_value(all.drop_last(), key),
        }
    }
}

/// The distribution with this `ID` and, failing that, this `ID_LIKE`.
pub open spec fn distro_of(id: Seq<char>, id_like: Seq<char>) -> Distro {
    if id == "debian"@ {
        Distro::Debian
    } else if id == "ubuntu"@ {
        Distro::Ubuntu
    } else if id == "fedora"@ {
        Distro::Fedora
    } else if id == "arch"@ {
        Distro::Arch
    } else if id == "opensuse"@ || id == "opensuse-tumbleweed"@ || id == "opensuse-leap"@ {
        Distro::OpenSuse
    } else if crate::text::occurs(id_like, "debian"@) || crate::text::occurs(
        id_like,
        "ubuntu"@,
    ) {
        Distro::Debian
    } else if crate::text::occurs(id_like, "fedora"@) || crate::text::occurs(id_like, "rhel"@) {
        Distro::Fedora
    } else if crate::text::occurs(id_like, "arch"@) {
        Distro::Arch
    } else {
        Distro::Unknown
    }
}

/// Finds the value of a key in the lines of `/etc/os-release`.
fn find_value(all: &Vec<Vec<char>>, key: &str) -> (r: Vec<char>)
    ensures
        r@ == os_value(crate::text::views(all@), key@),
{
    let ghost whole = crate::text::views(all@);
    let mut value: Vec<char> = Vec::new();
    assert(value@ =~= os_value(whole.take(0), key@));
    for i in 0..all.len()
        invariant
            whole == crate::text::views(all@),
            value@ == os_value(whole.take(i as int), key@),
    {
        assert(whole.take(i + 1).drop_last() =~= whole.take(i as int));
        assert(whole.take(i + 1).last() == all@[i as int]@);
        if let Some(v) = strip_prefix(all[i].as_slice(), key) {
            value = unquote(v.as_slice());
        }
    }
    assert(whole.take(whole.len() as int) =~= whole);
    value
}

/// Map the `ID` (and fallback `ID_LIKE`) of `/etc/os-release` to a [`Distro`]
/// variant. Returns [`Distro::Unknown`] if the file is missing or contains an
/// unrecognised ID.
pub fn detect_distro(os_release: Option<&str>) -> (r: Distro)
    ensures
        r == (match os_release {
            Some(text) => distro_of(
                os_value(crate::text::lines_of(text@), "ID="@),
                os_value(crate::text::lines_of(text@), "ID_LIKE="@),
            ),
            None => Distro::Unknown,
        }),
{
    let text: &str = match os_release {
        Some(text) => text,
        None => {
            return Distro::Unknown;
        },
    };
    let chars = chars_of(text);
    let all = lines(chars.as_slice());
    let id_chars = find_value(&all, "ID=");
    let id_string = string_of(id_chars.as_slice());
    let id = id_string.as_str();
    let id_like = find_value(&all, "ID_LIKE=");
    let like = id_like.as_slice();
    if same_text(id, "debian") {
        Distro::Debian
    } else if same_text(id, "ubuntu") {
        Distro::Ubuntu
    } else if same_text(id, "fedora") {
        Distro::Fedora
    } else if same_text(id, "arch") {
        Distro::Arch
    } else if same_text(id, "opensuse") || same_text(id, "opensuse-tumbleweed") || same_text(
        id,
        "opensuse-leap",
    ) {
        Distro::OpenSuse
    } else if contains(like, "debian") || contains(like, "ubuntu") {
        // Fall back to ID_LIKE (e.g. "ubuntu" for Pop!_OS, "debian" for Mint).
        Distro::Debian
    } else if contains(like, "fedora") || contains(like, "rhel") {
        Distro::Fedora
    } else if contains(like, "arch") {
        Distro::Arch
    } else {
        Distro::Unknown
    }
}

/// The package manager of a distribution and its arguments.
pub open spec fn installer(distro: Distro) -> Option<(Seq<char>, Seq<Seq<char>>)> {
    match distro {
        Distro::Debian | Distro::Ubuntu => Some(
            ("apt-get"@, seq!["install"@, "-y"@, "v4l2loopback-dkms"@, "v4l-utils"@]),
        ),
        Distro::Fedora => Some(("dnf"@, seq!["install"@, "-y"@, "v4l2loopback"@])),
        Distro::Arch => Some(
            ("pacman"@, seq!["-S"@, "--noconfirm"@, "v4l2loopback-dkms"@, "v4l-utils"@]),
        ),
        Distro::OpenSuse => Some(("zypper"@, seq!["install"@, "-y"@, "v4l2loopback"@])),
        Distro::Unknown => None,
    }
}

/// A list of three texts.
fn three(a: &str, b: &str, c: &str) -> (r: Vec<String>)
    ensures
        crate::text::texts(r@) == seq![a@, b@, c@],
{
    let r = vec![a.to_owned(), b.to_owned(), c.to_owned()];
    assert(crate::text::texts(r@) =~= seq![a@, b@, c@]);
    r
}

/// A list of four texts.
fn four(a: &str, b: &str, c: &str, d: &str) -> (r: Vec<String>)
    ensures
        crate::text::texts(r@) == seq![a@, b@, c@, d@],
{
    let r = vec![a.to_owned(), b.to_owned(), c.to_owned(), d.to_owned()];
    assert(crate::text::texts(r@) =~= seq![a@, b@, c@, d@]);
    r
}

/// Build the `pkexec <pm> install …` command for the detected distro.
/// Returns `None` when we don't recognise the distro.
pub fn install_command(distro: Distro) -> (r: Option<(String, Vec<String>)>)
    ensures
        match r {
            Some(cmd) => installer(distro) == Some((cmd.0@, crate::text::texts(cmd.1@))),
            None => installer(distro) is None,
        },
{
    match distro {
        Distro::Debian | Distro::Ubuntu => Some(
            ("apt-get".to_owned(), four("install", "-y", "v4l2loopback-dkms", "v4l-utils")),
        ),
        Distro::Fedora => Some(("dnf".to_owned(), three("install", "-y", "v4l2loopback"))),
        Distro::Arch => Some(
            ("pacman".to_owned(), four("-S", "--noconfirm", "v4l2loopback-dkms", "v4l-utils")),
        ),
        Distro::OpenSuse => Some(("zypper".to_owned(), three("install", "-y", "v4l2loopback"))),
        Distro::Unknown => None,
    }
}

/// A command that installs the package.
pub struct InstallPlan {
    /// The program that asks for privileges.
    pub escalator: String,
    /// The package manager.
    pub pm: String,
    /// The package manager's arguments.
    pub args: Vec<String>,
}

/// Plans the installation of the v4l2loopback package through the native package
/// manager, escalating via `pkexec` (a polkit prompt) or, where that is missing
/// (headless server, minimal desktop), via `sudo`.
pub fn install_plan(distro: Distro, has_pkexec: bool, has_sudo: bool) -> (r: Result<
    InstallPlan,
    ModuleError,
>)
    ensures
        match installer(distro) {
            None => r == Err::<InstallPlan, ModuleError>(ModuleError::DistroNotSupported),
            Some(cmd) => if has_pkexec || has_sudo {
                &&& r matches Ok(plan)
                &&& plan.escalator@ == if has_pkexec {
                    "pkexec"@
                } else {
                    "sudo"@
                }
                &&& plan.pm@ == cmd.0
                &&& crate::text::texts(plan.args@) == cmd.1
            } else {
                r == Err::<InstallPlan, ModuleError>(ModuleError::PkexecNotAvailable)
            },
        },
        r matches Ok(plan) ==> escalator(has_pkexec, has_sudo) == Some(plan.escalator@),
        r is Ok <==> installer(distro) is Some && escalator(has_pkexec, has_sudo) is Some,
{
    match install_command(distro) {
        None => Err(ModuleError::DistroNotSupported),
        Some((pm, args)) => {
            if has_pkexec {
                Ok(InstallPlan { escalator: "pkexec".to_owned(), pm, args })
            } else if has_sudo {
                Ok(InstallPlan { escalator: "sudo".to_owned(), pm, args })
            } else {
                Err(ModuleError::PkexecNotAvailable)
            }
        },
    }
}

/// How the installation command came out.
pub enum InstallOutcome {
    /// It could not be started, for this reason.
    NotStarted(String),
    /// It ran and succeeded.
    Succeeded,
    /// It ran and failed, with this exit code if it was not killed.
    Failed(Option<i32>),
}

/// The message for an installation that could not be started.
pub open spec fn not_started_text(
    escalator: Seq<char>,
    pm: Seq<char>,
    why: Seq<char>,
) -> Seq<char> {
    "failed to invoke "@ + escalator + " "@ + pm + ": "@ + why
}

/// The result of an installation. A command that was killed counts as exit code
/// -1.
pub fn install_result(plan: &InstallPlan, outcome: InstallOutcome) -> (r: Result<(), ModuleError>)
    ensures
        match outcome {
            InstallOutcome::NotStarted(why) => r is Err && r->Err_0.is_load_failure(
                not_started_text(plan.escalator@, plan.pm@, why@),
            ),
            InstallOutcome::Succeeded => r is Ok,
            InstallOutcome::Failed(Some(code)) => r == Err::<(), ModuleError>(
                ModuleError::InstallFailed(code),
            ),
            InstallOutcome::Failed(None) => r == Err::<(), ModuleError>(
                ModuleError::InstallFailed((-1) as i32),
            ),
        },
{
    match outcome {
        InstallOutcome::NotStarted(why) => {
            let mut reason = "failed to invoke ".to_owned();
            reason.append(plan.escalator.as_str());
            reason.append(" ");
            reason.append(plan.pm.as_str());
            reason.append(": ");
            reason.append(why.as_str());
            Err(ModuleError::LoadFailed { reason })
        },
        InstallOutcome::Succeeded => Ok(()),
        InstallOutcome::Failed(code) => match code {
            Some(code) => Err(ModuleError::InstallFailed(code)),
            None => Err(ModuleError::InstallFailed(-1)),
        },
    }
}

/// A key has the value of its last line, without the quotes around it; lines of other
/// keys do not count, and a key that has no line has an empty value.
pub proof fn law_last_line_wins(
    all: Seq<Seq<char>>,
    key: Seq<char>,
    value: Seq<char>,
    other: Seq<char>,
)
    requires
        value.len() == 0 || (value[0] != '"' && value.last() != '"'),
    ensures
        os_value(Seq::<Seq<char>>::empty(), key) == Seq::<char>::empty(),
        os_value(all.push(key + value), key) == value,
        os_value(all.push(key + (seq!['"'] + value + seq!['"'])), key) == value,
        !crate::text::has_prefix(other, key) ==> os_value(all.push(other), key) == os_value(
            all,
            key,
        ),
{
    let e = Seq::<char>::empty();
    let quoted = seq!['"'] + value + seq!['"'];
    crate::text::law_prefix(key, value, other);
    crate::text::law_prefix(key, quoted, other);
    crate::text::law_unquoting(e, value, e);
    assert(e + value + e =~= value);
    crate::text::law_unquoting(seq!['"'], value, seq!['"']);
    assert(all.push(other).drop_last() =~= all);
}

/// A known `ID` decides alone. Otherwise `ID_LIKE` decides, whatever the `ID` is:
/// Debian's relatives first, then Fedora's, then Arch's.
pub proof fn law_id_decides_first(id: Seq<char>, like: Seq<char>, id2: Seq<char>, like2: Seq<char>)
    ensures
        distro_of("debian"@, like) == Distro::Debian,
        distro_of("ubuntu"@, like) == Distro::Ubuntu,
        distro_of("fedora"@, like) == Distro::Fedora,
        distro_of("arch"@, like) == Distro::Arch,
        distro_of("opensuse"@, like) == Distro::OpenSuse,
        distro_of("opensuse-tumbleweed"@, like) == Distro::OpenSuse,
        distro_of("opensuse-leap"@, like) == Distro::OpenSuse,
        distro_of(id, Seq::<char>::empty()) != Distro::Unknown ==> distro_of(id, like) == distro_of(
            id,
            like2,
        ),
        distro_of(id, Seq::<char>::empty()) == Distro::Unknown && distro_of(
            id2,
            Seq::<char>::empty(),
        ) == Distro::Unknown ==> distro_of(id, like) == distro_of(id2, like),
        distro_of(id, Seq::<char>::empty()) == Distro::Unknown ==> {
            let debian = crate::text::occurs(like, "debian"@) || crate::text::occurs(
                like,
                "ubuntu"@,
            );
            let fedora = crate::text::occurs(like, "fedora"@) || crate::text::occurs(like, "rhel"@);
            let arch = crate::text::occurs(like, "arch"@);
            &&& distro_of(id, like) == Distro::Debian <==> debian
            &&& distro_of(id, like) == Distro::Fedora <==> !debian && fedora
            &&& distro_of(id, like) == Distro::Arch <==> !debian && !fedora && arch
            &&& distro_of(id, like) == Distro::Unknown <==> !debian && !fedora && !arch
        },
{
    reveal_strlit("debian");
    reveal_strlit("ubuntu");
    reveal_strlit("fedora");
    reveal_strlit("rhel");
    reveal_strlit("arch");
    reveal_strlit("opensuse");
    reveal_strlit("opensuse-tumbleweed");
    reveal_strlit("opensuse-leap");
    assert("debian"@[0] == 'd' && "ubuntu"@[0] == 'u' && "fedora"@[0] == 'f' && "arch"@[0] == 'a');
    assert("opensuse"@[0] == 'o' && "opensuse-tumbleweed"@[0] == 'o' && "opensuse-leap"@[0]
        == 'o');
}

/// Every distribution that is known can be installed for, without a question asked,
/// and each installs the module's own package; an unknown one cannot.
pub proof fn law_known_distributions_install(distro: Distro)
    ensures
        installer(distro) is None <==> distro == Distro::Unknown,
        installer(Distro::Ubuntu) == installer(Distro::Debian),
        installer(distro) matches Some(cmd) ==> {
            &&& cmd.1.contains("-y"@) || cmd.1.contains("--noconfirm"@)
            &&& cmd.1.contains("v4l2loopback"@) || cmd.1.contains("v4l2loopback-dkms"@)
            &&& distro == Distro::Debian ==> cmd.0 == "apt-get"@ && cmd.1.contains("install"@)
                && cmd.1.contains("v4l2loopback-dkms"@)
            &&& distro == Distro::Fedora ==> cmd.0 == "dnf"@ && cmd.1.contains("install"@)
                && cmd.1.contains("v4l2loopback"@)
            &&& distro == Distro::Arch ==> cmd.0 == "pacman"@ && cmd.1.contains("-S"@)
                && cmd.1.contains("v4l2loopback-dkms"@)
            &&& distro == Distro::OpenSuse ==> cmd.0 == "zypper"@ && cmd.1.contains("install"@)
                && cmd.1.contains("v4l2loopback"@)
        },
{
    if let Some(cmd) = installer(distro) {
        assert(cmd.1[0] == "install"@ || cmd.1[0] == "-S"@);
        assert(cmd.1[1] == "-y"@ || cmd.1[1] == "--noconfirm"@);
        assert(cmd.1[2] == "v4l2loopback"@ || cmd.1[2] == "v4l2loopback-dkms"@);
    }
}

/// The program that asks for privileges, if there is one.
pub open spec fn escalator(has_pkexec: bool, has_sudo: bool) -> Option<Seq<char>> {
    if has_pkexec {
        Some("pkexec"@)
    } else if has_sudo {
        Some("sudo"@)
    } else {
        None
    }
}

/// `pkexec` is used wherever it is there, `sudo` only in its absence, and without either
/// nothing is installed.
pub proof fn law_escalation(has_pkexec: bool, has_sudo: bool)
    ensures
        escalator(true, has_sudo) == Some("pkexec"@),
        escalator(false, true) == Some("sudo"@),
        escalator(has_pkexec, has_sudo) is None <==> !has_pkexec && !has_sudo,
{
}

/// The message for an installation that could not be started names the command, then the
/// reason.
pub proof fn law_not_started(escalator: Seq<char>, pm: Seq<char>, why: Seq<char>)
    ensures
        crate::text::has_prefix(
            not_started_text(escalator, pm, why),
            "failed to invoke "@ + escalator + " "@ + pm,
        ),
        not_started_text(escalator, pm, why).skip(
            not_started_text(escalator, pm, why).len() - why.len(),
        ) == why,
{
    let text = not_started_text(escalator, pm, why);
    let head = "failed to invoke "@ + escalator + " "@ + pm;
    assert(text =~= head + (": "@ + why));
    crate::text::law_prefix(head, ": "@ + why, text);
    assert(text.skip(text.len() - why.len()) =~= why);
}

} // verus!
