//! Module operations: load, unload, and reload for v4l2loopback.

use vstd::prelude::*;

use crate::sink::v4l2loop::module::ModuleError;
use crate::text::chars_of;
use crate::text::contains;
use crate::text::signed_decimal;
use crate::text::string_of;
use crate::text::trim;
use crate::text::words;

verus! {

/// How often the module list is polled after `modprobe`, every 100 ms.
pub const POLLS: u32 = 50;

/// How a `pkexec` command came out.
pub enum CommandOutcome {
    Succeeded,
    /// It ran and failed, with this exit code if it was not killed.
    Failed { code: Option<i32>, stderr: String },
    /// There is no `pkexec`.
    NotFound,
    /// It could not be run, for this reason.
    NotRun(String),
}

/// An exit code as it is shown in messages.
pub open spec fn code_text(code: Option<i32>) -> Seq<char> {
    match code {
        Some(n) => "Some("@ + crate::text::signed_digits(n as int) + ")"@,
        None => "None"@,
    }
}

/// An exit code as it is shown in messages.
fn code_string(code: Option<i32>) -> (r: String)
    ensures
        r@ == code_text(code),
{
    match code {
        Some(n) => {
            let mut r = "Some(".to_owned();
            r.append(signed_decimal(n).as_str());
            r.append(")");
            r
        },
        None => "None".to_owned(),
    }
}

/// The message for a failed command.
pub open spec fn failed_text(what: Seq<char>, code: Option<i32>, stderr: Seq<char>) -> Seq<char> {
    what + " failed (exit "@ + code_text(code) + "): "@ + crate::text::trimmed(stderr)
}

/// Whether a command reports that the module is not installed ("Module
/// v4l2loopback not found in directory …").
pub open spec fn reports_missing(stderr: Seq<char>) -> bool {
    crate::text::occurs(stderr, "v4l2loopback not found"@)
}

/// The error of a command that did not succeed.
pub open spec fn is_command_error(
    e: ModuleError,
    what: Seq<char>,
    outcome: CommandOutcome,
) -> bool {
    match outcome {
        CommandOutcome::Succeeded => false,
        CommandOutcome::Failed { code, stderr } => if reports_missing(stderr@) {
            e.is_missing_module(failed_text(what, code, stderr@))
        } else {
            e.is_load_failure(failed_text(what, code, stderr@))
        },
        CommandOutcome::NotFound => e == ModuleError::PkexecNotAvailable,
        CommandOutcome::NotRun(why) => e.is_load_failure(why@),
    }
}

/// The result of a command, before the module list is polled.
fn command_result(what: &str, outcome: CommandOutcome) -> (r: Result<(), ModuleError>)
    ensures
        match r {
            Ok(()) => outcome is Succeeded,
            Err(e) => is_command_error(e, what@, outcome),
        },
{
    match outcome {
        CommandOutcome::Succeeded => Ok(()),
        CommandOutcome::Failed { code, stderr } => {
            let mut reason = what.to_owned();
            reason.append(" failed (exit ");
            reason.append(code_string(code).as_str());
            reason.append("): ");
            let chars = chars_of(stderr.as_str());
            reason.append(string_of(trim(chars.as_slice()).as_slice()).as_str());
            if contains(chars.as_slice(), "v4l2loopback not found") {
                Err(ModuleError::NotInstalled { reason })
            } else {
                Err(ModuleError::LoadFailed { reason })
            }
        },
        CommandOutcome::NotFound => Err(ModuleError::PkexecNotAvailable),
        CommandOutcome::NotRun(why) => Err(ModuleError::LoadFailed { reason: why }),
    }
}

// ---------------------------------------------------------------------------
// Unloading
// ---------------------------------------------------------------------------

/// What happened since the last decision about unloading the module.
pub enum UnloadEvent {
    /// Whether the module was loaded at the start.
    Checked(bool),
    /// `pkexec modprobe -r v4l2loopback` ended.
    Ran(CommandOutcome),
    /// The module list was polled for the `attempt`-th time, counted from zero.
    Polled { attempt: u32, loaded: bool },
}

/// What to do about unloading the module next.
pub enum UnloadAction {
    /// Run `pkexec modprobe -r v4l2loopback`.
    Run,
    /// Poll the module list, after a pause of `wait_ms`.
    Poll { attempt: u32, wait_ms: u64 },
    /// All is done, with this result.
    Done(Result<(), ModuleError>),
}

/// Whether an action is the right one after an event.
pub open spec fn unload_step(event: UnloadEvent, action: UnloadAction) -> bool {
    match event {
        UnloadEvent::Checked(loaded) => if loaded {
            action is Run
        } else {
            action == UnloadAction::Done(Ok(()))
        },
        UnloadEvent::Ran(outcome) => if outcome is Succeeded {
            action == (UnloadAction::Poll { attempt: 0, wait_ms: 0 })
        } else {
            action matches UnloadAction::Done(Err(e)) && is_command_error(
                e,
                "pkexec modprobe -r"@,
                outcome,
            )
        },
        UnloadEvent::Polled { attempt, loaded } => if !loaded {
            action == UnloadAction::Done(Ok(()))
        } else if attempt + 1 < POLLS {
            action == (UnloadAction::Poll { attempt: (attempt + 1) as u32, wait_ms: 100 })
        } else {
            action matches UnloadAction::Done(Err(e)) && e.is_load_failure(
                "module still loaded after modprobe -r"@,
            )
        },
    }
}

/// Unload the v4l2loopback kernel module via pkexec, and wait until it is gone.
pub fn unload_module(event: UnloadEvent) -> (r: UnloadAction)
    ensures
        unload_step(event, r),
{
    match event {
        UnloadEvent::Checked(loaded) => if loaded {
            UnloadAction::Run
        } else {
            UnloadAction::Done(Ok(()))
        },
        UnloadEvent::Ran(outcome) => match command_result("pkexec modprobe -r", outcome) {
            Ok(()) => UnloadAction::Poll { attempt: 0, wait_ms: 0 },
            Err(e) => UnloadAction::Done(Err(e)),
        },
        // Wait for module to actually unload
        UnloadEvent::Polled { attempt, loaded } => if !loaded {
            UnloadAction::Done(Ok(()))
        } else if attempt < POLLS - 1 {
            UnloadAction::Poll { attempt: attempt + 1, wait_ms: 100 }
        } else {
            UnloadAction::Done(
                Err(
                    ModuleError::LoadFailed {
                        reason: "module still loaded after modprobe -r".to_owned(),
                    },
                ),
            )
        },
    }
}

// ---------------------------------------------------------------------------
// Loading
// ---------------------------------------------------------------------------

/// What happened since the last decision about loading the module.
pub enum LoadEvent {
    /// Whether the module was loaded at the start.
    Checked(bool),
    /// Unloading the module ended.
    Unloaded(Result<(), ModuleError>),
    /// `pkexec modprobe v4l2loopback …` ended.
    Ran(CommandOutcome),
    /// The module list and the devices were polled for the `attempt`-th time,
    /// counted from zero.
    Polled { attempt: u32, loaded: bool, devices: usize },
    /// The module list was checked one last time.
    LastCheck(bool),
}

/// What to do about loading the module next.
pub enum LoadAction {
    /// Unload the module, since other parameters are wanted.
    Unload,
    /// After a pause of `wait_ms`, run `pkexec modprobe v4l2loopback` with these
    /// arguments.
    Run { args: Vec<String>, wait_ms: u64 },
    /// Poll the module list and the devices, after a pause of `wait_ms`.
    Poll { attempt: u32, wait_ms: u64 },
    /// Check the module list one last time, after a pause of `wait_ms`.
    CheckOnce { wait_ms: u64 },
    /// All is done, with this result.
    Done(Result<(), ModuleError>),
}

/// Whether an action runs `modprobe` with the words of a parameter string.
pub open spec fn runs_with(action: LoadAction, params: Seq<char>, pause: u64) -> bool {
    action matches LoadAction::Run { args, wait_ms } && crate::text::texts(args@)
        == crate::text::words_of(params) && wait_ms == pause
}

/// Whether an action is the right one after an event.
pub open spec fn load_step(
    params: Seq<char>,
    force_reload: bool,
    event: LoadEvent,
    action: LoadAction,
) -> bool {
    match event {
        LoadEvent::Checked(loaded) => if !loaded {
            runs_with(action, params, 0)
        } else if force_reload {
            action is Unload
        } else {
            action == LoadAction::Done(Ok(()))
        },
        LoadEvent::Unloaded(Ok(())) => runs_with(action, params, 200),
        LoadEvent::Unloaded(Err(e)) => action == LoadAction::Done(Err(e)),
        LoadEvent::Ran(outcome) => if outcome is Succeeded {
            action == (LoadAction::Poll { attempt: 0, wait_ms: 0 })
        } else {
            action matches LoadAction::Done(Err(e)) && is_command_error(
                e,
                "pkexec modprobe"@,
                outcome,
            )
        },
        LoadEvent::Polled { attempt, loaded, devices } => if loaded && devices > 0 {
            action == LoadAction::Done(Ok(()))
        } else if attempt + 1 < POLLS {
            action == (LoadAction::Poll { attempt: (attempt + 1) as u32, wait_ms: 100 })
        } else {
            action == (LoadAction::CheckOnce { wait_ms: 100 })
        },
        LoadEvent::LastCheck(loaded) => if loaded {
            action == LoadAction::Done(Ok(()))
        } else {
            action matches LoadAction::Done(Err(e)) && e.is_load_failure(
                "modprobe reported success but module not visible in /proc/modules"@,
            )
        },
    }
}

/// The words of a parameter string.
fn modprobe_args(params: &str) -> (r: Vec<String>)
    ensures
        crate::text::texts(r@) == crate::text::words_of(params@),
{
    let chars = chars_of(params);
    let parts = words(chars.as_slice());
    let ghost all = crate::text::words_of(params@);
    let mut args: Vec<String> = Vec::new();
    for i in 0..parts.len()
        invariant
            all == crate::text::views(parts@),
            args@.len() == i,
            forall|k: int| 0 <= k < i ==> (#[trigger] args@[k])@ == all[k],
    {
        assert(crate::text::views(parts@)[i as int] == parts@[i as int]@);
        args.push(string_of(parts[i].as_slice()));
    }
    assert(crate::text::texts(args@) =~= all);
    args
}

/// Load the module, optionally reloading it if it is already loaded.
fn load_module_with_params_internal(params: &str, force_reload: bool, event: LoadEvent) -> (r:
    LoadAction)
    ensures
        load_step(params@, force_reload, event, r),
{
    match event {
        LoadEvent::Checked(loaded) => if !loaded {
            LoadAction::Run { args: modprobe_args(params), wait_ms: 0 }
        } else if force_reload {
            LoadAction::Unload
        } else {
            LoadAction::Done(Ok(()))
        },
        LoadEvent::Unloaded(result) => match result {
            Ok(()) => LoadAction::Run { args: modprobe_args(params), wait_ms: 200 },
            Err(e) => LoadAction::Done(Err(e)),
        },
        LoadEvent::Ran(outcome) => match command_result("pkexec modprobe", outcome) {
            Ok(()) => LoadAction::Poll { attempt: 0, wait_ms: 0 },
            Err(e) => LoadAction::Done(Err(e)),
        },
        LoadEvent::Polled { attempt, loaded, devices } => if loaded && devices > 0 {
            LoadAction::Done(Ok(()))
        } else if attempt < POLLS - 1 {
            LoadAction::Poll { attempt: attempt + 1, wait_ms: 100 }
        } else {
            LoadAction::CheckOnce { wait_ms: 100 }
        },
        LoadEvent::LastCheck(loaded) => if loaded {
            // Devices may still be creating.
            LoadAction::Done(Ok(()))
        } else {
            LoadAction::Done(
                Err(
                    ModuleError::LoadFailed {
                        reason:
                            "modprobe reported success but module not visible in /proc/modules".to_owned(),
                    },
                ),
            )
        },
    }
}

/// Load the v4l2loopback kernel module with custom parameters via pkexec.
/// The `params` string is split on whitespace and passed as arguments to
/// modprobe. A module that is loaded is left alone.
pub fn load_module_with_params(params: &str, event: LoadEvent) -> (r: LoadAction)
    ensures
        load_step(params@, false, event, r),
{
    load_module_with_params_internal(params, false, event)
}

/// Load the module, forcing a reload if already loaded.
/// This is needed when the user changes the number of devices (e.g., enabling
/// multi-reader mode).
pub fn load_module_with_params_force(params: &str, event: LoadEvent) -> (r: LoadAction)
    ensures
        load_step(params@, true, event, r),
{
    load_module_with_params_internal(params, true, event)
}

/// Whether an event reports the end of an action.
pub open spec fn load_answers(action: LoadAction, event: LoadEvent) -> bool {
    match action {
        LoadAction::Unload => event is Unloaded,
        LoadAction::Run { .. } => event is Ran,
        LoadAction::Poll { attempt, .. } => event matches LoadEvent::Polled { attempt: a, .. } && a
            == attempt,
        LoadAction::CheckOnce { .. } => event is LastCheck,
        LoadAction::Done(_) => false,
    }
}

/// How many actions can follow, this one included.
pub open spec fn load_rank(action: LoadAction) -> int {
    match action {
        LoadAction::Unload => POLLS + 3,
        LoadAction::Run { .. } => POLLS + 2,
        LoadAction::Poll { attempt, .. } => if attempt < POLLS {
            POLLS - attempt + 1
        } else {
            2
        },
        LoadAction::CheckOnce { .. } => 1,
        LoadAction::Done(_) => 0,
    }
}

/// Loading the module comes to an end, without force never touches a module that
/// is loaded, and reports success only after the module was seen loaded.
pub proof fn law_load_ends(
    params: Seq<char>,
    force_reload: bool,
    before: LoadAction,
    event: LoadEvent,
    after: LoadAction,
)
    requires
        load_answers(before, event),
        load_step(params, force_reload, event, after),
    ensures
        0 <= load_rank(after) < load_rank(before),
        after == LoadAction::Done(Ok(())) ==> (event matches LoadEvent::Polled { loaded, .. }
            && loaded) || event == LoadEvent::LastCheck(true),
{
}

/// Whether an event reports the end of an action.
pub open spec fn unload_answers(action: UnloadAction, event: UnloadEvent) -> bool {
    match action {
        UnloadAction::Run => event is Ran,
        UnloadAction::Poll { attempt, .. } => event matches UnloadEvent::Polled { attempt: a, .. }
            && a == attempt,
        UnloadAction::Done(_) => false,
    }
}

/// How many actions can follow, this one included.
pub open spec fn unload_rank(action: UnloadAction) -> int {
    match action {
        UnloadAction::Run => POLLS + 1,
        UnloadAction::Poll { attempt, .. } => if attempt < POLLS {
            POLLS - attempt
        } else {
            1
        },
        UnloadAction::Done(_) => 0,
    }
}

/// Unloading the module comes to an end, and reports success only after the
/// module was seen gone.
pub proof fn law_unload_ends(before: UnloadAction, event: UnloadEvent, after: UnloadAction)
    requires
        unload_answers(before, event),
        unload_step(event, after),
    ensures
        0 <= unload_rank(after) < unload_rank(before),
        after == UnloadAction::Done(Ok(())) ==> (event matches UnloadEvent::Polled { loaded, .. }
            && !loaded),
{
}

/// A command that succeeded is no error. Without `pkexec` there is an error of its own;
/// a failed command is taken for a missing package exactly when it says so, and is
/// reported with its exit code and what it printed, without the white space around it.
pub proof fn law_command_errors(
    e: ModuleError,
    what: Seq<char>,
    code: Option<i32>,
    stderr: String,
    why: String,
)
    ensures
        !is_command_error(e, what, CommandOutcome::Succeeded),
        is_command_error(e, what, CommandOutcome::NotFound) <==> e
            == ModuleError::PkexecNotAvailable,
        is_command_error(e, what, CommandOutcome::NotRun(why)) <==> (e matches
            ModuleError::LoadFailed { reason } && reason@ == why@),
        is_command_error(e, what, CommandOutcome::Failed { code, stderr }) ==> (e is NotInstalled
            <==> crate::text::occurs(stderr@, "v4l2loopback not found"@)),
        is_command_error(e, what, CommandOutcome::Failed { code, stderr }) ==> (e is NotInstalled
            || e is LoadFailed),
        is_command_error(e, what, CommandOutcome::Failed { code, stderr }) ==> e.text()
            == "module load failed: "@ + (what + " failed (exit "@ + code_text(code) + "): "@
            + crate::text::trimmed(stderr@)),
        code_text(None) == "None"@,
        code matches Some(n) ==> code_text(code) == "Some("@ + crate::text::signed_digits(n as int)
            + ")"@,
{
}

/// Unloading runs the command only where the module is loaded, and only once; then it
/// looks up to fifty times, a tenth of a second apart, until the module is gone, and
/// gives up after that.
pub proof fn law_unload_step_by_step(
    outcome: CommandOutcome,
    attempt: u32,
    action: UnloadAction,
)
    ensures
        unload_step(UnloadEvent::Checked(false), action) <==> action == UnloadAction::Done(Ok(())),
        unload_step(UnloadEvent::Checked(true), action) <==> action is Run,
        outcome is Succeeded ==> (unload_step(UnloadEvent::Ran(outcome), action) <==> action == (
        UnloadAction::Poll { attempt: 0, wait_ms: 0 })),
        !(outcome is Succeeded) && unload_step(UnloadEvent::Ran(outcome), action) ==> (action matches
            UnloadAction::Done(r) && r is Err),
        unload_step(UnloadEvent::Polled { attempt, loaded: false }, action) <==> action
            == UnloadAction::Done(Ok(())),
        attempt < 49 ==> (unload_step(UnloadEvent::Polled { attempt, loaded: true }, action)
            <==> action == (UnloadAction::Poll { attempt: (attempt + 1) as u32, wait_ms: 100 })),
        attempt >= 49 && unload_step(UnloadEvent::Polled { attempt, loaded: true }, action) ==> (
        action matches UnloadAction::Done(r) && (r matches Err(e) && e is LoadFailed)),
{
}

/// Loading runs the command with the words of the parameters: at once where the module
/// is not loaded, and a fifth of a second after it was unloaded where a reload is forced.
/// Then it looks up to fifty times, a tenth of a second apart, until the module and a
/// device are there, and a last time for the module alone.
pub proof fn law_load_step_by_step(
    params: Seq<char>,
    force_reload: bool,
    outcome: CommandOutcome,
    attempt: u32,
    loaded: bool,
    devices: usize,
    e: ModuleError,
    action: LoadAction,
)
    ensures
        load_step(params, force_reload, LoadEvent::Checked(false), action) <==> (action matches
            LoadAction::Run { args, wait_ms } && wait_ms == 0 && crate::text::texts(args@)
            == crate::text::words_of(params)),
        load_step(params, true, LoadEvent::Checked(true), action) <==> action is Unload,
        load_step(params, false, LoadEvent::Checked(true), action) <==> action == LoadAction::Done(
            Ok(()),
        ),
        load_step(params, force_reload, LoadEvent::Unloaded(Ok(())), action) <==> (action matches
            LoadAction::Run { args, wait_ms } && wait_ms == 200 && crate::text::texts(args@)
            == crate::text::words_of(params)),
        load_step(params, force_reload, LoadEvent::Unloaded(Err(e)), action) <==> action
            == LoadAction::Done(Err(e)),
        outcome is Succeeded ==> (load_step(params, force_reload, LoadEvent::Ran(outcome), action)
            <==> action == (LoadAction::Poll { attempt: 0, wait_ms: 0 })),
        !(outcome is Succeeded) && load_step(params, force_reload, LoadEvent::Ran(outcome), action)
            ==> (action matches LoadAction::Done(r) && r is Err),
        ({
            let event = LoadEvent::Polled { attempt, loaded, devices };
            &&& load_step(params, force_reload, event, LoadAction::Done(Ok(()))) <==> loaded
                && devices > 0
            &&& !(loaded && devices > 0) && attempt < 49 ==> (load_step(
                params,
                force_reload,
                event,
                action,
            ) <==> action == (LoadAction::Poll { attempt: (attempt + 1) as u32, wait_ms: 100 }))
            &&& !(loaded && devices > 0) && attempt >= 49 ==> (load_step(
                params,
                force_reload,
                event,
                action,
            ) <==> action == (LoadAction::CheckOnce { wait_ms: 100 }))
        }),
        load_step(params, force_reload, LoadEvent::LastCheck(true), action) <==> action
            == LoadAction::Done(Ok(())),
        load_step(params, force_reload, LoadEvent::LastCheck(false), action) ==> (action matches
            LoadAction::Done(r) && (r matches Err(e) && e is LoadFailed)),
{
}

} // verus!
