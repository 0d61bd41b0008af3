//! The course of a patch operation on installed files: close the processes
//! that hold them, patch, and after "access denied" close them once more and
//! patch a second and last time.
//!
//! The front end performs each command and reports what came of it; this
//! step function decides what follows.

use vstd::prelude::*;
use vstd::string::StringExecFns;
use crate::install::strings_view;
use crate::ops::{
    closed_line, group_names, lines_of_strings, require_closed, retry_lines, spec_closed_line, spec_retry_lines,
    spec_still_running, ProcessGroup,
};

verus! {

/// How a patch treats the processes that may hold its files.
#[derive(Debug, Clone, Copy, PartialEq, Eq, Structural)]
pub enum CloseMode {
    /// They must be gone: the patch is refused while any still runs.
    Required,
    /// They are closed if allowed; the patch goes ahead either way.
    BestEffort,
}

/// Where a patch operation stands.
#[derive(Debug, Clone, Copy, PartialEq, Eq, Structural)]
pub enum Phase {
    Start,
    Closing,
    FirstTry,
    RetryClosing,
    SecondTry,
    Finished,
}

/// A patch operation: its process group, how it treats the processes, whether
/// the user forbade closing them, and its phase.
#[derive(Debug, Clone, Copy, PartialEq, Eq, Structural)]
pub struct PatchRun {
    pub group: ProcessGroup,
    pub close: CloseMode,
    pub no_kill: bool,
    pub phase: Phase,
}

/// What came of one patch attempt.
pub enum Attempt {
    Succeeded,
    /// Windows refused access to a file; the text describes the error.
    AccessDenied(String),
    Failed(String),
}

/// What the front end reports.
pub enum PatchEvent {
    /// The operation is starting.
    Begin,
    /// Processes were closed (`.0` of them) and these still run (`.1`).
    Closed(usize, Vec<String>),
    /// The patch was attempted.
    Tried(Attempt),
}

/// How the group's processes are closed.
#[derive(Debug, Clone, Copy, PartialEq, Eq, Structural)]
pub enum CloseHow {
    /// Only list those that run; close none.
    ListOnly,
    /// Ask them to close, without waiting.
    Kill,
    /// Close them and wait until they are gone, then list those left.
    KillAndWait,
}

/// What the front end does next.
pub enum PatchCommand {
    /// Close the group's processes as told.
    CloseApps(CloseHow),
    /// Attempt the patch.
    Patch,
    /// The operation succeeded.
    Succeed,
    /// The operation failed with this text.
    Fail(String),
}

/// The event is the report of the command that the phase waits for.
pub open spec fn event_fits(phase: Phase, ev: &PatchEvent) -> bool {
    match phase {
        Phase::Start => ev is Begin,
        Phase::Closing | Phase::RetryClosing => ev is Closed,
        Phase::FirstTry | Phase::SecondTry => ev is Tried,
        Phase::Finished => false,
    }
}

/// Whether `ev` may be reported in `phase`.
pub fn fits(phase: Phase, ev: &PatchEvent) -> (r: bool)
    ensures
        r == event_fits(phase, ev),
{
    match phase {
        Phase::Start => match ev {
            PatchEvent::Begin => true,
            _ => false,
        },
        Phase::Closing | Phase::RetryClosing => match ev {
            PatchEvent::Closed(_, _) => true,
            _ => false,
        },
        Phase::FirstTry | Phase::SecondTry => match ev {
            PatchEvent::Tried(_) => true,
            _ => false,
        },
        Phase::Finished => false,
    }
}

/// A new operation.
pub fn patch_run(group: ProcessGroup, close: CloseMode, no_kill: bool) -> (r: PatchRun)
    ensures
        r == (PatchRun { group, close, no_kill, phase: Phase::Start }),
{
    PatchRun { group, close, no_kill, phase: Phase::Start }
}

/// The line view of an optional line.
pub open spec fn opt_lines(l: Option<Seq<char>>) -> Seq<Seq<char>> {
    match l {
        Some(x) => seq![x],
        None => Seq::empty(),
    }
}

/// One step of a patch operation, with the lines it logs:
/// - at the start, processes are closed (a best-effort close does not wait
///   for them), except that a best-effort patch
///   the user forbade to close them goes straight to the patch; a required
///   close only lists them when closing is forbidden;
/// - after the close, a required close refuses the patch while any process
///   still runs, and the patch is never attempted; else it is attempted;
/// - a first attempt that meets "access denied" closes the processes (always
///   waiting for them) and is retried once; any other failure ends it;
/// - the second attempt's result is final.
pub fn patch_step(run: PatchRun, log: &mut Vec<String>, ev: PatchEvent) -> (r: (PatchRun, PatchCommand))
    requires
        event_fits(run.phase, &ev),
    ensures
        r.0.group == run.group && r.0.close == run.close && r.0.no_kill == run.no_kill,
        run.phase == Phase::Start ==> {
            &&& lines_of_strings(final(log)@) == lines_of_strings(old(log)@)
            &&& if run.close == CloseMode::BestEffort && run.no_kill {
                r.0.phase == Phase::FirstTry && r.1 is Patch
            } else {
                r.0.phase == Phase::Closing && (r.1 matches PatchCommand::CloseApps(how) && how == (if run.close
                    == CloseMode::BestEffort {
                    CloseHow::Kill
                } else if run.no_kill {
                    CloseHow::ListOnly
                } else {
                    CloseHow::KillAndWait
                }))
            }
        },
        run.phase == Phase::Closing ==> (ev matches PatchEvent::Closed(n, running) && {
            &&& lines_of_strings(final(log)@) == lines_of_strings(old(log)@) + opt_lines(
                spec_closed_line(n as nat, group_names(run.group)),
            )
            &&& if run.close == CloseMode::Required && running@.len() > 0 {
                r.0.phase == Phase::Finished && (r.1 matches PatchCommand::Fail(m) && m@ == spec_still_running(
                    strings_view(running@),
                ))
            } else {
                r.0.phase == Phase::FirstTry && r.1 is Patch
            }
        }),
        run.phase == Phase::FirstTry ==> (ev matches PatchEvent::Tried(a) && {
            &&& lines_of_strings(final(log)@) == lines_of_strings(old(log)@)
            &&& match a {
                Attempt::Succeeded => r.0.phase == Phase::Finished && r.1 is Succeed,
                Attempt::AccessDenied(_) => r.0.phase == Phase::RetryClosing && (r.1 matches PatchCommand::CloseApps(how)
                    && how == CloseHow::KillAndWait),
                Attempt::Failed(e) => r.0.phase == Phase::Finished && (r.1 matches PatchCommand::Fail(m) && m@ == e@),
            }
        }),
        run.phase == Phase::RetryClosing ==> (ev matches PatchEvent::Closed(n, running) && {
            &&& lines_of_strings(final(log)@) == lines_of_strings(old(log)@) + spec_retry_lines(
                group_names(run.group),
                n as nat,
                strings_view(running@),
            )
            &&& r.0.phase == Phase::SecondTry && r.1 is Patch
        }),
        run.phase == Phase::SecondTry ==> (ev matches PatchEvent::Tried(a) && {
            &&& lines_of_strings(final(log)@) == lines_of_strings(old(log)@)
            &&& r.0.phase == Phase::Finished
            &&& match a {
                Attempt::Succeeded => r.1 is Succeed,
                Attempt::AccessDenied(e) => r.1 matches PatchCommand::Fail(m) && m@ == e@,
                Attempt::Failed(e) => r.1 matches PatchCommand::Fail(m) && m@ == e@,
            }
        }),
{
    let mut next = run;
    match run.phase {
        Phase::Start => {
            if run.close == CloseMode::BestEffort && run.no_kill {
                next.phase = Phase::FirstTry;
                (next, PatchCommand::Patch)
            } else {
                next.phase = Phase::Closing;
                let how = if run.close == CloseMode::BestEffort {
                    CloseHow::Kill
                } else if run.no_kill {
                    CloseHow::ListOnly
                } else {
                    CloseHow::KillAndWait
                };
                (next, PatchCommand::CloseApps(how))
            }
        },
        Phase::Closing => match ev {
            PatchEvent::Closed(n, running) => {
                let ghost before = lines_of_strings(log@);
                match closed_line(n, run.group) {
                    Some(l) => log.push(l),
                    None => {},
                }
                assert(lines_of_strings(log@) =~= before + opt_lines(spec_closed_line(n as nat, group_names(run.group))));
                if run.close == CloseMode::Required {
                    match require_closed(&running) {
                        Err(m) => {
                            next.phase = Phase::Finished;
                            return (next, PatchCommand::Fail(m));
                        },
                        Ok(()) => {},
                    }
                }
                next.phase = Phase::FirstTry;
                (next, PatchCommand::Patch)
            },
            _ => (next, PatchCommand::Patch),
        },
        Phase::FirstTry => match ev {
            PatchEvent::Tried(a) => match a {
                Attempt::Succeeded => {
                    next.phase = Phase::Finished;
                    (next, PatchCommand::Succeed)
                },
                Attempt::AccessDenied(_) => {
                    next.phase = Phase::RetryClosing;
                    (next, PatchCommand::CloseApps(CloseHow::KillAndWait))
                },
                Attempt::Failed(e) => {
                    next.phase = Phase::Finished;
                    (next, PatchCommand::Fail(e))
                },
            },
            _ => (next, PatchCommand::Patch),
        },
        Phase::RetryClosing => match ev {
            PatchEvent::Closed(n, running) => {
                retry_lines(log, run.group, n, &running);
                next.phase = Phase::SecondTry;
                (next, PatchCommand::Patch)
            },
            _ => (next, PatchCommand::Patch),
        },
        Phase::SecondTry => match ev {
            PatchEvent::Tried(a) => {
                next.phase = Phase::Finished;
                match a {
                    Attempt::Succeeded => (next, PatchCommand::Succeed),
                    Attempt::AccessDenied(e) => (next, PatchCommand::Fail(e)),
                    Attempt::Failed(e) => (next, PatchCommand::Fail(e)),
                }
            },
            _ => (next, PatchCommand::Patch),
        },
        Phase::Finished => (next, PatchCommand::Succeed),
    }
}

/// What the audio operation does once its patch ran: nothing more when the
/// patch failed, else the route action of the mode and option.
pub fn audio_route_after_patch(patched: bool, mode: crate::ops::BroadcastMode, no_wifi_local_route: bool) -> (r: Option<crate::ops::RouteAction>)
    ensures
        !patched ==> r is None,
        patched ==> (r matches Some(a) && (
            (mode == crate::ops::BroadcastMode::Wireless && !no_wifi_local_route ==> a == crate::ops::RouteAction::Apply)
            && (mode == crate::ops::BroadcastMode::Wireless && no_wifi_local_route ==> a == crate::ops::RouteAction::Leave)
            && (mode == crate::ops::BroadcastMode::Wired ==> a == crate::ops::RouteAction::Revert))),
{
    if !patched {
        return None;
    }
    Some(crate::ops::route_action(mode, no_wifi_local_route))
}

} // verus!
