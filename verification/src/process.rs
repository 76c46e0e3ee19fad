//! Reaping children and delivering signals, through `nix`.
//!
//! The syscalls observe and change the state of other processes, so
//! nothing can be promised of their outcomes; each wrapper hands every
//! outcome back as a plain value, and a verified function with an exact
//! contract classifies it.

use vstd::prelude::*;
use crate::status::{KillResult, TerminationStatus};

verus! {

/// The errno for a process that does not exist.
pub const ESRCH: i32 = 3;

/// One observation from a non-blocking wait for any child: a child
/// ended, something non-terminal happened, no child was reapable, no
/// child is left, or the wait itself failed.
#[derive(Copy, Clone, Debug, PartialEq, Eq, Structural)]
pub enum WaitEvent {
    Exited(i32, i32),
    Signaled(i32, i32),
    Other,
    NoChildren,
    Failed(i32),
}

/// Relies on nix's `waitpid` with `WNOHANG` on pid -1: each variant of
/// the returned `WaitStatus` is passed through as a plain value, with
/// every non-terminal state change collapsed to `Other`; `ECHILD`
/// becomes `NoChildren`; any other failure carries its errno.
#[verifier::external_body]
fn wait_any_nohang() -> (r: WaitEvent)
{
    match nix::sys::wait::waitpid(
        nix::unistd::Pid::from_raw(-1),
        Some(nix::sys::wait::WaitPidFlag::WNOHANG),
    ) {
        Ok(nix::sys::wait::WaitStatus::Exited(pid, code)) => WaitEvent::Exited(pid.as_raw(), code),
        Ok(nix::sys::wait::WaitStatus::Signaled(pid, sig, _)) => WaitEvent::Signaled(
            pid.as_raw(),
            sig as i32,
        ),
        Ok(_) => WaitEvent::Other,
        Err(nix::errno::Errno::ECHILD) => WaitEvent::NoChildren,
        Err(e) => WaitEvent::Failed(e as i32),
    }
}

/// What one wait observation means to the reapers: a termination status
/// to record, nothing to record, or a fault with its errno.
pub open spec fn wait_outcome(e: WaitEvent) -> Result<Option<TerminationStatus>, i32> {
    match e {
        WaitEvent::Exited(pid, code) => Ok(Some(TerminationStatus::Exited(pid, code))),
        WaitEvent::Signaled(pid, sig) => Ok(Some(TerminationStatus::Signaled(pid, sig))),
        WaitEvent::Other => Ok(None),
        WaitEvent::NoChildren => Ok(None),
        WaitEvent::Failed(errno) => Err(errno),
    }
}

/// Classifies one wait observation: a reaped child becomes its
/// termination status, a non-terminal state change and an empty nursery
/// both mean nothing to record, and any other failure surfaces.
pub fn classify_wait(e: WaitEvent) -> (r: Result<Option<TerminationStatus>, i32>)
    ensures
        r == wait_outcome(e),
{
    match e {
        WaitEvent::Exited(pid, code) => Ok(Some(TerminationStatus::Exited(pid, code))),
        WaitEvent::Signaled(pid, sig) => Ok(Some(TerminationStatus::Signaled(pid, sig))),
        WaitEvent::Other => Ok(None),
        WaitEvent::NoChildren => Ok(None),
        WaitEvent::Failed(errno) => Err(errno),
    }
}

/// Reaps one immediately-reapable child, if any: `Ok(None)` when
/// nothing is to be recorded, the errno of an unexpected wait failure
/// otherwise.
pub fn get_child_termination_status() -> (r: Result<Option<TerminationStatus>, i32>)
    ensures
        exists|e: WaitEvent| r == wait_outcome(e),
{
    let e = wait_any_nohang();
    let r = classify_wait(e);
    proof {
        assert(r == wait_outcome(e));
    }
    r
}

/// The result of delivering a signal, given what the kernel said:
/// `ESRCH` means the process was already gone, any other failure
/// surfaces as its errno.
pub open spec fn kill_outcome(r0: Result<(), i32>) -> Result<KillResult, i32> {
    match r0 {
        Ok(_) => Ok(KillResult::Delivered),
        Err(e) => if e == ESRCH {
            Ok(KillResult::ProcessNotFound)
        } else {
            Err(e)
        },
    }
}

/// Relies on nix's `kill` (and `Signal::try_from` for the number):
/// every failure, a bad signal number included, is handed back as its
/// errno.
#[verifier::external_body]
fn kill_raw(pid: i32, sig: i32) -> (r: Result<(), i32>)
{
    let signal = match nix::sys::signal::Signal::try_from(sig) {
        Ok(s) => s,
        Err(e) => return Err(e as i32),
    };
    match nix::sys::signal::kill(nix::unistd::Pid::from_raw(pid), signal) {
        Ok(()) => Ok(()),
        Err(e) => Err(e as i32),
    }
}

/// Classifies the kernel's answer to a signal delivery.
pub fn classify_kill(r0: Result<(), i32>) -> (r: Result<KillResult, i32>)
    ensures
        r == kill_outcome(r0),
{
    match r0 {
        Ok(_) => Ok(KillResult::Delivered),
        Err(e) => if e == ESRCH {
            Ok(KillResult::ProcessNotFound)
        } else {
            Err(e)
        },
    }
}

/// Delivers a signal to a process: delivered, already gone, or the
/// errno of any other failure.
pub fn kill(pid: i32, sig: i32) -> (r: Result<KillResult, i32>)
    ensures
        exists|r0: Result<(), i32>| r == kill_outcome(r0),
{
    let r0 = kill_raw(pid, sig);
    let r = classify_kill(r0);
    proof {
        assert(r == kill_outcome(r0));
    }
    r
}

/// Relies on nix's `prctl::set_child_subreaper`: asks the kernel to
/// reparent this process's orphaned descendants to it; a failure is
/// handed back as its errno.
#[verifier::external_body]
fn prctl_child_subreaper() -> (r: Result<(), i32>)
{
    match nix::sys::prctl::set_child_subreaper(true) {
        Ok(()) => Ok(()),
        Err(e) => Err(e as i32),
    }
}

/// Marks this process as a child subreaper, so that descendants the
/// runtime abandons are reparented here and their deaths arrive as
/// SIGCHLD.
pub fn set_child_subreaper() -> (r: Result<(), i32>)
{
    prctl_child_subreaper()
}

} // verus!
