//! Termination status of a reaped child process, and the outcome of
//! delivering a signal to a process.

use vstd::prelude::*;
use vstd::string::StringSliceAdditionalSpecFns;
use crate::bytes::{dec_int, push_dec_i32, push_lit};

verus! {

/// How a child process ended: a normal exit with a code, or death by a
/// signal.  Both carry the PID of the child that was reaped.
#[derive(Copy, Clone, Debug, PartialEq, Eq, Structural)]
pub enum TerminationStatus {
    Exited(i32, i32),
    Signaled(i32, i32),
}

/// Outcome of delivering a signal: accepted by the kernel, or the target
/// process was already gone.
#[derive(Copy, Clone, Debug, PartialEq, Eq, Structural)]
pub enum KillResult {
    Delivered,
    ProcessNotFound,
}

/// The conventional name of a Linux signal number in the standard range.
pub open spec fn standard_signal_name(sig: int) -> Seq<u8> {
    if sig == 1 { "SIGHUP".spec_bytes() } else if sig == 2 { "SIGINT".spec_bytes() } else if sig == 3 { "SIGQUIT".spec_bytes() }
    else if sig == 4 { "SIGILL".spec_bytes() } else if sig == 5 { "SIGTRAP".spec_bytes() } else if sig == 6 { "SIGABRT".spec_bytes() }
    else if sig == 7 { "SIGBUS".spec_bytes() } else if sig == 8 { "SIGFPE".spec_bytes() } else if sig == 9 { "SIGKILL".spec_bytes() }
    else if sig == 10 { "SIGUSR1".spec_bytes() } else if sig == 11 { "SIGSEGV".spec_bytes() } else if sig == 12 { "SIGUSR2".spec_bytes() }
    else if sig == 13 { "SIGPIPE".spec_bytes() } else if sig == 14 { "SIGALRM".spec_bytes() } else if sig == 15 { "SIGTERM".spec_bytes() }
    else if sig == 16 { "SIGSTKFLT".spec_bytes() } else if sig == 17 { "SIGCHLD".spec_bytes() } else if sig == 18 { "SIGCONT".spec_bytes() }
    else if sig == 19 { "SIGSTOP".spec_bytes() } else if sig == 20 { "SIGTSTP".spec_bytes() } else if sig == 21 { "SIGTTIN".spec_bytes() }
    else if sig == 22 { "SIGTTOU".spec_bytes() } else if sig == 23 { "SIGURG".spec_bytes() } else if sig == 24 { "SIGXCPU".spec_bytes() }
    else if sig == 25 { "SIGXFSZ".spec_bytes() } else if sig == 26 { "SIGVTALRM".spec_bytes() } else if sig == 27 { "SIGPROF".spec_bytes() }
    else if sig == 28 { "SIGWINCH".spec_bytes() } else if sig == 29 { "SIGIO".spec_bytes() } else if sig == 30 { "SIGPWR".spec_bytes() }
    else if sig == 31 { "SIGSYS".spec_bytes() } else { "SIG".spec_bytes() }
}

/// Name of a Linux signal as bytes; numbers outside 1..=31 render as
/// `SIG` followed by the number in decimal.
pub open spec fn signal_name_bytes(sig: int) -> Seq<u8> {
    if 1 <= sig <= 31 {
        standard_signal_name(sig)
    } else {
        "SIG".spec_bytes() + dec_int(sig)
    }
}

/// Renders the conventional name of a signal number.
pub fn signal_name(sig: i32) -> (r: Vec<u8>)
    ensures
        r@ == signal_name_bytes(sig as int),
{
    let mut out: Vec<u8> = Vec::new();
    if sig == 1 { push_lit(&mut out, "SIGHUP"); } else if sig == 2 { push_lit(&mut out, "SIGINT"); }
    else if sig == 3 { push_lit(&mut out, "SIGQUIT"); } else if sig == 4 { push_lit(&mut out, "SIGILL"); }
    else if sig == 5 { push_lit(&mut out, "SIGTRAP"); } else if sig == 6 { push_lit(&mut out, "SIGABRT"); }
    else if sig == 7 { push_lit(&mut out, "SIGBUS"); } else if sig == 8 { push_lit(&mut out, "SIGFPE"); }
    else if sig == 9 { push_lit(&mut out, "SIGKILL"); } else if sig == 10 { push_lit(&mut out, "SIGUSR1"); }
    else if sig == 11 { push_lit(&mut out, "SIGSEGV"); } else if sig == 12 { push_lit(&mut out, "SIGUSR2"); }
    else if sig == 13 { push_lit(&mut out, "SIGPIPE"); } else if sig == 14 { push_lit(&mut out, "SIGALRM"); }
    else if sig == 15 { push_lit(&mut out, "SIGTERM"); } else if sig == 16 { push_lit(&mut out, "SIGSTKFLT"); }
    else if sig == 17 { push_lit(&mut out, "SIGCHLD"); } else if sig == 18 { push_lit(&mut out, "SIGCONT"); }
    else if sig == 19 { push_lit(&mut out, "SIGSTOP"); } else if sig == 20 { push_lit(&mut out, "SIGTSTP"); }
    else if sig == 21 { push_lit(&mut out, "SIGTTIN"); } else if sig == 22 { push_lit(&mut out, "SIGTTOU"); }
    else if sig == 23 { push_lit(&mut out, "SIGURG"); } else if sig == 24 { push_lit(&mut out, "SIGXCPU"); }
    else if sig == 25 { push_lit(&mut out, "SIGXFSZ"); } else if sig == 26 { push_lit(&mut out, "SIGVTALRM"); }
    else if sig == 27 { push_lit(&mut out, "SIGPROF"); } else if sig == 28 { push_lit(&mut out, "SIGWINCH"); }
    else if sig == 29 { push_lit(&mut out, "SIGIO"); } else if sig == 30 { push_lit(&mut out, "SIGPWR"); }
    else if sig == 31 { push_lit(&mut out, "SIGSYS"); } else {
        push_lit(&mut out, "SIG");
        push_dec_i32(&mut out, sig);
    }
    assert(out@ =~= signal_name_bytes(sig as int));
    out
}

/// Human-readable description of a termination status.
pub open spec fn describe_status(s: TerminationStatus) -> Seq<u8> {
    match s {
        TerminationStatus::Exited(_, code) => "Exited with code ".spec_bytes() + dec_int(
            code as int,
        ),
        TerminationStatus::Signaled(_, sig) => "Received signal ".spec_bytes()
            + signal_name_bytes(sig as int),
    }
}

impl TerminationStatus {
    /// The PID of the reaped child.
    pub open spec fn pid_spec(self) -> int {
        match self {
            TerminationStatus::Exited(pid, _) => pid as int,
            TerminationStatus::Signaled(pid, _) => pid as int,
        }
    }

    /// The PID of the reaped child.
    pub fn pid(&self) -> (r: i32)
        ensures
            r as int == self.pid_spec(),
    {
        match self {
            TerminationStatus::Exited(pid, _) => *pid,
            TerminationStatus::Signaled(pid, _) => *pid,
        }
    }

    /// The exit code, when the child exited normally.
    pub fn exit_code(&self) -> (r: Option<i32>)
        ensures
            r == (match *self {
                TerminationStatus::Exited(_, c) => Some(c),
                TerminationStatus::Signaled(_, _) => None,
            }),
    {
        match self {
            TerminationStatus::Exited(_, code) => Some(*code),
            TerminationStatus::Signaled(_, _) => None,
        }
    }

    /// Whether the child exited normally with the given code.
    pub fn exited_with_code(&self, expected: i32) -> (r: bool)
        ensures
            r <==> (self matches TerminationStatus::Exited(_, c) && c == expected),
    {
        match self {
            TerminationStatus::Exited(_, code) => *code == expected,
            TerminationStatus::Signaled(_, _) => false,
        }
    }

    /// Renders the status in words: `Exited with code <c>` or
    /// `Received signal <name>`.
    pub fn describe(&self) -> (r: Vec<u8>)
        ensures
            r@ == describe_status(*self),
    {
        let mut out: Vec<u8> = Vec::new();
        match self {
            TerminationStatus::Exited(_, code) => {
                push_lit(&mut out, "Exited with code ");
                push_dec_i32(&mut out, *code);
            },
            TerminationStatus::Signaled(_, sig) => {
                push_lit(&mut out, "Received signal ");
                let name = signal_name(*sig);
                crate::bytes::push_all(&mut out, &name);
            },
        }
        out
    }
}

} // verus!
