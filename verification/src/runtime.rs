//! The runtime-wait phase: the shim has forked the runtime helper and
//! waits for it to exit, reaping children and forwarding termination
//! signals as they arrive on the signal descriptor.
//!
//! The loop around the signal descriptor performs I/O; each decision it
//! takes is a function here, from the phase's state and one event to the
//! next state.

use vstd::prelude::*;
use vstd::string::StringSliceAdditionalSpecFns;
use crate::bytes::{push_all, push_lit};
use crate::status::{describe_status, KillResult, TerminationStatus};

verus! {

pub const SIGINT: i32 = 2;
pub const SIGQUIT: i32 = 3;
pub const SIGTERM: i32 = 15;
pub const SIGCHLD: i32 = 17;

/// What the supervision window produced: only the runtime was reaped, or
/// the container fell with it.  Either form carries a termination signal
/// that arrived after the runtime was already gone and is still owed to
/// the container.
#[derive(Copy, Clone, Debug)]
pub enum RuntimeOutcome {
    Solitary(TerminationStatus, Option<i32>),
    Conjoint(TerminationStatus, TerminationStatus, Option<i32>),
}

/// Human-readable description of a runtime outcome, as reported to the
/// manager on abnormal termination.
pub open spec fn describe_outcome(o: RuntimeOutcome) -> Seq<u8> {
    match o {
        RuntimeOutcome::Solitary(rt, None) => "Runtime ".spec_bytes() + describe_status(rt)
            + ".".spec_bytes(),
        RuntimeOutcome::Solitary(rt, Some(sig)) => "Runtime ".spec_bytes() + describe_status(rt)
            + ". Beware: inflight ".spec_bytes() + crate::status::signal_name_bytes(
            sig as int,
        ) + " detected.".spec_bytes(),
        RuntimeOutcome::Conjoint(rt, ct, None) => "Runtime ".spec_bytes() + describe_status(rt)
            + ". Container ".spec_bytes() + describe_status(ct) + ".".spec_bytes(),
        RuntimeOutcome::Conjoint(rt, ct, Some(sig)) => "Runtime ".spec_bytes() + describe_status(
            rt,
        ) + ". Container ".spec_bytes() + describe_status(ct)
            + ". Beware: inflight ".spec_bytes() + crate::status::signal_name_bytes(
            sig as int,
        ) + " detected.".spec_bytes(),
    }
}

impl RuntimeOutcome {
    /// Solitary when no container status was observed in the window,
    /// conjoint when one was.
    pub fn new(
        runtime: TerminationStatus,
        container: Option<TerminationStatus>,
        inflight: Option<i32>,
    ) -> (r: RuntimeOutcome)
        ensures
            r == (match container {
                None => RuntimeOutcome::Solitary(runtime, inflight),
                Some(ct) => RuntimeOutcome::Conjoint(runtime, ct, inflight),
            }),
    {
        match container {
            None => RuntimeOutcome::Solitary(runtime, inflight),
            Some(ct) => RuntimeOutcome::Conjoint(runtime, ct, inflight),
        }
    }

    /// The shim serves the container only when the runtime alone was
    /// reaped and it exited with code zero.
    pub fn should_serve(&self) -> (r: bool)
        ensures
            r <==> (self matches RuntimeOutcome::Solitary(rt, _)
                && rt matches TerminationStatus::Exited(_, c) && c == 0),
    {
        match self {
            RuntimeOutcome::Solitary(TerminationStatus::Exited(_, code), _) => *code == 0,
            _ => false,
        }
    }

    /// The termination signal still owed to the container, if any.
    pub fn inflight(&self) -> (r: Option<i32>)
        ensures
            r == (match *self {
                RuntimeOutcome::Solitary(_, inflight) => inflight,
                RuntimeOutcome::Conjoint(_, _, inflight) => inflight,
            }),
    {
        match self {
            RuntimeOutcome::Solitary(_, inflight) => *inflight,
            RuntimeOutcome::Conjoint(_, _, inflight) => *inflight,
        }
    }

    /// The sync-pipe message reporting this outcome as an abnormal
    /// runtime termination, with the bytes read from the runtime's
    /// stderr.
    pub fn abnormal_message(&self, stderr: &Vec<u8>) -> (r: Vec<u8>)
        ensures
            r@ == crate::json::msg_abnormal_termination(describe_outcome(*self), stderr@),
    {
        let described = self.describe();
        crate::json::message_abnormal_termination(&described, stderr)
    }

    /// Renders the outcome in words: `Runtime <status>.`, with the
    /// container's status and the inflight signal appended when present.
    pub fn describe(&self) -> (r: Vec<u8>)
        ensures
            r@ == describe_outcome(*self),
    {
        let mut out: Vec<u8> = Vec::new();
        push_lit(&mut out, "Runtime ");
        match self {
            RuntimeOutcome::Solitary(rt, inflight) => {
                let d = rt.describe();
                push_all(&mut out, &d);
                match inflight {
                    None => push_lit(&mut out, "."),
                    Some(sig) => {
                        push_lit(&mut out, ". Beware: inflight ");
                        let name = crate::status::signal_name(*sig);
                        push_all(&mut out, &name);
                        push_lit(&mut out, " detected.");
                    },
                }
            },
            RuntimeOutcome::Conjoint(rt, ct, inflight) => {
                let d = rt.describe();
                push_all(&mut out, &d);
                push_lit(&mut out, ". Container ");
                let dc = ct.describe();
                push_all(&mut out, &dc);
                match inflight {
                    None => push_lit(&mut out, "."),
                    Some(sig) => {
                        push_lit(&mut out, ". Beware: inflight ");
                        let name = crate::status::signal_name(*sig);
                        push_all(&mut out, &name);
                        push_lit(&mut out, " detected.");
                    },
                }
            },
        }
        assert(out@ =~= describe_outcome(*self));
        out
    }
}

/// A reap observation that cannot happen in one supervision window: the
/// kernel reports each child's death exactly once, so a second status for
/// the runtime, or for the container, is a fault.
#[derive(Copy, Clone, Debug, PartialEq, Eq, Structural)]
pub enum ReapError {
    AmbiguousRuntimeStatus,
    AmbiguousContainerStatus,
}

/// Partition of a batch of reaped statuses into the runtime's and the
/// container's, at most one of each.
pub open spec fn partition_spec(runtime_pid: int, reaped: Seq<TerminationStatus>) -> Result<
    (Option<TerminationStatus>, Option<TerminationStatus>),
    ReapError,
>
    decreases reaped.len(),
{
    if reaped.len() == 0 {
        Ok((None, None))
    } else {
        match partition_spec(runtime_pid, reaped.drop_last()) {
            Err(e) => Err(e),
            Ok((rt, ct)) => {
                let st = reaped.last();
                if st.pid_spec() == runtime_pid {
                    if rt is Some {
                        Err(ReapError::AmbiguousRuntimeStatus)
                    } else {
                        Ok((Some(st), ct))
                    }
                } else {
                    if ct is Some {
                        Err(ReapError::AmbiguousContainerStatus)
                    } else {
                        Ok((rt, Some(st)))
                    }
                }
            },
        }
    }
}

/// Law: a batch that partitions cleanly reaped each side at most once —
/// no PID's termination status is recorded twice in one window, and the
/// partition holds a runtime or container status exactly when the batch
/// holds one.
pub proof fn lemma_partition_at_most_one(runtime_pid: int, s: Seq<TerminationStatus>)
    requires
        partition_spec(runtime_pid, s) is Ok,
    ensures
        forall|i: int, j: int|
            0 <= i < j < s.len() ==> !(#[trigger] s[i].pid_spec() == runtime_pid
                && #[trigger] s[j].pid_spec() == runtime_pid),
        forall|i: int, j: int|
            0 <= i < j < s.len() ==> !(s[i].pid_spec() != runtime_pid && s[j].pid_spec()
                != runtime_pid),
        partition_spec(runtime_pid, s) matches Ok((rt, ct)) ==> ((rt is Some <==> exists|i: int|
            0 <= i < s.len() && #[trigger] s[i].pid_spec() == runtime_pid) && (ct is Some
            <==> exists|i: int| 0 <= i < s.len() && #[trigger] s[i].pid_spec() != runtime_pid)),
    decreases s.len(),
{
    if s.len() > 0 {
        let d = s.drop_last();
        let last = s.last();
        assert(partition_spec(runtime_pid, d) is Ok);
        lemma_partition_at_most_one(runtime_pid, d);
        assert(forall|i: int| 0 <= i < d.len() ==> d[i] == s[i]);
        let (rt_d, ct_d) = partition_spec(runtime_pid, d)->Ok_0;
        if last.pid_spec() == runtime_pid {
            assert(rt_d is None);
            assert forall|i: int, j: int|
                0 <= i < j < s.len() implies !(#[trigger] s[i].pid_spec() == runtime_pid
                && #[trigger] s[j].pid_spec() == runtime_pid) by {
                if j == s.len() - 1 && s[i].pid_spec() == runtime_pid {
                    assert(d[i].pid_spec() == runtime_pid);
                    assert(rt_d is Some);
                }
            }
            assert(s[s.len() - 1].pid_spec() == runtime_pid);
        } else {
            assert(ct_d is None);
            assert forall|i: int, j: int|
                0 <= i < j < s.len() implies !(s[i].pid_spec() != runtime_pid && s[j].pid_spec()
                != runtime_pid) by {
                if j == s.len() - 1 && s[i].pid_spec() != runtime_pid {
                    assert(d[i].pid_spec() != runtime_pid);
                    assert(ct_d is Some);
                }
            }
            assert(s[s.len() - 1].pid_spec() != runtime_pid);
        }
    }
}

/// Once a prefix of the batch partitions to an error, the whole batch
/// partitions to that error.
proof fn lemma_partition_err_persists(runtime_pid: int, s: Seq<TerminationStatus>, j: int)
    requires
        0 <= j <= s.len(),
        partition_spec(runtime_pid, s.subrange(0, j)) is Err,
    ensures
        partition_spec(runtime_pid, s) == partition_spec(runtime_pid, s.subrange(0, j)),
    decreases s.len() - j,
{
    if j < s.len() {
        assert(s.subrange(0, j + 1).drop_last() =~= s.subrange(0, j));
        assert(s.subrange(0, j + 1).len() == j + 1);
        lemma_partition_err_persists(runtime_pid, s, j + 1);
    } else {
        assert(s.subrange(0, j) =~= s);
    }
}

/// Partitions one batch of reaped children into the runtime's status and
/// the container's.  A second status for either is an error, never kept.
pub fn partition_reaped(runtime_pid: i32, reaped: &Vec<TerminationStatus>) -> (r: Result<
    (Option<TerminationStatus>, Option<TerminationStatus>),
    ReapError,
>)
    ensures
        r == partition_spec(runtime_pid as int, reaped@),
{
    let mut runtime: Option<TerminationStatus> = None;
    let mut container: Option<TerminationStatus> = None;
    let mut i: usize = 0;
    proof {
        assert(reaped@.subrange(0, 0) =~= Seq::<TerminationStatus>::empty());
    }
    while i < reaped.len()
        invariant
            i <= reaped.len(),
            partition_spec(runtime_pid as int, reaped@.subrange(0, i as int)) == Ok::<
                _,
                ReapError,
            >((runtime, container)),
        decreases reaped.len() - i,
    {
        let ghost pre = reaped@.subrange(0, i as int);
        let st = reaped[i];
        proof {
            let p1 = reaped@.subrange(0, i as int + 1);
            assert(p1.drop_last() =~= pre);
            assert(p1.last() == st);
        }
        if st.pid() == runtime_pid {
            if runtime.is_some() {
                proof {
                    lemma_partition_err_persists(runtime_pid as int, reaped@, i as int + 1);
                }
                return Err(ReapError::AmbiguousRuntimeStatus);
            }
            runtime = Some(st);
        } else {
            if container.is_some() {
                proof {
                    lemma_partition_err_persists(runtime_pid as int, reaped@, i as int + 1);
                }
                return Err(ReapError::AmbiguousContainerStatus);
            }
            container = Some(st);
        }
        i = i + 1;
    }
    proof {
        assert(reaped@.subrange(0, i as int) =~= reaped@);
    }
    Ok((runtime, container))
}

/// State carried across the runtime-wait loop: a container status reaped
/// before the runtime's, and a termination signal that could no longer be
/// delivered to the runtime.
#[derive(Copy, Clone, Debug)]
pub struct AwaitState {
    pub container: Option<TerminationStatus>,
    pub inflight: Option<i32>,
}

impl AwaitState {
    /// The state at entry to the runtime-wait loop.
    pub fn initial() -> (r: AwaitState)
        ensures
            r.container is None,
            r.inflight is None,
    {
        AwaitState { container: None, inflight: None }
    }
}

/// What the runtime-wait loop does next: keep waiting, or leave with the
/// runtime's outcome.
#[derive(Copy, Clone, Debug)]
pub enum AwaitStep {
    Continue(AwaitState),
    Done(RuntimeOutcome),
}

/// How the loop classifies a signal read from the signal descriptor.
#[derive(Copy, Clone, Debug, PartialEq, Eq, Structural)]
pub enum SignalClass {
    Child,
    Termination,
    Unexpected,
}

/// Classifies a signal number as the loops dispatch it: child death,
/// a termination request to forward, or a signal that is a fault to see
/// on the blocked set.
pub fn classify_signal(sig: i32) -> (r: SignalClass)
    ensures
        r == (if sig == SIGCHLD {
            SignalClass::Child
        } else if sig == SIGINT || sig == SIGQUIT || sig == SIGTERM {
            SignalClass::Termination
        } else {
            SignalClass::Unexpected
        }),
{
    if sig == SIGCHLD {
        SignalClass::Child
    } else if sig == SIGINT || sig == SIGQUIT || sig == SIGTERM {
        SignalClass::Termination
    } else {
        SignalClass::Unexpected
    }
}

/// Advances the runtime-wait state on a SIGCHLD, after the arrived batch
/// of reaped children has been partitioned.  The loop is done as soon as
/// the runtime's status is known; a container status seen earlier in the
/// window is carried into the outcome.
pub fn await_on_reaped(
    state: AwaitState,
    runtime: Option<TerminationStatus>,
    container: Option<TerminationStatus>,
) -> (r: Result<AwaitStep, ReapError>)
    ensures
        r == (match runtime {
            Some(rt) => {
                if container is Some && state.container is Some {
                    Err::<AwaitStep, ReapError>(ReapError::AmbiguousContainerStatus)
                } else {
                    Ok(AwaitStep::Done(match (if state.container is Some {
                        state.container
                    } else {
                        container
                    }) {
                        None => RuntimeOutcome::Solitary(rt, state.inflight),
                        Some(ct) => RuntimeOutcome::Conjoint(rt, ct, state.inflight),
                    }))
                }
            },
            None => {
                match container {
                    Some(_) => {
                        if state.container is Some {
                            Err::<AwaitStep, ReapError>(ReapError::AmbiguousContainerStatus)
                        } else {
                            Ok(AwaitStep::Continue(AwaitState { container, ..state }))
                        }
                    },
                    None => Ok::<AwaitStep, ReapError>(AwaitStep::Continue(state)),
                }
            },
        }),
{
    match runtime {
        Some(rt) => {
            if container.is_some() && state.container.is_some() {
                return Err(ReapError::AmbiguousContainerStatus);
            }
            let carried = if state.container.is_some() {
                state.container
            } else {
                container
            };
            Ok(AwaitStep::Done(RuntimeOutcome::new(rt, carried, state.inflight)))
        },
        None => {
            match container {
                Some(ct) => {
                    if state.container.is_some() {
                        return Err(ReapError::AmbiguousContainerStatus);
                    }
                    Ok(AwaitStep::Continue(AwaitState { container: Some(ct), ..state }))
                },
                None => Ok(AwaitStep::Continue(state)),
            }
        },
    }
}

/// Advances the runtime-wait state after a termination signal was
/// forwarded to the runtime.  A signal the runtime could no longer
/// receive is remembered as inflight, to be replayed to the container
/// once its PID is known; it is never dropped.
pub fn await_on_term_signal(state: AwaitState, sig: i32, delivery: KillResult) -> (r: AwaitState)
    ensures
        r == (match delivery {
            KillResult::Delivered => state,
            KillResult::ProcessNotFound => AwaitState { inflight: Some(sig), ..state },
        }),
{
    match delivery {
        KillResult::Delivered => state,
        KillResult::ProcessNotFound => AwaitState { inflight: Some(sig), ..state },
    }
}

} // verus!
