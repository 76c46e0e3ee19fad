//! The serve-phase reactor: the state machine that multiplexes the
//! container's output streams to the log writer and to attach clients,
//! feeds attach clients' input to the container's stdin, reaps the
//! container, and forwards termination signals.
//!
//! The poller, the file descriptors and every read and write live
//! outside; this module decides.  Each event handler takes what the
//! outside read returned and produces the next state together with a list
//! of [`Action`]s for the caller to perform.  A ghost log accumulates
//! every action ever produced, and the reactor's invariant guarantees
//! that a `Close` for a token is only ever produced after a `Deregister`
//! for it: no registered descriptor is dropped while registered.

use vstd::prelude::*;
use crate::logfmt::StreamKind;
use crate::status::TerminationStatus;

verus! {

pub const TOKEN_STDOUT: u64 = 10;
pub const TOKEN_STDERR: u64 = 20;
pub const TOKEN_SIGNAL: u64 = 30;
pub const TOKEN_ATTACH: u64 = 40;
pub const TOKEN_UNUSED: u64 = 1000;

/// The heartbeat used while the container is alive, in milliseconds.
pub const SERVE_HEARTBEAT_MS: u64 = 5000;

/// Which side of a transfer failed: the stream being read, or the stream
/// being written.
#[derive(Copy, Clone, Debug, PartialEq, Eq, Structural)]
pub enum Error {
    Sink(i32),
    Source(i32),
}

/// A sink of a scatterer: the log writer, or one attach client's stream.
#[derive(Copy, Clone, Debug, PartialEq, Eq, Structural)]
pub enum SinkId {
    Log,
    Attach(u64),
}

/// One operation the caller must perform on the world: poller
/// registration by token, closing the descriptor anchored at a token,
/// writes to the log, to an attach client or to the container's stdin,
/// and signal delivery.
#[derive(Debug)]
pub enum Action {
    Register(u64),
    Deregister(u64),
    Close(u64),
    WriteLog(StreamKind, Vec<u8>),
    WriteAttach(u64, Vec<u8>),
    WriteStdin(Vec<u8>),
    CloseStdin,
    Kill(i32, i32),
}

/// What the caller observed on a readable or closed container stream.
#[derive(Debug)]
pub enum StreamEvent {
    Data(Vec<u8>),
    Eof,
    Failed(Error),
    Hup,
}

/// What the caller observed on an attach client's stream.
#[derive(Debug)]
pub enum ClientEvent {
    Data(Vec<u8>),
    Eof,
    Failed(Error),
    Hup,
}

pub open spec fn is_close(a: Action, t: u64) -> bool {
    a matches Action::Close(u) && u == t
}

pub open spec fn is_dereg(a: Action, t: u64) -> bool {
    a matches Action::Deregister(u) && u == t
}

/// Whether the list holds a deregistration of token `t`.
pub open spec fn has_dereg(s: Seq<Action>, t: u64) -> bool {
    exists|j: int| 0 <= j < s.len() && #[trigger] is_dereg(s[j], t)
}

/// Every close of a token comes after a deregistration of that token.
pub open spec fn closes_after_deregisters(s: Seq<Action>) -> bool {
    forall|i: int, t: u64|
        0 <= i < s.len() && #[trigger] is_close(s[i], t) ==> has_dereg(s.take(i), t)
}

/// A deregistration stays visible when the list grows.
proof fn lemma_has_dereg_extend(s: Seq<Action>, more: Seq<Action>, t: u64)
    requires
        has_dereg(s, t),
    ensures
        has_dereg(s + more, t),
{
    let j = choose|j: int| 0 <= j < s.len() && is_dereg(s[j], t);
    assert((s + more)[j] == s[j]);
}

/// Appending a list whose closes are each covered, either earlier in the
/// appended list or by the log, keeps the combined log covered.
proof fn lemma_cfd_append(log: Seq<Action>, acts: Seq<Action>)
    requires
        closes_after_deregisters(log),
        forall|i: int, t: u64|
            0 <= i < acts.len() && #[trigger] is_close(acts[i], t) ==> has_dereg(
                log + acts.take(i),
                t,
            ),
    ensures
        closes_after_deregisters(log + acts),
{
    let combined = log + acts;
    assert forall|i: int, t: u64|
        0 <= i < combined.len() && #[trigger] is_close(combined[i], t) implies has_dereg(
        combined.take(i),
        t,
    ) by {
        if i < log.len() {
            assert(combined[i] == log[i]);
            assert(is_close(log[i], t));
            assert(has_dereg(log.take(i), t));
            assert(combined.take(i) =~= log.take(i));
        } else {
            let k = i - log.len();
            assert(combined[i] == acts[k]);
            assert(is_close(acts[k], t));
            assert(has_dereg(log + acts.take(k), t));
            assert(combined.take(i) =~= log + acts.take(k));
        }
    }
}

/// A filter of a sequence with distinct elements keeps them distinct,
/// and keeps only elements of the original.
proof fn lemma_filter_distinct_subset<A>(s: Seq<A>, pred: spec_fn(A) -> bool)
    requires
        forall|i: int, j: int| 0 <= i < j < s.len() ==> s[i] != s[j],
    ensures
        forall|i: int, j: int|
            0 <= i < j < s.filter(pred).len() ==> s.filter(pred)[i] != s.filter(pred)[j],
        forall|x: A| #[trigger] s.filter(pred).contains(x) ==> s.contains(x),
    decreases s.len(),
{
    reveal(Seq::filter);
    if s.len() > 0 {
        let d = s.drop_last();
        let last = s.last();
        assert(forall|i: int| 0 <= i < d.len() ==> d[i] == s[i]);
        lemma_filter_distinct_subset(d, pred);
        assert forall|x: A| #[trigger] s.filter(pred).contains(x) implies s.contains(x) by {
            if d.filter(pred).contains(x) {
                assert(d.contains(x));
                let j = choose|j: int| 0 <= j < d.len() && d[j] == x;
                assert(s[j] == x);
            } else {
                assert(x == last);
                assert(s[s.len() - 1] == x);
            }
        }
        if pred(last) {
            let f = s.filter(pred);
            assert(f == d.filter(pred).push(last));
            assert forall|i: int, j: int| 0 <= i < j < f.len() implies f[i] != f[j] by {
                if j < f.len() - 1 {
                    assert(f[i] == d.filter(pred)[i] && f[j] == d.filter(pred)[j]);
                } else {
                    assert(f[j] == last);
                    assert(f[i] == d.filter(pred)[i]);
                    if f[i] == last {
                        assert(d.filter(pred).contains(last));
                        assert(d.contains(last));
                        let k = choose|k: int| 0 <= k < d.len() && d[k] == last;
                        assert(s[k] == s[s.len() - 1]);
                        assert(false);
                    }
                }
            }
        }
    }
}

/// The tokens other than `gone`, in order.
pub open spec fn without_token(s: Seq<u64>, gone: u64) -> Seq<u64>
    decreases s.len(),
{
    if s.len() == 0 {
        Seq::empty()
    } else if s.last() == gone {
        without_token(s.drop_last(), gone)
    } else {
        without_token(s.drop_last(), gone).push(s.last())
    }
}

/// Removing a token from a sequence of distinct tokens keeps them
/// distinct, and keeps only tokens of the original.
proof fn lemma_without_token(s: Seq<u64>, gone: u64)
    requires
        forall|i: int, j: int| 0 <= i < j < s.len() ==> s[i] != s[j],
    ensures
        forall|i: int, j: int|
            0 <= i < j < without_token(s, gone).len() ==> without_token(s, gone)[i]
                != without_token(s, gone)[j],
        forall|x: u64| #[trigger] without_token(s, gone).contains(x) ==> s.contains(x),
    decreases s.len(),
{
    if s.len() > 0 {
        let d = s.drop_last();
        let last = s.last();
        assert(forall|i: int| 0 <= i < d.len() ==> d[i] == s[i]);
        lemma_without_token(d, gone);
        let r = without_token(s, gone);
        assert forall|x: u64| #[trigger] r.contains(x) implies s.contains(x) by {
            if without_token(d, gone).contains(x) {
                assert(d.contains(x));
                let j = choose|j: int| 0 <= j < d.len() && d[j] == x;
                assert(s[j] == x);
            } else {
                assert(x == last);
                assert(s[s.len() - 1] == x);
            }
        }
        if last != gone {
            assert(r == without_token(d, gone).push(last));
            assert forall|i: int, j: int| 0 <= i < j < r.len() implies r[i] != r[j] by {
                if j < r.len() - 1 {
                    assert(r[i] == without_token(d, gone)[i] && r[j] == without_token(d, gone)[j]);
                } else {
                    assert(r[j] == last);
                    assert(r[i] == without_token(d, gone)[i]);
                    if r[i] == last {
                        assert(without_token(d, gone).contains(last));
                        assert(d.contains(last));
                        let k = choose|k: int| 0 <= k < d.len() && d[k] == last;
                        assert(s[k] == s[s.len() - 1]);
                        assert(false);
                    }
                }
            }
        }
    }
}

/// A gatherer: the fan-in from the attach clients to the container's
/// stdin.  The sink (the stdin write end) is anchored outside; here the
/// gatherer is the set of source tokens it reads from.
#[derive(Debug)]
pub struct Gatherer {
    pub sources: Vec<u64>,
}

/// A scatterer: the fan-out from one container output stream to its
/// sinks, in insertion order.  The source descriptor is anchored outside.
#[derive(Debug)]
pub struct Scatterer {
    pub kind: StreamKind,
    pub sinks: Vec<SinkId>,
}

pub open spec fn sinks_wf(sinks: Seq<SinkId>, last: u64) -> bool {
    &&& forall|i: int, j: int| 0 <= i < j < sinks.len() ==> sinks[i] != sinks[j]
    &&& forall|i: int|
        0 <= i < sinks.len() ==> (#[trigger] sinks[i] matches SinkId::Attach(t) ==> TOKEN_UNUSED
            < t <= last)
}

/// The reactor's state between poll wakeups.
pub struct Reactor {
    /// Poll timeout in milliseconds; zero once draining.
    pub heartbeat_ms: u64,
    /// Close the container's stdin when the first attach client leaves.
    pub stdin_once: bool,
    /// The PID of the container, set once at construction.
    pub container_pid: i32,
    /// The container's termination status; set exactly once, by the reap
    /// of the container's PID.
    pub container_status: Option<TerminationStatus>,
    /// Fan-in to the container's stdin; absent when stdin is disabled,
    /// dropped when `stdin_once` and the first client leaves.
    pub stdin_gatherer: Option<Gatherer>,
    /// Fan-out of the container's stdout; absent after EOF, error or hup.
    pub stdout_scatterer: Option<Scatterer>,
    /// Fan-out of the container's stderr; absent after EOF, error or hup.
    pub stderr_scatterer: Option<Scatterer>,
    /// Whether the drain phase has begun: the signal descriptor and the
    /// attach listener are deregistered and only the output streams are
    /// still polled.
    pub draining: bool,
    /// Open attach client tokens, in accept order.
    pub attach_clients: Vec<u64>,
    /// The last attach token handed out; tokens are monotonic and start
    /// above every fixed token.
    pub attach_last_token: u64,
    /// Every action ever handed to the caller, in order.
    pub actions: Ghost<Seq<Action>>,
    /// Everything written towards the container's stdin: one entry per
    /// accepted chunk, carrying the source client's token and the bytes
    /// in the order they were read.
    pub stdin_history: Ghost<Seq<(u64, Seq<u8>)>>,
}

impl Reactor {
    /// The reactor's invariant.
    pub open spec fn wf(self) -> bool {
        &&& self.attach_last_token >= TOKEN_UNUSED
        &&& forall|i: int, j: int|
            0 <= i < j < self.attach_clients@.len() ==> self.attach_clients@[i]
                != self.attach_clients@[j]
        &&& forall|i: int|
            0 <= i < self.attach_clients@.len() ==> TOKEN_UNUSED < #[trigger] self.attach_clients@[i]
                <= self.attach_last_token
        &&& (self.stdin_gatherer matches Some(g) ==> g.sources@ == self.attach_clients@)
        &&& (self.stdout_scatterer matches Some(s) ==> s.kind == StreamKind::Stdout && sinks_wf(
            s.sinks@,
            self.attach_last_token,
        ))
        &&& (self.stderr_scatterer matches Some(s) ==> s.kind == StreamKind::Stderr && sinks_wf(
            s.sinks@,
            self.attach_last_token,
        ))
        &&& (self.draining ==> self.container_status is Some && self.heartbeat_ms == 0)
        &&& (self.draining ==> has_dereg(self.actions@, TOKEN_SIGNAL) && has_dereg(
            self.actions@,
            TOKEN_ATTACH,
        ))
        &&& closes_after_deregisters(self.actions@)
    }

    /// The scatterer for one of the two output streams.
    pub open spec fn scatterer_for(self, which: StreamKind) -> Option<Scatterer> {
        match which {
            StreamKind::Stdout => self.stdout_scatterer,
            StreamKind::Stderr => self.stderr_scatterer,
        }
    }

    /// Builds the reactor for a freshly created container.  The log
    /// writer is the first sink of each present output stream; the
    /// returned actions register the present streams, the signal
    /// descriptor and the attach listener, all level-triggered.
    pub fn new(
        container_pid: i32,
        has_stdin: bool,
        stdin_once: bool,
        has_stdout: bool,
        has_stderr: bool,
    ) -> (r: (Reactor, Vec<Action>))
        ensures
            r.0.wf(),
            r.0.heartbeat_ms == SERVE_HEARTBEAT_MS,
            r.0.stdin_once == stdin_once,
            r.0.container_pid == container_pid,
            r.0.container_status is None,
            r.0.stdin_gatherer matches Some(g) <==> has_stdin,
            (r.0.stdin_gatherer matches Some(g) ==> g.sources@ =~= Seq::<u64>::empty()),
            r.0.stdout_scatterer is Some <==> has_stdout,
            (r.0.stdout_scatterer matches Some(s) ==> s.kind == StreamKind::Stdout && s.sinks@
                =~= seq![SinkId::Log]),
            r.0.stderr_scatterer is Some <==> has_stderr,
            (r.0.stderr_scatterer matches Some(s) ==> s.kind == StreamKind::Stderr && s.sinks@
                =~= seq![SinkId::Log]),
            !r.0.draining,
            r.0.attach_clients@ =~= Seq::<u64>::empty(),
            r.0.attach_last_token == TOKEN_UNUSED,
            r.0.stdin_history@ =~= Seq::<(u64, Seq<u8>)>::empty(),
            r.0.actions@ == r.1@,
            r.1@ =~= (if has_stdout {
                seq![Action::Register(TOKEN_STDOUT)]
            } else {
                Seq::<Action>::empty()
            }) + (if has_stderr {
                seq![Action::Register(TOKEN_STDERR)]
            } else {
                Seq::<Action>::empty()
            }) + seq![Action::Register(TOKEN_SIGNAL), Action::Register(TOKEN_ATTACH)],
    {
        let mut acts: Vec<Action> = Vec::new();
        let stdout_scatterer = if has_stdout {
            acts.push(Action::Register(TOKEN_STDOUT));
            let mut sinks: Vec<SinkId> = Vec::new();
            sinks.push(SinkId::Log);
            Some(Scatterer { kind: StreamKind::Stdout, sinks })
        } else {
            None
        };
        let stderr_scatterer = if has_stderr {
            acts.push(Action::Register(TOKEN_STDERR));
            let mut sinks: Vec<SinkId> = Vec::new();
            sinks.push(SinkId::Log);
            Some(Scatterer { kind: StreamKind::Stderr, sinks })
        } else {
            None
        };
        acts.push(Action::Register(TOKEN_SIGNAL));
        acts.push(Action::Register(TOKEN_ATTACH));
        let stdin_gatherer = if has_stdin {
            Some(Gatherer { sources: Vec::new() })
        } else {
            None
        };
        let r = Reactor {
            heartbeat_ms: SERVE_HEARTBEAT_MS,
            stdin_once,
            container_pid,
            container_status: None,
            stdin_gatherer,
            stdout_scatterer,
            stderr_scatterer,
            draining: false,
            attach_clients: Vec::new(),
            attach_last_token: TOKEN_UNUSED,
            actions: Ghost(acts@),
            stdin_history: Ghost(Seq::empty()),
        };
        proof {
            assert forall|i: int, t: u64|
                0 <= i < r.actions@.len() && #[trigger] is_close(r.actions@[i], t) implies has_dereg(
                r.actions@.take(i),
                t,
            ) by {}
        }
        (r, acts)
    }

    /// Whether the main serve loop keeps running: the container has not
    /// been reaped yet.
    pub fn serving(&self) -> (r: bool)
        ensures
            r <==> self.container_status is None,
    {
        self.container_status.is_none()
    }

    /// Records the container's termination, on a SIGCHLD whose reap
    /// returned the container's PID.  Grandchildren picked up through
    /// subreaping are ignored.  The status is set exactly once: a reap of
    /// the container's PID cannot arrive once its status is recorded.
    pub fn handle_sigchld(&mut self, reaped: Option<TerminationStatus>)
        requires
            old(self).wf(),
            !old(self).draining,
            (reaped matches Some(st) && st.pid_spec() == old(self).container_pid as int) ==> old(
                self,
            ).container_status is None,
        ensures
            final(self).wf(),
            *final(self) == (if reaped matches Some(st) && st.pid_spec() == old(
                self,
            ).container_pid as int {
                Reactor { container_status: reaped, ..*old(self) }
            } else {
                *old(self)
            }),
    {
        match reaped {
            Some(st) => {
                if st.pid() == self.container_pid {
                    self.container_status = Some(st);
                }
            },
            None => {},
        }
    }

    /// Forwards a termination signal to the container: the one action is
    /// a kill of the container's PID with that signal.
    pub fn forward_termination_signal(&self, sig: i32) -> (acts: Vec<Action>)
        requires
            sig == crate::runtime::SIGINT || sig == crate::runtime::SIGQUIT || sig
                == crate::runtime::SIGTERM,
        ensures
            acts@ =~= seq![Action::Kill(self.container_pid, sig)],
    {
        let mut acts: Vec<Action> = Vec::new();
        acts.push(Action::Kill(self.container_pid, sig));
        acts
    }

    /// Enters the drain phase, once the container's status is recorded:
    /// the signal descriptor and the attach listener leave the poller,
    /// and the heartbeat drops to zero so the remaining output is drained
    /// without blocking.
    pub fn begin_drain(&mut self) -> (acts: Vec<Action>)
        requires
            old(self).wf(),
            !old(self).draining,
            old(self).container_status is Some,
        ensures
            final(self).wf(),
            *final(self) == (Reactor {
                heartbeat_ms: 0,
                draining: true,
                actions: final(self).actions,
                ..*old(self)
            }),
            final(self).actions@ == old(self).actions@ + acts@,
            acts@ =~= seq![Action::Deregister(TOKEN_SIGNAL), Action::Deregister(TOKEN_ATTACH)],
    {
        let mut acts: Vec<Action> = Vec::new();
        acts.push(Action::Deregister(TOKEN_SIGNAL));
        acts.push(Action::Deregister(TOKEN_ATTACH));
        self.heartbeat_ms = 0;
        self.draining = true;
        proof {
            let log = self.actions@;
            lemma_cfd_append(log, acts@);
            self.actions@ = log + acts@;
            assert(is_dereg(self.actions@[log.len() as int], TOKEN_SIGNAL));
            assert(is_dereg(self.actions@[log.len() as int + 1], TOKEN_ATTACH));
        }
        acts
    }

    /// Handles one readiness event on a container output stream.  Data
    /// fans out to every sink: the log writer receives the bytes as they
    /// were read, each attach client its tagged form, in sink order, each
    /// in full.  EOF, a read error or a hangup deregisters the stream and
    /// closes its descriptor.
    pub fn handle_stream_event(&mut self, which: StreamKind, ev: StreamEvent) -> (acts: Vec<
        Action,
    >)
        requires
            old(self).wf(),
            old(self).scatterer_for(which) is Some,
            ev matches StreamEvent::Data(d) ==> d@.len() > 0,
            ev matches StreamEvent::Failed(e) ==> e is Source,
        ensures
            final(self).wf(),
            final(self).actions@ == old(self).actions@ + acts@,
            final(self).stdin_history == old(self).stdin_history,
            ev matches StreamEvent::Data(d) ==> ({
                &&& *final(self) == (Reactor { actions: final(self).actions, ..*old(self) })
                &&& old(self).scatterer_for(which) matches Some(sc) && acts@.len()
                    == sc.sinks@.len() && (forall|i: int|
                    0 <= i < acts@.len() ==> scatter_act(which, sc.sinks@[i], d@, #[trigger] acts@[i]))
            }),
            !(ev is Data) ==> ({
                &&& acts@ =~= seq![
                    Action::Deregister(stream_token(which)),
                    Action::Close(stream_token(which)),
                ]
                &&& *final(self) == (Reactor {
                    stdout_scatterer: if which is Stdout {
                        None
                    } else {
                        old(self).stdout_scatterer
                    },
                    stderr_scatterer: if which is Stderr {
                        None
                    } else {
                        old(self).stderr_scatterer
                    },
                    actions: final(self).actions,
                    ..*old(self)
                })
            }),
    {
        let is_data = match &ev {
            StreamEvent::Data(_) => true,
            _ => false,
        };
        if is_data {
            let data = match ev {
                StreamEvent::Data(d) => d,
                _ => Vec::new(),
            };
            let acts = match which {
                StreamKind::Stdout => scatter_plan(
                    which,
                    &self.stdout_scatterer.as_ref().unwrap().sinks,
                    &data,
                ),
                StreamKind::Stderr => scatter_plan(
                    which,
                    &self.stderr_scatterer.as_ref().unwrap().sinks,
                    &data,
                ),
            };
            proof {
                let log = self.actions@;
                assert forall|i: int, t: u64|
                    0 <= i < acts@.len() && #[trigger] is_close(acts@[i], t) implies has_dereg(
                    log + acts@.take(i),
                    t,
                ) by {
                    let sc = self.scatterer_for(which)->Some_0;
                    assert(scatter_act(which, sc.sinks@[i], data@, acts@[i]));
                }
                lemma_cfd_append(log, acts@);
                self.actions@ = log + acts@;
                if self.draining {
                    lemma_has_dereg_extend(log, acts@, TOKEN_SIGNAL);
                    lemma_has_dereg_extend(log, acts@, TOKEN_ATTACH);
                }
            }
            acts
        } else {
            let token = match which {
                StreamKind::Stdout => TOKEN_STDOUT,
                StreamKind::Stderr => TOKEN_STDERR,
            };
            match which {
                StreamKind::Stdout => {
                    self.stdout_scatterer = None;
                },
                StreamKind::Stderr => {
                    self.stderr_scatterer = None;
                },
            }
            let mut acts: Vec<Action> = Vec::new();
            acts.push(Action::Deregister(token));
            acts.push(Action::Close(token));
            proof {
                let log = self.actions@;
                assert forall|i: int, t: u64|
                    0 <= i < acts@.len() && #[trigger] is_close(acts@[i], t) implies has_dereg(
                    log + acts@.take(i),
                    t,
                ) by {
                    assert(i == 1 && t == token);
                    assert(is_dereg((log + acts@.take(1))[log.len() as int], t));
                }
                lemma_cfd_append(log, acts@);
                self.actions@ = log + acts@;
                if self.draining {
                    lemma_has_dereg_extend(log, acts@, TOKEN_SIGNAL);
                    lemma_has_dereg_extend(log, acts@, TOKEN_ATTACH);
                }
            }
            acts
        }
    }

    /// Removes from one scatterer's sink map every sink a write failed
    /// on, silently: the source stream and the remaining sinks are
    /// untouched, and no failure propagates.
    pub fn remove_failed_sinks(&mut self, which: StreamKind, failed: &Vec<SinkId>)
        requires
            old(self).wf(),
            old(self).scatterer_for(which) is Some,
        ensures
            final(self).wf(),
            final(self).actions == old(self).actions,
            final(self).stdin_history == old(self).stdin_history,
            *final(self) == (Reactor {
                stdout_scatterer: final(self).stdout_scatterer,
                stderr_scatterer: final(self).stderr_scatterer,
                ..*old(self)
            }),
            which is Stdout ==> final(self).stderr_scatterer == old(self).stderr_scatterer,
            which is Stderr ==> final(self).stdout_scatterer == old(self).stdout_scatterer,
            old(self).scatterer_for(which) matches Some(sc) ==> (final(self).scatterer_for(which)
                matches Some(sc2) && sc2.kind == sc.kind && sc2.sinks@ == sc.sinks@.filter(
                |s: SinkId| !failed@.contains(s),
            )),
    {
        let filtered = match which {
            StreamKind::Stdout => filter_sinks(&self.stdout_scatterer.as_ref().unwrap().sinks, failed),
            StreamKind::Stderr => filter_sinks(&self.stderr_scatterer.as_ref().unwrap().sinks, failed),
        };
        proof {
            let sc = self.scatterer_for(which)->Some_0;
            lemma_filter_distinct_subset(sc.sinks@, |s: SinkId| !failed@.contains(s));
            assert forall|i: int|
                0 <= i < filtered@.len() implies (#[trigger] filtered@[i] matches SinkId::Attach(t)
                ==> TOKEN_UNUSED < t <= self.attach_last_token) by {
                assert(filtered@.contains(filtered@[i]));
                assert(sc.sinks@.contains(filtered@[i]));
                let k = choose|k: int| 0 <= k < sc.sinks@.len() && sc.sinks@[k] == filtered@[i];
                assert(sc.sinks@[k] matches SinkId::Attach(t) ==> TOKEN_UNUSED < t
                    <= self.attach_last_token);
            }
        }
        match which {
            StreamKind::Stdout => {
                self.stdout_scatterer = Some(Scatterer { kind: StreamKind::Stdout, sinks: filtered });
            },
            StreamKind::Stderr => {
                self.stderr_scatterer = Some(Scatterer { kind: StreamKind::Stderr, sinks: filtered });
            },
        }
    }
}

/// The shutdown actions for the open attach clients: each one
/// deregistered, then closed.
pub open spec fn client_shutdown_acts(clients: Seq<u64>) -> Seq<Action>
    decreases clients.len(),
{
    if clients.len() == 0 {
        Seq::empty()
    } else {
        client_shutdown_acts(clients.drop_last()) + seq![
            Action::Deregister(clients.last()),
            Action::Close(clients.last()),
        ]
    }
}

impl Reactor {
    /// Accepts one attach client: allocates the next token, registers
    /// the client's stream under it, adds the stream as a source of the
    /// stdin gatherer and as a sink of both scatterers, wherever those
    /// still exist.
    pub fn register_attach_client(&mut self) -> (r: (u64, Vec<Action>))
        requires
            old(self).wf(),
            !old(self).draining,
            old(self).attach_last_token < u64::MAX,
        ensures
            final(self).wf(),
            r.0 == old(self).attach_last_token + 1,
            r.1@ =~= seq![Action::Register(r.0)],
            final(self).actions@ == old(self).actions@ + r.1@,
            final(self).attach_last_token == r.0,
            final(self).attach_clients@ == old(self).attach_clients@.push(r.0),
            *final(self) == (Reactor {
                attach_last_token: r.0,
                attach_clients: final(self).attach_clients,
                stdin_gatherer: final(self).stdin_gatherer,
                stdout_scatterer: final(self).stdout_scatterer,
                stderr_scatterer: final(self).stderr_scatterer,
                actions: final(self).actions,
                ..*old(self)
            }),
            old(self).stdin_gatherer is Some <==> final(self).stdin_gatherer is Some,
            old(self).stdin_gatherer matches Some(g) ==> (final(self).stdin_gatherer matches Some(
                g2,
            ) && g2.sources@ == g.sources@.push(r.0)),
            old(self).stdout_scatterer is Some <==> final(self).stdout_scatterer is Some,
            old(self).stdout_scatterer matches Some(s) ==> (final(self).stdout_scatterer
                matches Some(s2) && s2.kind == s.kind && s2.sinks@ == s.sinks@.push(
                SinkId::Attach(r.0),
            )),
            old(self).stderr_scatterer is Some <==> final(self).stderr_scatterer is Some,
            old(self).stderr_scatterer matches Some(s) ==> (final(self).stderr_scatterer
                matches Some(s2) && s2.kind == s.kind && s2.sinks@ == s.sinks@.push(
                SinkId::Attach(r.0),
            )),
    {
        let token = self.attach_last_token + 1;
        self.attach_last_token = token;
        self.attach_clients.push(token);
        match &mut self.stdin_gatherer {
            Some(g) => {
                g.sources.push(token);
            },
            None => {},
        }
        match &mut self.stdout_scatterer {
            Some(sc) => {
                sc.sinks.push(SinkId::Attach(token));
            },
            None => {},
        }
        match &mut self.stderr_scatterer {
            Some(sc) => {
                sc.sinks.push(SinkId::Attach(token));
            },
            None => {},
        }
        let mut acts: Vec<Action> = Vec::new();
        acts.push(Action::Register(token));
        proof {
            let log = self.actions@;
            assert forall|i: int, t: u64|
                0 <= i < acts@.len() && #[trigger] is_close(acts@[i], t) implies has_dereg(
                log + acts@.take(i),
                t,
            ) by {}
            lemma_cfd_append(log, acts@);
            self.actions@ = log + acts@;
            if old(self).stdout_scatterer is Some {
                let s = old(self).stdout_scatterer->Some_0;
                let s2 = self.stdout_scatterer->Some_0;
                assert forall|i: int, j: int|
                    0 <= i < j < s2.sinks@.len() implies s2.sinks@[i] != s2.sinks@[j] by {
                    if j == s2.sinks@.len() - 1 {
                        assert(s2.sinks@[i] == s.sinks@[i]);
                    }
                }
            }
            if old(self).stderr_scatterer is Some {
                let s = old(self).stderr_scatterer->Some_0;
                let s2 = self.stderr_scatterer->Some_0;
                assert forall|i: int, j: int|
                    0 <= i < j < s2.sinks@.len() implies s2.sinks@[i] != s2.sinks@[j] by {
                    if j == s2.sinks@.len() - 1 {
                        assert(s2.sinks@[i] == s.sinks@[i]);
                    }
                }
            }
        }
        (token, acts)
    }

    /// Removes one attach client: its token leaves the gatherer's
    /// sources and the client list, the stream is deregistered and its
    /// descriptor closed.  When `drop_gatherer` is set the whole
    /// gatherer goes with it and the container's stdin is closed.
    fn remove_attach_client(&mut self, token: u64, drop_gatherer: bool) -> (acts: Vec<Action>)
        requires
            old(self).wf(),
            old(self).attach_clients@.contains(token),
            old(self).stdin_gatherer is Some,
        ensures
            final(self).wf(),
            final(self).actions@ == old(self).actions@ + acts@,
            final(self).stdin_history == old(self).stdin_history,
            acts@ =~= (if drop_gatherer {
                seq![
                    Action::Deregister(token),
                    Action::Close(token),
                    Action::CloseStdin,
                ]
            } else {
                seq![Action::Deregister(token), Action::Close(token)]
            }),
            *final(self) == (Reactor {
                attach_clients: final(self).attach_clients,
                stdin_gatherer: final(self).stdin_gatherer,
                actions: final(self).actions,
                ..*old(self)
            }),
            final(self).attach_clients@ == without_token(old(self).attach_clients@, token),
            drop_gatherer ==> final(self).stdin_gatherer is None,
            !drop_gatherer ==> (final(self).stdin_gatherer matches Some(g2) && g2.sources@
                == without_token(old(self).stdin_gatherer->Some_0.sources@, token)),
    {
        let clients = filter_tokens(&self.attach_clients, token);
        proof {
            lemma_without_token(self.attach_clients@, token);
            assert forall|i: int|
                0 <= i < clients@.len() implies TOKEN_UNUSED < #[trigger] clients@[i]
                <= self.attach_last_token by {
                assert(clients@.contains(clients@[i]));
                assert(self.attach_clients@.contains(clients@[i]));
                let k = choose|k: int|
                    0 <= k < self.attach_clients@.len() && self.attach_clients@[k] == clients@[i];
            }
        }
        self.attach_clients = clients;
        if drop_gatherer {
            self.stdin_gatherer = None;
        } else {
            let g = self.stdin_gatherer.as_ref().unwrap();
            let sources = filter_tokens(&g.sources, token);
            self.stdin_gatherer = Some(Gatherer { sources });
        }
        let mut acts: Vec<Action> = Vec::new();
        acts.push(Action::Deregister(token));
        acts.push(Action::Close(token));
        if drop_gatherer {
            acts.push(Action::CloseStdin);
        }
        proof {
            let log = self.actions@;
            assert forall|i: int, t: u64|
                0 <= i < acts@.len() && #[trigger] is_close(acts@[i], t) implies has_dereg(
                log + acts@.take(i),
                t,
            ) by {
                assert(i == 1 && t == token);
                assert(is_dereg((log + acts@.take(1))[log.len() as int], t));
            }
            lemma_cfd_append(log, acts@);
            self.actions@ = log + acts@;
            if self.draining {
                lemma_has_dereg_extend(log, acts@, TOKEN_SIGNAL);
                lemma_has_dereg_extend(log, acts@, TOKEN_ATTACH);
            }
        }
        acts
    }

    /// Handles one readiness event on an attach client's stream.  With
    /// the container's stdin already gone, nothing happens: the client's
    /// bytes are discarded.  A chunk of data becomes one write to the
    /// container's stdin, whole and in read order.  EOF or a read error
    /// removes the client, and closes the container's stdin too when
    /// `stdin_once` is set; a hangup removes the client but leaves the
    /// stdin open; a write failure on the container's stdin removes
    /// nothing.
    pub fn handle_attach_client_event(&mut self, token: u64, ev: ClientEvent) -> (acts: Vec<
        Action,
    >)
        requires
            old(self).wf(),
            old(self).attach_clients@.contains(token),
            ev matches ClientEvent::Data(d) ==> d@.len() > 0,
        ensures
            final(self).wf(),
            final(self).actions@ == old(self).actions@ + acts@,
            old(self).stdin_gatherer is None ==> (*final(self) == Reactor {
                actions: final(self).actions,
                ..*old(self)
            } && acts@ =~= Seq::<Action>::empty()),
            old(self).stdin_gatherer is Some ==> match ev {
                ClientEvent::Data(d) => {
                    &&& acts@.len() == 1
                    &&& acts@[0] matches Action::WriteStdin(w) && w@ == d@
                    &&& *final(self) == (Reactor {
                        stdin_history: final(self).stdin_history,
                        actions: final(self).actions,
                        ..*old(self)
                    })
                    &&& final(self).stdin_history@ == old(self).stdin_history@.push((token, d@))
                },
                ClientEvent::Eof => ({
                    &&& removed_client(*old(self), *final(self), token, old(self).stdin_once)
                    &&& acts@ =~= (if old(self).stdin_once {
                        seq![
                            Action::Deregister(token),
                            Action::Close(token),
                            Action::CloseStdin,
                        ]
                    } else {
                        seq![Action::Deregister(token), Action::Close(token)]
                    })
                }),
                ClientEvent::Failed(e) => {
                    if e is Source {
                        &&& removed_client(*old(self), *final(self), token, old(self).stdin_once)
                        &&& acts@ =~= (if old(self).stdin_once {
                            seq![
                                Action::Deregister(token),
                                Action::Close(token),
                                Action::CloseStdin,
                            ]
                        } else {
                            seq![Action::Deregister(token), Action::Close(token)]
                        })
                    } else {
                        &&& *final(self) == (Reactor { actions: final(self).actions, ..*old(self) })
                        &&& acts@ =~= Seq::<Action>::empty()
                    }
                },
                ClientEvent::Hup => ({
                    &&& removed_client(*old(self), *final(self), token, false)
                    &&& acts@ =~= seq![Action::Deregister(token), Action::Close(token)]
                }),
            },
    {
        if self.stdin_gatherer.is_none() {
            let acts: Vec<Action> = Vec::new();
            proof {
                assert(self.actions@ + acts@ =~= self.actions@);
                self.actions@ = self.actions@ + acts@;
            }
            return acts;
        }
        match ev {
            ClientEvent::Data(d) => {
                let ghost dview = d@;
                proof {
                    self.stdin_history@ = self.stdin_history@.push((token, dview));
                }
                let mut acts: Vec<Action> = Vec::new();
                acts.push(Action::WriteStdin(d));
                proof {
                    assert(acts@.len() == 1);
                    assert(acts@[0] matches Action::WriteStdin(w) && w@ == dview);
                    let log = self.actions@;
                    assert forall|i: int, t: u64|
                        0 <= i < acts@.len() && #[trigger] is_close(acts@[i], t) implies has_dereg(
                        log + acts@.take(i),
                        t,
                    ) by {}
                    lemma_cfd_append(log, acts@);
                    self.actions@ = log + acts@;
                    if self.draining {
                        lemma_has_dereg_extend(log, acts@, TOKEN_SIGNAL);
                        lemma_has_dereg_extend(log, acts@, TOKEN_ATTACH);
                    }
                }
                acts
            },
            ClientEvent::Eof => {
                let drop_gatherer = self.stdin_once;
                self.remove_attach_client(token, drop_gatherer)
            },
            ClientEvent::Failed(e) => {
                match e {
                    Error::Source(_) => {
                        let drop_gatherer = self.stdin_once;
                        self.remove_attach_client(token, drop_gatherer)
                    },
                    Error::Sink(_) => {
                        let acts: Vec<Action> = Vec::new();
                        proof {
                            assert(self.actions@ + acts@ =~= self.actions@);
                            self.actions@ = self.actions@ + acts@;
                        }
                        acts
                    },
                }
            },
            ClientEvent::Hup => self.remove_attach_client(token, false),
        }
    }

    /// Shuts the reactor down: every token still registered is
    /// deregistered and every descriptor still anchored is closed, the
    /// streams first, then the signal descriptor and the attach
    /// listener, then the attach clients, and last the container's
    /// stdin.
    pub fn finish(self) -> (acts: Vec<Action>)
        requires
            self.wf(),
        ensures
            closes_after_deregisters(self.actions@ + acts@),
            acts@ =~= (if self.stdout_scatterer is Some {
                seq![Action::Deregister(TOKEN_STDOUT), Action::Close(TOKEN_STDOUT)]
            } else {
                Seq::<Action>::empty()
            }) + (if self.stderr_scatterer is Some {
                seq![Action::Deregister(TOKEN_STDERR), Action::Close(TOKEN_STDERR)]
            } else {
                Seq::<Action>::empty()
            }) + (if !self.draining {
                seq![Action::Deregister(TOKEN_SIGNAL)]
            } else {
                Seq::<Action>::empty()
            }) + seq![Action::Close(TOKEN_SIGNAL)] + (if !self.draining {
                seq![Action::Deregister(TOKEN_ATTACH)]
            } else {
                Seq::<Action>::empty()
            }) + seq![Action::Close(TOKEN_ATTACH)] + client_shutdown_acts(self.attach_clients@)
                + (if self.stdin_gatherer is Some {
                seq![Action::CloseStdin]
            } else {
                Seq::<Action>::empty()
            }),
    {
        let ghost log = self.actions@;
        let mut acts: Vec<Action> = Vec::new();
        if self.stdout_scatterer.is_some() {
            acts.push(Action::Deregister(TOKEN_STDOUT));
            acts.push(Action::Close(TOKEN_STDOUT));
        }
        if self.stderr_scatterer.is_some() {
            acts.push(Action::Deregister(TOKEN_STDERR));
            acts.push(Action::Close(TOKEN_STDERR));
        }
        if !self.draining {
            acts.push(Action::Deregister(TOKEN_SIGNAL));
        }
        acts.push(Action::Close(TOKEN_SIGNAL));
        if !self.draining {
            acts.push(Action::Deregister(TOKEN_ATTACH));
        }
        acts.push(Action::Close(TOKEN_ATTACH));
        proof {
            assert forall|i: int, t: u64|
                0 <= i < acts@.len() && #[trigger] is_close(acts@[i], t) implies has_dereg(
                log + acts@.take(i),
                t,
            ) by {
                let combined = log + acts@.take(i);
                if self.draining && (t == TOKEN_SIGNAL || t == TOKEN_ATTACH) {
                    lemma_has_dereg_extend(log, acts@.take(i), t);
                } else {
                    assert(is_dereg(acts@[i - 1], t));
                    assert(is_dereg(combined[log.len() as int + i - 1], t));
                }
            }
        }
        let ghost fixed = acts@;
        let mut i: usize = 0;
        while i < self.attach_clients.len()
            invariant
                i <= self.attach_clients.len(),
                acts@ =~= fixed + client_shutdown_acts(self.attach_clients@.take(i as int)),
                forall|k: int, t: u64|
                    0 <= k < acts@.len() && #[trigger] is_close(acts@[k], t) ==> has_dereg(
                        log + acts@.take(k),
                        t,
                    ),
            decreases self.attach_clients.len() - i,
        {
            let t = self.attach_clients[i];
            let ghost pre = acts@;
            acts.push(Action::Deregister(t));
            acts.push(Action::Close(t));
            proof {
                let p1 = self.attach_clients@.take(i as int + 1);
                assert(p1.drop_last() =~= self.attach_clients@.take(i as int));
                assert(p1.last() == t);
                assert(acts@ =~= fixed + client_shutdown_acts(p1));
                assert forall|k: int, u: u64|
                    0 <= k < acts@.len() && #[trigger] is_close(acts@[k], u) implies has_dereg(
                    log + acts@.take(k),
                    u,
                ) by {
                    if k < pre.len() {
                        assert(acts@[k] == pre[k]);
                        assert(is_close(pre[k], u));
                        assert(acts@.take(k) =~= pre.take(k));
                    } else {
                        assert(k == pre.len() + 1 && u == t);
                        assert(is_dereg((log + acts@.take(k))[log.len() as int + pre.len() as int], u));
                    }
                }
            }
            i = i + 1;
        }
        let ghost pre2 = acts@;
        if self.stdin_gatherer.is_some() {
            acts.push(Action::CloseStdin);
        }
        proof {
            assert(self.attach_clients@.take(self.attach_clients@.len() as int)
                =~= self.attach_clients@);
            assert forall|k: int, u: u64|
                0 <= k < acts@.len() && #[trigger] is_close(acts@[k], u) implies has_dereg(
                log + acts@.take(k),
                u,
            ) by {
                if k < pre2.len() {
                    assert(acts@[k] == pre2[k]);
                    assert(is_close(pre2[k], u));
                    assert(acts@.take(k) =~= pre2.take(k));
                } else {
                    assert(acts@[k] == Action::CloseStdin);
                    assert(!is_close(acts@[k], u));
                }
            }
            lemma_cfd_append(log, acts@);
        }
        acts
    }
}

/// One client's chunks of the stdin history, in the order they were
/// accepted.
pub open spec fn client_chunks(history: Seq<(u64, Seq<u8>)>, token: u64) -> Seq<Seq<u8>>
    decreases history.len(),
{
    if history.len() == 0 {
        Seq::empty()
    } else {
        let rest = client_chunks(history.drop_last(), token);
        if history.last().0 == token {
            rest.push(history.last().1)
        } else {
            rest
        }
    }
}

/// Law: a chunk accepted from one attach client extends that client's
/// part of the stdin stream by exactly that chunk, in read order, and
/// leaves every other client's part unchanged — the clients interleave
/// at read-chunk granularity.
pub proof fn lemma_stdin_order_per_client(
    history: Seq<(u64, Seq<u8>)>,
    token: u64,
    data: Seq<u8>,
    other: u64,
)
    requires
        other != token,
    ensures
        client_chunks(history.push((token, data)), token) == client_chunks(history, token).push(
            data,
        ),
        client_chunks(history.push((token, data)), other) == client_chunks(history, other),
{
    assert(history.push((token, data)).drop_last() =~= history);
}

/// Law: over the whole life of a well-formed reactor, every descriptor
/// close it ever asked for came after a deregistration of the same
/// token — no descriptor is dropped while registered with the poller.
pub proof fn lemma_no_close_while_registered(r: Reactor)
    requires
        r.wf(),
    ensures
        closes_after_deregisters(r.actions@),
{
}

/// The state change of removing one attach client: its token leaves the
/// client list and the gatherer's sources; with `dropped` the gatherer
/// itself is gone.  Everything else stands.
pub open spec fn removed_client(pre: Reactor, post: Reactor, token: u64, dropped: bool) -> bool {
    &&& post == (Reactor {
        attach_clients: post.attach_clients,
        stdin_gatherer: post.stdin_gatherer,
        actions: post.actions,
        ..pre
    })
    &&& post.attach_clients@ == without_token(pre.attach_clients@, token)
    &&& (if dropped {
        post.stdin_gatherer is None
    } else {
        post.stdin_gatherer matches Some(g2) && pre.stdin_gatherer matches Some(g) && g2.sources@
            == without_token(g.sources@, token)
    })
}

/// Keeps the tokens other than `gone`, in order.
fn filter_tokens(tokens: &Vec<u64>, gone: u64) -> (r: Vec<u64>)
    ensures
        r@ == without_token(tokens@, gone),
{
    let mut r: Vec<u64> = Vec::new();
    let mut i: usize = 0;
    proof {
        assert(tokens@.subrange(0, 0) =~= Seq::<u64>::empty());
        assert(r@ =~= without_token(tokens@.subrange(0, 0), gone));
    }
    while i < tokens.len()
        invariant
            i <= tokens.len(),
            r@ == without_token(tokens@.subrange(0, i as int), gone),
        decreases tokens.len() - i,
    {
        let ghost pre = tokens@.subrange(0, i as int);
        let t = tokens[i];
        if t != gone {
            r.push(t);
        }
        proof {
            let p1 = tokens@.subrange(0, i as int + 1);
            assert(p1.drop_last() =~= pre);
            assert(p1.last() == t);
            assert(r@ =~= without_token(p1, gone));
        }
        i = i + 1;
    }
    proof {
        assert(tokens@.subrange(0, i as int) =~= tokens@);
    }
    r
}

/// Whose event a poll token is.
#[derive(Copy, Clone, Debug, PartialEq, Eq, Structural)]
pub enum TokenClass {
    Stdout,
    Stderr,
    Signal,
    AttachListener,
    AttachClient,
}

/// Classifies a poll token as the dispatch loop does: one of the four
/// fixed sources, or an attach client's stream.
pub fn classify_token(token: u64) -> (r: TokenClass)
    ensures
        r == (if token == TOKEN_STDOUT {
            TokenClass::Stdout
        } else if token == TOKEN_STDERR {
            TokenClass::Stderr
        } else if token == TOKEN_SIGNAL {
            TokenClass::Signal
        } else if token == TOKEN_ATTACH {
            TokenClass::AttachListener
        } else {
            TokenClass::AttachClient
        }),
{
    if token == TOKEN_STDOUT {
        TokenClass::Stdout
    } else if token == TOKEN_STDERR {
        TokenClass::Stderr
    } else if token == TOKEN_SIGNAL {
        TokenClass::Signal
    } else if token == TOKEN_ATTACH {
        TokenClass::AttachListener
    } else {
        TokenClass::AttachClient
    }
}

/// The fixed token of one container output stream.
pub open spec fn stream_token(which: StreamKind) -> u64 {
    match which {
        StreamKind::Stdout => TOKEN_STDOUT,
        StreamKind::Stderr => TOKEN_STDERR,
    }
}

/// What one scatter step owes one sink: the log writer gets the chunk as
/// read, an attach client gets the stream tag followed by the chunk.
pub open spec fn scatter_act(which: StreamKind, sink: SinkId, data: Seq<u8>, a: Action) -> bool {
    match sink {
        SinkId::Log => a matches Action::WriteLog(k, d) && k == which && d@ == data,
        SinkId::Attach(t) => a matches Action::WriteAttach(u, d) && u == t && d@ == seq![
            which.tag_spec(),
        ] + data,
    }
}

/// Builds the write actions for one chunk read from a container output
/// stream: one write per sink, in sink order.
fn scatter_plan(which: StreamKind, sinks: &Vec<SinkId>, data: &Vec<u8>) -> (acts: Vec<Action>)
    ensures
        acts@.len() == sinks@.len(),
        forall|i: int|
            0 <= i < acts@.len() ==> scatter_act(which, sinks@[i], data@, #[trigger] acts@[i]),
{
    let mut acts: Vec<Action> = Vec::new();
    let mut i: usize = 0;
    while i < sinks.len()
        invariant
            i <= sinks.len(),
            acts@.len() == i,
            forall|k: int|
                0 <= k < i ==> scatter_act(which, sinks@[k], data@, #[trigger] acts@[k]),
        decreases sinks.len() - i,
    {
        match sinks[i] {
            SinkId::Log => {
                let mut d: Vec<u8> = Vec::new();
                crate::bytes::push_all(&mut d, data);
                acts.push(Action::WriteLog(which, d));
            },
            SinkId::Attach(t) => {
                let mut d: Vec<u8> = Vec::new();
                d.push(which.tag());
                crate::bytes::push_all(&mut d, data);
                assert(d@ =~= seq![which.tag_spec()] + data@);
                acts.push(Action::WriteAttach(t, d));
            },
        }
        i = i + 1;
    }
    acts
}

/// Whether a sink list holds the given sink.
fn contains_sink(v: &Vec<SinkId>, x: SinkId) -> (r: bool)
    ensures
        r == v@.contains(x),
{
    let mut i: usize = 0;
    while i < v.len()
        invariant
            i <= v.len(),
            forall|k: int| 0 <= k < i ==> v@[k] != x,
        decreases v.len() - i,
    {
        if v[i] == x {
            return true;
        }
        i = i + 1;
    }
    false
}

/// Keeps the sinks that are not among the failed ones, in order.
fn filter_sinks(sinks: &Vec<SinkId>, failed: &Vec<SinkId>) -> (r: Vec<SinkId>)
    ensures
        r@ == sinks@.filter(|s: SinkId| !failed@.contains(s)),
{
    let ghost pred = |s: SinkId| !failed@.contains(s);
    let mut r: Vec<SinkId> = Vec::new();
    let mut i: usize = 0;
    proof {
        reveal(Seq::filter);
        assert(sinks@.subrange(0, 0) =~= Seq::<SinkId>::empty());
        assert(r@ =~= sinks@.subrange(0, 0).filter(pred));
    }
    while i < sinks.len()
        invariant
            i <= sinks.len(),
            r@ == sinks@.subrange(0, i as int).filter(|s: SinkId| !failed@.contains(s)),
        decreases sinks.len() - i,
    {
        let ghost pred = |s: SinkId| !failed@.contains(s);
        let ghost pre = sinks@.subrange(0, i as int);
        let s = sinks[i];
        if !contains_sink(failed, s) {
            r.push(s);
        }
        proof {
            reveal(Seq::filter);
            let p1 = sinks@.subrange(0, i as int + 1);
            assert(p1.drop_last() =~= pre);
            assert(p1.last() == s);
            assert(r@ =~= p1.filter(pred));
        }
        i = i + 1;
    }
    proof {
        assert(sinks@.subrange(0, i as int) =~= sinks@);
    }
    r
}

} // verus!
