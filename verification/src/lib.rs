//! Verified core of a container shim.
//!
//! The shim launches a container through an external OCI runtime, stays
//! behind as the container's parent and reaper, multiplexes the container's
//! standard streams to a log file and to live attach clients, forwards
//! termination signals, and persists the container's final status.
//!
//! This crate holds the decision logic of that process: the runtime-wait
//! state machine, the serve-phase reactor, the stream multiplexers, the log
//! record format, and the wire messages.  The surrounding process plumbing
//! (forking, file descriptors, the poller) performs the I/O and feeds plain
//! values in and out of these verified functions.

pub mod bytes;
pub mod status;
pub mod logfmt;
pub mod json;
pub mod runtime;
pub mod reactor;
pub mod timefmt;
pub mod process;
pub mod argv;
