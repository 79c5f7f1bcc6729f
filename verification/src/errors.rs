//! Errors that can occur when using this crate.

use vstd::prelude::*;

verus! {

/// A DNS name is invalid.
#[derive(Clone, Copy, Debug, PartialEq, Eq, Structural)]
pub struct BadDnsNameError;

impl BadDnsNameError {
    /// What to show a user.
    pub fn message(&self) -> (r: String)
        ensures
            r@ == "Bad DNS name"@,
    {
        "Bad DNS name".to_owned()
    }
}

/// The kinds of I/O failure that this crate tells apart.
#[derive(Clone, Copy, Debug, PartialEq, Eq, Structural)]
pub enum IoErrorKind {
    /// Something asked for does not exist, such as an interface.
    NotFound,
    /// A parameter was wrong, such as an address of a family that the socket
    /// does not serve.
    InvalidInput,
    /// Any other failure that the system reported.
    Other,
}

/// An I/O failure: what kind it is and what the system or this crate said
/// about it.
#[derive(Clone, Debug, PartialEq, Eq)]
pub struct IoError {
    /// The kind of failure.
    pub kind: IoErrorKind,
    /// A description for the user.
    pub message: String,
}

impl IoError {
    /// A failure of the given kind with the given description.
    pub fn new(kind: IoErrorKind, message: &str) -> (r: Self)
        ensures
            r.kind == kind,
            r.message@ == message@,
    {
        IoError { kind, message: message.to_owned() }
    }
}

/// Because this crate works with both IPv4 and IPv6 sockets under a single
/// interface, it is possible for an I/O error to occur on both sockets. This
/// enum is used to represent that.
///
/// The variant [`IoError`](MultiIpIoError::IoError) stands for a failure that
/// belongs to no socket (not to be confused with [`Both`](MultiIpIoError::Both)).
#[derive(Clone, Debug, PartialEq, Eq)]
pub enum MultiIpIoError {
    /// A generic I/O error occurred from something other than a socket.
    IoError(IoError),
    /// An I/O error occurred on the IPv4 socket.
    V4(IoError),
    /// An I/O error occurred on the IPv6 socket.
    V6(IoError),
    /// An I/O error occurred on both IPv4 and IPv6 sockets.
    Both {
        /// The IPv4 I/O error.
        v4: IoError,
        /// The IPv6 I/O error.
        v6: IoError,
    },
}

impl From<IoError> for MultiIpIoError {
    fn from(err: IoError) -> (r: Self) {
        MultiIpIoError::IoError(err)
    }
}

impl vstd::std_specs::convert::FromSpecImpl<IoError> for MultiIpIoError {
    open spec fn obeys_from_spec() -> bool {
        true
    }

    open spec fn from_spec(err: IoError) -> Self {
        MultiIpIoError::IoError(err)
    }
}

/// An error occurred while shutting down a broadcaster or discoverer.
#[derive(Clone, Debug, PartialEq, Eq)]
pub enum ShutdownError {
    /// The underlying thread panicked.
    ThreadJoinError,
    /// An I/O error ended the loop.
    MultiIpIoError(MultiIpIoError),
}

impl From<MultiIpIoError> for ShutdownError {
    fn from(err: MultiIpIoError) -> (r: Self) {
        ShutdownError::MultiIpIoError(err)
    }
}

impl vstd::std_specs::convert::FromSpecImpl<MultiIpIoError> for ShutdownError {
    open spec fn obeys_from_spec() -> bool {
        true
    }

    open spec fn from_spec(err: MultiIpIoError) -> Self {
        ShutdownError::MultiIpIoError(err)
    }
}

/// What a worker left behind when it stopped.
#[derive(Clone, Debug, PartialEq, Eq)]
pub enum WorkerExit {
    /// The loop came to its end without an error.
    Finished,
    /// A fatal error ended the loop.
    Failed(MultiIpIoError),
    /// The worker panicked.
    Panicked,
}

/// What `shutdown` reports for a worker that stopped in the given way:
/// nothing for a clean end, the loop's error for a fatal one, and a join
/// error for a panic.
pub open spec fn spec_shutdown_outcome(exit: WorkerExit) -> Result<(), ShutdownError> {
    match exit {
        WorkerExit::Finished => Ok(()),
        WorkerExit::Failed(err) => Err(ShutdownError::MultiIpIoError(err)),
        WorkerExit::Panicked => Err(ShutdownError::ThreadJoinError),
    }
}

/// Turns the way a worker stopped into the result of shutting it down.
pub fn shutdown_outcome(exit: WorkerExit) -> (r: Result<(), ShutdownError>)
    ensures
        r == spec_shutdown_outcome(exit),
{
    match exit {
        WorkerExit::Finished => Ok(()),
        WorkerExit::Failed(err) => Err(ShutdownError::MultiIpIoError(err)),
        WorkerExit::Panicked => Err(ShutdownError::ThreadJoinError),
    }
}

/// Whether an error found while a handle is dropped must be raised again:
/// only a panic of the worker is, so that a failed socket never turns a drop
/// into a panic.
pub fn reraise_on_drop(outcome: &Result<(), ShutdownError>) -> (r: bool)
    ensures
        r == (*outcome == Err::<(), ShutdownError>(ShutdownError::ThreadJoinError)),
{
    match outcome {
        Err(ShutdownError::ThreadJoinError) => true,
        _ => false,
    }
}

} // verus!
