//! Control signals: what one attempt at a job reports back, and how a
//! low-level I/O failure is turned into such a report.

use vstd::prelude::*;

verus! {

/// Delay, in nanoseconds, before a target is tried again after the network or
/// the descriptor budget gave out.
pub const BACKOFF_NS: u64 = 5_000_000_000;

/// Raw error code: the network is unreachable.
pub const ENETUNREACH: i32 = 101;

/// Raw error code: no route to the host.
pub const EHOSTUNREACH: i32 = 113;

/// Raw error code: binding to the interface or protocol failed.
pub const ENOPROTOOPT: i32 = 92;

/// Raw error code: too many open descriptors.
pub const EMFILE: i32 = 24;

/// The verdict of a probe on the port it looked at.
#[derive(Clone, Copy, Debug, PartialEq, Eq, Structural)]
pub enum NetState {
    Open,
    Closed,
}

/// The category of an I/O failure, as far as the engine tells categories apart.
#[derive(Clone, Copy, Debug, PartialEq, Eq, Structural)]
pub enum IoKind {
    NotFound,
    PermissionDenied,
    ConnectionRefused,
    ConnectionReset,
    ConnectionAborted,
    NotConnected,
    AddrInUse,
    AddrNotAvailable,
    BrokenPipe,
    WouldBlock,
    InvalidInput,
    InvalidData,
    TimedOut,
    Interrupted,
    UnexpectedEof,
    Other,
    Uncategorized,
}

/// An I/O failure reduced to what classification reads: its category and the
/// raw error code of the operating system, where there is one.
#[derive(Clone, Copy, Debug, PartialEq, Eq, Structural)]
pub struct IoFailure {
    pub kind: IoKind,
    pub raw_os_error: Option<i32>,
}

/// Why an attempt failed.
#[derive(Clone, Copy, Debug, PartialEq, Eq, Structural)]
pub enum JobErr {
    IO(IoKind),
    Errno(i32),
    TaskFailed,
    Timeout,
    Other,
}

/// What a job hands back: a verdict with its payload, or a failure.
#[derive(Clone, Debug, PartialEq, Eq)]
pub enum JobCtrl<R> {
    Return(NetState, R),
    Error(JobErr),
}

/// The control outcome of one attempt.
#[derive(Clone, Debug, PartialEq, Eq)]
pub enum SignalControl<R> {
    /// The attempt is conclusive.
    Success(NetState, R),
    /// Try again at once.
    Retry,
    /// Try again after this many nanoseconds.
    Stash(u64),
    /// Give the target up without a record.
    Drop,
    /// The attempt failed.
    Error(JobErr),
}

/// The peer, or the path to it, answered with a refusal.
pub open spec fn is_refusal(kind: IoKind) -> bool {
    kind == IoKind::ConnectionAborted || kind == IoKind::ConnectionReset
        || kind == IoKind::ConnectionRefused || kind == IoKind::TimedOut
}

/// The raw error code tells of an exhausted resource rather than of the target.
pub open spec fn is_exhaustion(code: i32) -> bool {
    code == ENETUNREACH || code == EHOSTUNREACH || code == ENOPROTOOPT || code == EMFILE
}

/// The signal that an I/O failure amounts to.
///
/// A refusal is an authoritative negative. Any other failure is read by its
/// raw code first: a code that tells of exhaustion backs off, whatever the
/// category. Of the remaining codes, one that comes without a category
/// counts as a negative too. Everything else is repeated: a failure without
/// a raw code, and a category the engine does not know.
pub open spec fn classify<T>(x: IoFailure, refused_value: T) -> SignalControl<T> {
    if is_refusal(x.kind) {
        SignalControl::Success(NetState::Closed, refused_value)
    } else {
        match x.raw_os_error {
            Some(code) => if is_exhaustion(code) {
                SignalControl::Stash(BACKOFF_NS)
            } else if x.kind == IoKind::Other {
                SignalControl::Success(NetState::Closed, refused_value)
            } else {
                SignalControl::Retry
            },
            None => SignalControl::Retry,
        }
    }
}

/// The failure is worth a warning: it is neither a refusal nor exhaustion,
/// so that its classification is a guess.
pub open spec fn warrants_warning(x: IoFailure) -> bool {
    !is_refusal(x.kind) && !(x.raw_os_error matches Some(code) && is_exhaustion(code))
}

/// Classifies an I/O failure. `refused_value` is the payload reported when the
/// failure counts as a closed port.
pub fn handle_io_error<T>(x: IoFailure, refused_value: T) -> (sig: SignalControl<T>)
    ensures
        sig == classify(x, refused_value),
{
    match x.kind {
        IoKind::ConnectionAborted
        | IoKind::ConnectionReset
        | IoKind::ConnectionRefused
        | IoKind::TimedOut => SignalControl::Success(NetState::Closed, refused_value),
        kind => match x.raw_os_error {
            Some(code) => {
                if code == ENETUNREACH || code == EHOSTUNREACH || code == ENOPROTOOPT
                    || code == EMFILE {
                    SignalControl::Stash(BACKOFF_NS)
                } else {
                    match kind {
                        IoKind::Other => SignalControl::Success(NetState::Closed, refused_value),
                        _ => SignalControl::Retry,
                    }
                }
            },
            None => SignalControl::Retry,
        },
    }
}

/// Whether the caller owes a warning for this failure: where it is
/// classified as a closed port by an unknown raw code, or repeated.
pub fn should_warn(x: IoFailure) -> (warn: bool)
    ensures
        warn == warrants_warning(x),
{
    match x.kind {
        IoKind::ConnectionAborted
        | IoKind::ConnectionReset
        | IoKind::ConnectionRefused
        | IoKind::TimedOut => false,
        _ => match x.raw_os_error {
            Some(code) => !(code == ENETUNREACH || code == EHOSTUNREACH || code == ENOPROTOOPT
                || code == EMFILE),
            None => true,
        },
    }
}

impl JobErr {
    /// The I/O failure that this error records, if it records one.
    pub open spec fn io_failure(self) -> Option<IoFailure> {
        match self {
            JobErr::IO(kind) => Some(IoFailure { kind, raw_os_error: None }),
            JobErr::Errno(code) => Some(
                IoFailure { kind: IoKind::Other, raw_os_error: Some(code) },
            ),
            _ => None,
        }
    }

    /// The I/O failure that this error records: a category alone, or a raw
    /// code without a category. The other errors record none.
    pub fn as_io_failure(&self) -> (f: Option<IoFailure>)
        ensures
            f == self.io_failure(),
    {
        match *self {
            JobErr::IO(kind) => Some(IoFailure { kind, raw_os_error: None }),
            JobErr::Errno(code) => Some(
                IoFailure { kind: IoKind::Other, raw_os_error: Some(code) },
            ),
            _ => None,
        }
    }
}

impl<R> JobCtrl<R> {
    /// The signal that this result stands for.
    pub open spec fn signal(self) -> SignalControl<R> {
        match self {
            JobCtrl::Return(state, response) => SignalControl::Success(state, response),
            JobCtrl::Error(err) => SignalControl::Error(err),
        }
    }

    /// Turns a job's result into the signal the engine works on.
    pub fn into_signal(self) -> (sig: SignalControl<R>)
        ensures
            sig == self.signal(),
    {
        match self {
            JobCtrl::Return(state, response) => SignalControl::Success(state, response),
            JobCtrl::Error(err) => SignalControl::Error(err),
        }
    }
}

} // verus!
