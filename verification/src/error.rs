//! Error taxonomy: per-event open failures, counter operation failures,
//! and ring-buffer decode failures.

use vstd::prelude::*;

verus! {

/// Why one counter could not be opened. Open failures are per-event and
/// recoverable: they populate the builder's failure map and never abort
/// the rest of a requested set.
#[derive(Clone, Copy, Debug, PartialEq, Eq, Structural)]
pub enum OpenError {
    /// The caller lacks permission to open the counter in this scope.
    PermissionDenied,
    /// The event is not supported on this hardware or kernel.
    UnsupportedEvent,
    /// A per-process or system-wide resource limit was reached.
    ResourceLimit,
    /// The kernel was built without support for the counting subsystem.
    NoKernelSupport,
    /// Any other reason, carrying the raw error number.
    Other(i32),
}

pub const EPERM: i32 = 1;
pub const ENOENT: i32 = 2;
pub const EACCES: i32 = 13;
pub const ENODEV: i32 = 19;
pub const ENFILE: i32 = 23;
pub const EMFILE: i32 = 24;
pub const ENOSPC: i32 = 28;
pub const ENOSYS: i32 = 38;
pub const EOPNOTSUPP: i32 = 95;

impl OpenError {
    pub open spec fn from_errno_spec(errno: i32) -> OpenError {
        if errno == EPERM || errno == EACCES {
            OpenError::PermissionDenied
        } else if errno == ENOENT || errno == ENODEV || errno == EOPNOTSUPP {
            OpenError::UnsupportedEvent
        } else if errno == EMFILE || errno == ENFILE || errno == ENOSPC {
            OpenError::ResourceLimit
        } else if errno == ENOSYS {
            OpenError::NoKernelSupport
        } else {
            OpenError::Other(errno)
        }
    }

    /// Classifies the error number a failed open reported.
    pub fn from_errno(errno: i32) -> (r: OpenError)
        ensures
            r == OpenError::from_errno_spec(errno),
    {
        if errno == EPERM || errno == EACCES {
            OpenError::PermissionDenied
        } else if errno == ENOENT || errno == ENODEV || errno == EOPNOTSUPP {
            OpenError::UnsupportedEvent
        } else if errno == EMFILE || errno == ENFILE || errno == ENOSPC {
            OpenError::ResourceLimit
        } else if errno == ENOSYS {
            OpenError::NoKernelSupport
        } else {
            OpenError::Other(errno)
        }
    }
}

/// A failure of an operation on an already-open counter set.
/// These are recoverable at the call site and isolated to one counter:
/// a failure on one never aborts its siblings.
#[derive(Clone, Debug)]
pub enum PerfEventsError {
    /// Enabling one counter failed with the given error number.
    EnableFailed { errno: i32 },
    /// Reading one counter failed with the given error number.
    ReadFailed { errno: i32 },
    /// No counter of a requested set could be started.
    StartError { inner: String },
}

/// Why a ring-buffer record could not be decoded. The byte source is the
/// kernel's shared buffer, which may hold record types this library does
/// not know; decoding therefore reports malformed input as a value and
/// never panics.
#[derive(Clone, Copy, Debug, PartialEq, Eq, Structural)]
pub enum DecodeError {
    /// The header's type tag matches no known record kind.
    UnrecognizedEventType(u32),
    /// The cpu-mode subfield of the misc word is outside the defined modes.
    UnrecognizedCpuMode(u16),
    /// The header declares a total record size smaller than the header itself.
    BadDeclaredSize(u16),
    /// The payload ends before a field the record kind requires.
    TruncatedPayload,
    /// A count prefix implies more bytes than the record declares.
    CountTooLarge,
    /// The sampling configuration asks for a field layout this decoder
    /// does not handle (a group read format).
    UnsupportedSampleFormat,
}

} // verus!
