//! Failures of sockets, files and the native network facility, by kind and by cause.

use crate::policy::PolicyError;
use vstd::prelude::*;

verus! {

/// What kind of failure the system reported.
#[derive(Clone, Copy, Debug, Eq, PartialEq, Structural)]
pub enum ErrorKind {
    NotFound,
    PermissionDenied,
    ConnectionRefused,
    ConnectionReset,
    HostUnreachable,
    NetworkUnreachable,
    ConnectionAborted,
    NotConnected,
    AddrInUse,
    AddrNotAvailable,
    NetworkDown,
    BrokenPipe,
    AlreadyExists,
    WouldBlock,
    NotADirectory,
    IsADirectory,
    DirectoryNotEmpty,
    ReadOnlyFilesystem,
    StaleNetworkFileHandle,
    InvalidInput,
    InvalidData,
    TimedOut,
    WriteZero,
    StorageFull,
    NotSeekable,
    QuotaExceeded,
    FileTooLarge,
    ResourceBusy,
    ExecutableFileBusy,
    Deadlock,
    CrossesDevices,
    TooManyLinks,
    InvalidFilename,
    ArgumentListTooLong,
    Interrupted,
    Unsupported,
    UnexpectedEof,
    OutOfMemory,
    Other,
}

/// Identifies a failed native route check without exposing platform error details.
#[derive(Clone, Copy, Debug, Eq, PartialEq, Structural)]
pub struct RouteCheckFailure;

impl RouteCheckFailure {
    pub open spec fn text(self) -> Seq<char> {
        "the selected physical route could not be verified"@
    }

    /// The text shown to a user.
    pub fn message(&self) -> (message: &'static str)
        ensures
            message@ == self.text(),
    {
        "the selected physical route could not be verified"
    }
}

/// Why an operation failed, as far as this crate says it.
#[derive(Clone, Copy, Debug, Eq, PartialEq, Structural)]
pub enum Cause {
    /// Nothing is said beyond the kind.
    Kind,
    /// The platform's own failure.
    Platform,
    Route(RouteCheckFailure),
    Policy(PolicyError),
    Selection,
    UnauthorizedSocket,
    MissingBuffer,
    EmptyBuffer,
    DatagramLength,
    BoundAddress,
    Revoked,
}

#[derive(Clone, Copy, Debug, Eq, PartialEq, Structural)]
pub struct IoError {
    pub kind: ErrorKind,
    pub cause: Cause,
}

impl IoError {
    pub fn new(kind: ErrorKind, cause: Cause) -> (error: IoError)
        ensures
            error == (IoError { kind, cause }),
    {
        IoError { kind, cause }
    }

    /// The text of the cause, where this crate gives one.
    pub open spec fn text(self) -> Option<Seq<char>> {
        match self.cause {
            Cause::Kind | Cause::Platform => None,
            Cause::Route(failure) => Some(failure.text()),
            Cause::Policy(error) => Some(error.text()),
            Cause::Selection => Some(
                "select an exact physical adapter, distinct private IPv4 addresses and nonzero ports"@,
            ),
            Cause::UnauthorizedSocket => Some("socket does not match the authorized network"@),
            Cause::MissingBuffer => Some("missing receive buffer or metadata"@),
            Cause::EmptyBuffer => Some("empty receive buffer"@),
            Cause::DatagramLength => Some("invalid received datagram length"@),
            Cause::BoundAddress => Some("bound address changed"@),
            Cause::Revoked => Some("network session revoked; reconnect explicitly"@),
        }
    }

    /// The text of the cause, where this crate gives one.
    pub fn message(&self) -> (message: Option<&'static str>)
        ensures
            match message {
                Some(text) => self.text() == Some(text@),
                None => self.text() is None,
            },
    {
        match self.cause {
            Cause::Kind | Cause::Platform => None,
            Cause::Route(failure) => Some(failure.message()),
            Cause::Policy(error) => Some(error.message()),
            Cause::Selection => Some(
                "select an exact physical adapter, distinct private IPv4 addresses and nonzero ports",
            ),
            Cause::UnauthorizedSocket => Some("socket does not match the authorized network"),
            Cause::MissingBuffer => Some("missing receive buffer or metadata"),
            Cause::EmptyBuffer => Some("empty receive buffer"),
            Cause::DatagramLength => Some("invalid received datagram length"),
            Cause::BoundAddress => Some("bound address changed"),
            Cause::Revoked => Some("network session revoked; reconnect explicitly"),
        }
    }
}

} // verus!
