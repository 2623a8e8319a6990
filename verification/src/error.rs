//! The failures the lifecycle core distinguishes, and how far each one
//! propagates.

use vstd::prelude::*;

verus! {

/// A failure of the lifecycle core.
#[derive(Clone, Copy, Debug, PartialEq, Eq, Structural)]
pub enum ErrorKind {
    /// A live peer answered the liveness probe.
    AlreadyRunning,
    /// The control-plane endpoint could not be bound.
    BindFailure,
    /// The handlers for termination requests could not be registered.
    HandlerInstallFailure,
    /// A producer sent after the receiving end was dropped.
    ChannelClosed,
    /// A transport error on one client connection.
    ClientDisconnected,
    /// A stale endpoint could not be removed, for a reason other than its
    /// absence.
    CleanupFailure,
}

/// How far a failure reaches.
#[derive(Clone, Copy, Debug, PartialEq, Eq, Structural)]
pub enum Containment {
    /// Startup aborts and the process exits with a failure status.
    Fatal,
    /// Only the connection on which it occurred is closed.
    Connection,
    /// It is reported and nothing else happens.
    Reported,
}

/// The level at which a failure is reported.
#[derive(Clone, Copy, Debug, PartialEq, Eq, Structural)]
pub enum Severity {
    Error,
    Warning,
    Debug,
}

/// Exit status of an orderly stop.
pub const EXIT_SUCCESS: i32 = 0;

/// Exit status of any startup or runtime failure.
pub const EXIT_FAILURE: i32 = 1;

impl ErrorKind {
    /// The reach of each kind of failure.
    pub open spec fn spec_containment(self) -> Containment {
        match self {
            ErrorKind::AlreadyRunning => Containment::Fatal,
            ErrorKind::BindFailure => Containment::Fatal,
            ErrorKind::HandlerInstallFailure => Containment::Fatal,
            ErrorKind::ChannelClosed => Containment::Reported,
            ErrorKind::ClientDisconnected => Containment::Connection,
            ErrorKind::CleanupFailure => Containment::Reported,
        }
    }

    /// The level at which each kind of failure is reported.
    pub open spec fn spec_severity(self) -> Severity {
        match self {
            ErrorKind::ChannelClosed => Severity::Debug,
            ErrorKind::CleanupFailure => Severity::Warning,
            ErrorKind::ClientDisconnected => Severity::Debug,
            _ => Severity::Error,
        }
    }

    /// The exit status the process ends with when this is the only failure
    /// that occurred.
    pub open spec fn spec_exit_code(self) -> i32 {
        if self.spec_containment() == Containment::Fatal {
            EXIT_FAILURE
        } else {
            EXIT_SUCCESS
        }
    }

    /// How far this failure reaches.
    pub fn containment(&self) -> (reach: Containment)
        ensures
            reach == self.spec_containment(),
    {
        match self {
            ErrorKind::AlreadyRunning
            | ErrorKind::BindFailure
            | ErrorKind::HandlerInstallFailure => Containment::Fatal,
            ErrorKind::ClientDisconnected => Containment::Connection,
            ErrorKind::ChannelClosed | ErrorKind::CleanupFailure => Containment::Reported,
        }
    }

    /// Whether this failure aborts the process.
    pub fn is_fatal(&self) -> (fatal: bool)
        ensures
            fatal == (self.spec_containment() == Containment::Fatal),
    {
        self.containment() == Containment::Fatal
    }

    /// The level at which this failure is reported.
    pub fn severity(&self) -> (level: Severity)
        ensures
            level == self.spec_severity(),
    {
        match self {
            ErrorKind::ChannelClosed | ErrorKind::ClientDisconnected => Severity::Debug,
            ErrorKind::CleanupFailure => Severity::Warning,
            ErrorKind::AlreadyRunning
            | ErrorKind::BindFailure
            | ErrorKind::HandlerInstallFailure => Severity::Error,
        }
    }

    /// The exit status after this failure: failures that are only reported,
    /// or that stay on one connection, do not reach the exit status.
    pub fn exit_code(&self) -> (code: i32)
        ensures
            code == self.spec_exit_code(),
            code == EXIT_FAILURE <==> self.spec_containment() == Containment::Fatal,
    {
        if self.is_fatal() {
            EXIT_FAILURE
        } else {
            EXIT_SUCCESS
        }
    }
}

} // verus!
