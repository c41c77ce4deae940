//! Error taxonomy shared by every component.

use vstd::prelude::*;

verus! {

/// Errors that can occur while admitting, processing or serving print jobs.
#[derive(Debug, Clone)]
pub enum Error {
    /// An I/O failure, with the system's description of it.
    Io(String),
    Document(String),
    Job(String),
    Ipp(String),
    Parse(String),
    Render(String),
    Bus(String),
    Config(String),
    Plugin(String),
    Ipc(String),
    System(String),
    Unsupported(String),
    NotFound(String),
    Validation(String),
    Permission(String),
    Timeout(String),
    Graphics(String),
    Pdf(String),
    Unknown(String),
    /// The job queue holds as many entries as it may.
    QueueFull,
    /// The print options of a request break one of their invariants.
    InvalidOptions(String),
    /// A limit of the configuration is out of range.
    InvalidConfiguration(String),
    /// A job's document would grow past the configured maximum size.
    DocumentTooLarge,
    /// As many jobs as the configuration allows are admitted and unfinished.
    TooManyJobs,
}

/// How serious an error is.
#[derive(Debug, Clone, Copy, PartialEq, Eq, Structural)]
pub enum ErrorSeverity {
    High,
    Medium,
    Low,
}

impl Error {
    /// The errors worth retrying: they say nothing about the request itself.
    pub open spec fn spec_is_transient(&self) -> bool {
        self is Io || self is Timeout || self is Bus || self is QueueFull || self is TooManyJobs
    }

    /// The errors caused by what a user asked for.
    pub open spec fn spec_is_user_error(&self) -> bool {
        self is Document || self is Job || self is Config || self is Permission
            || self is Validation || self is InvalidOptions || self is InvalidConfiguration
    }

    pub open spec fn spec_severity(&self) -> ErrorSeverity {
        match self {
            Error::Validation(_) | Error::Permission(_) | Error::InvalidOptions(_) => ErrorSeverity::High,
            Error::Timeout(_) | Error::Job(_) | Error::Config(_) | Error::Plugin(_) | Error::Ipc(_)
            | Error::Ipp(_) | Error::Bus(_) | Error::QueueFull | Error::TooManyJobs | Error::InvalidConfiguration(_) => ErrorSeverity::Medium,
            _ => ErrorSeverity::Low,
        }
    }

    /// Whether this is a transient error that may succeed when retried.
    pub fn is_transient(&self) -> (r: bool)
        ensures
            r == self.spec_is_transient(),
    {
        match self {
            Error::Io(_) | Error::Timeout(_) | Error::Bus(_) | Error::QueueFull | Error::TooManyJobs => true,
            _ => false,
        }
    }

    /// Whether this error is caused by the user's input or settings.
    pub fn is_user_error(&self) -> (r: bool)
        ensures
            r == self.spec_is_user_error(),
    {
        match self {
            Error::Document(_) | Error::Job(_) | Error::Config(_) | Error::Permission(_)
            | Error::Validation(_) | Error::InvalidOptions(_) | Error::InvalidConfiguration(_) => true,
            _ => false,
        }
    }

    /// The severity of this error.
    pub fn severity(&self) -> (r: ErrorSeverity)
        ensures
            r == self.spec_severity(),
    {
        match self {
            Error::Validation(_) | Error::Permission(_) | Error::InvalidOptions(_) => ErrorSeverity::High,
            Error::Timeout(_) | Error::Job(_) | Error::Config(_) | Error::Plugin(_) | Error::Ipc(_)
            | Error::Ipp(_) | Error::Bus(_) | Error::QueueFull | Error::TooManyJobs | Error::InvalidConfiguration(_) => ErrorSeverity::Medium,
            _ => ErrorSeverity::Low,
        }
    }
}

} // verus!
