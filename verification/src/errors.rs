//! The error taxonomy: flat tagged variants, one enum per layer.
use vstd::prelude::*;
use crate::crypto::AteHash;
use crate::header::PrimaryKey;

verus! {

/// Failures of the timestamp enforcer.
#[derive(Clone, Copy, Debug, PartialEq, Eq, Structural)]
pub enum TimeError {
    /// The event's timestamp lies outside the accepted window.
    OutOfBounds { timestamp_ms: u64 },
    /// The event carries no timestamp although one is required.
    NoTimestamp,
    /// The clock reading could not be adjusted without leaving the
    /// representable range.
    ClockFailed,
}

/// Failures of the validator stage; any of them aborts the whole batch.
#[derive(Clone, Copy, Debug, PartialEq, Eq, Structural)]
pub enum ValidationError {
    Time(TimeError),
    /// The header needs a signature and no accepted envelope covers it.
    MissingSignature,
    /// A signature names a public key the chain does not accept.
    UnknownKey,
}

/// Failures of the linter stage.
#[derive(Clone, Copy, Debug, PartialEq, Eq, Structural)]
pub enum LintError {
    /// A row's authorization names a write key the session does not hold.
    MissingWriteKey(AteHash),
    Time(TimeError),
}

/// Failures of the payload transformer stage.
#[derive(Clone, Copy, Debug, PartialEq, Eq, Structural)]
pub enum TransformError {
    /// The row is encrypted under a key the session does not hold.
    MissingReadKey(AteHash),
}

/// Failures when a row is loaded through a transactional view.
#[derive(Clone, Copy, Debug, PartialEq, Eq, Structural)]
pub enum LoadError {
    /// No live row has this key.
    NotFound(PrimaryKey),
    /// The row was deleted within this very view.
    AlreadyDeleted(PrimaryKey),
    /// The row is being edited in this view and has not been flushed.
    ObjectStillLocked(PrimaryKey),
    /// The row is encrypted under a key the session does not hold.
    MissingReadKey,
    /// The payload bytes do not decode to the requested type.
    SerializationError,
    /// The event carries no primary key.
    NoPrimaryKey,
}

/// Failures when a transactional view commits its batch.
#[derive(Clone, Copy, Debug, PartialEq, Eq, Structural)]
pub enum CommitError {
    SerializationError,
    LintError(LintError),
    ValidationError(ValidationError),
    SinkError,
    TransmitError,
    TimeError(TimeError),
}

/// Failures of the wire layer that the framing logic can itself detect.
#[derive(Clone, Debug)]
pub enum CommsError {
    /// The peer refused the connection.
    Refused,
    /// The address did not resolve to anything.
    InvalidDomainName,
    /// No address was configured to connect to.
    NoAddress,
    /// The named scheme is not a known stream protocol.
    UnsupportedProtocolError(String),
    /// A payload does not fit behind the chosen length prefix.
    FrameTooBig { len: usize, max: u64 },
}

/// Failures of a login attempt.
#[derive(Clone, Debug)]
pub enum LoginFailed {
    /// The service holds no master key to derive the user's key from.
    NoMasterKey,
    UserNotFound(Vec<u8>),
    /// Locked until the carried moment, in milliseconds since the epoch.
    AccountLocked { until_ms: u64 },
    /// The account exists but was never verified; carries the email.
    Unverified(Vec<u8>),
    WrongPasswordOrCode,
    /// The user row failed to load for another reason.
    InternalError,
}

} // verus!
