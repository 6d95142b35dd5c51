//! Error and result types.
use vstd::prelude::*;

use crate::record::RecordId;
use crate::text::{decimal, push_decimal};
use vstd::string::StringExecFns;

verus! {

/// Convenience result type used throughout the crate.
pub type Result<T> = core::result::Result<T, Error>;

/// Error categories produced by the audit chain, verifier, and codec.
#[derive(Debug, Clone, Copy, PartialEq, Eq)]
#[non_exhaustive]
pub enum Error {
    /// A configured sink failed to persist a record.
    Sink(SinkError),
    /// The running hash chain failed a generic integrity check.
    ChainBroken,
    /// A counter or buffer exceeded its capacity (e.g. record id overflow).
    Capacity,
    /// A timestamp was not strictly greater than the previous one.
    NonMonotonicClock,
    /// A record's stored `hash` does not match the recomputed digest.
    HashMismatch(RecordId),
    /// A record's `prev_hash` does not equal the previous record's `hash`.
    LinkMismatch(RecordId),
    /// A record's id is not the expected next id.
    IdMismatch(RecordId),
    /// Input ended before a complete record could be decoded.
    Truncated,
    /// Encoded bytes are present but do not parse as a valid record.
    InvalidFormat,
    /// Underlying I/O failure (detail suppressed).
    Io,
}

/// Coarse error category returned by sinks.
#[derive(Debug, Clone, Copy, PartialEq, Eq)]
#[non_exhaustive]
pub enum SinkError {
    /// Underlying I/O failure.
    Io,
    /// Sink has reached its capacity.
    Capacity,
    /// Sink has been closed.
    Closed,
    /// Sink-specific failure.
    Other,
}

/// The message describing an error.
pub open spec fn error_message(e: Error) -> Seq<char> {
    match e {
        Error::Sink(_) => "audit sink failure"@,
        Error::ChainBroken => "audit hash chain broken"@,
        Error::Capacity => "audit capacity exceeded"@,
        Error::NonMonotonicClock => "audit clock not monotonic"@,
        Error::HashMismatch(id) => "audit hash mismatch at record "@ + decimal(id@ as nat),
        Error::LinkMismatch(id) => "audit link mismatch at record "@ + decimal(id@ as nat),
        Error::IdMismatch(id) => "audit id mismatch at record "@ + decimal(id@ as nat),
        Error::Truncated => "audit input truncated"@,
        Error::InvalidFormat => "audit input invalid format"@,
        Error::Io => "audit i/o failure"@,
    }
}

/// The message describing a sink error.
pub open spec fn sink_error_message(e: SinkError) -> Seq<char> {
    match e {
        SinkError::Io => "sink i/o failure"@,
        SinkError::Capacity => "sink capacity exceeded"@,
        SinkError::Closed => "sink closed"@,
        SinkError::Other => "sink error"@,
    }
}

/// A label followed by a record number in decimal.
fn numbered(label: &str, id: RecordId) -> (s: String)
    ensures
        s@ == label@ + decimal(id@ as nat),
{
    let mut s = label.to_owned();
    push_decimal(&mut s, id.as_u64());
    s
}

impl Error {
    /// A human-readable message for this error.
    pub fn to_string(&self) -> (s: String)
        ensures
            s@ == error_message(*self),
    {
        match self {
            Error::Sink(_) => "audit sink failure".to_owned(),
            Error::ChainBroken => "audit hash chain broken".to_owned(),
            Error::Capacity => "audit capacity exceeded".to_owned(),
            Error::NonMonotonicClock => "audit clock not monotonic".to_owned(),
            Error::HashMismatch(id) => numbered("audit hash mismatch at record ", *id),
            Error::LinkMismatch(id) => numbered("audit link mismatch at record ", *id),
            Error::IdMismatch(id) => numbered("audit id mismatch at record ", *id),
            Error::Truncated => "audit input truncated".to_owned(),
            Error::InvalidFormat => "audit input invalid format".to_owned(),
            Error::Io => "audit i/o failure".to_owned(),
        }
    }

    /// The sink error this error wraps, if any.
    pub fn source(&self) -> (s: Option<SinkError>)
        ensures
            s == (match *self {
                Error::Sink(inner) => Some(inner),
                _ => None,
            }),
    {
        match self {
            Error::Sink(inner) => Some(*inner),
            _ => None,
        }
    }
}

impl SinkError {
    /// A human-readable message for this sink error.
    pub fn to_string(&self) -> (s: String)
        ensures
            s@ == sink_error_message(*self),
    {
        match self {
            SinkError::Io => "sink i/o failure".to_owned(),
            SinkError::Capacity => "sink capacity exceeded".to_owned(),
            SinkError::Closed => "sink closed".to_owned(),
            SinkError::Other => "sink error".to_owned(),
        }
    }
}

impl From<SinkError> for Error {
    fn from(value: SinkError) -> (e: Error) {
        Error::Sink(value)
    }
}

impl vstd::std_specs::convert::FromSpecImpl<SinkError> for Error {
    open spec fn obeys_from_spec() -> bool {
        true
    }

    open spec fn from_spec(value: SinkError) -> Error {
        Error::Sink(value)
    }
}

} // verus!
