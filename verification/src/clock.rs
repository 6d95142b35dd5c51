//! Time source and the [`Timestamp`] type.
use vstd::prelude::*;

verus! {

/// Nanoseconds since the Unix epoch.
#[derive(Copy, Clone, Debug, PartialEq, Eq, PartialOrd, Ord, Hash)]
pub struct Timestamp(u64);

impl View for Timestamp {
    type V = u64;

    closed spec fn view(&self) -> u64 {
        self.0
    }
}

impl Timestamp {
    /// The Unix epoch (1970-01-01T00:00:00Z).
    pub fn epoch() -> (t: Timestamp)
        ensures
            t@ == 0,
    {
        Timestamp(0)
    }

    /// Construct a timestamp from nanoseconds since the Unix epoch.
    pub fn from_nanos(nanos: u64) -> (t: Timestamp)
        ensures
            t@ == nanos,
    {
        Timestamp(nanos)
    }

    /// Nanoseconds since the Unix epoch.
    pub fn as_nanos(self) -> (n: u64)
        ensures
            n == self@,
    {
        self.0
    }
}

impl Default for Timestamp {
    fn default() -> (t: Timestamp)
        ensures
            t@ == 0,
    {
        Timestamp(0)
    }
}

/// Pluggable time source. The chain itself enforces strict monotonicity of
/// the timestamps it records, so nothing is assumed of the values returned.
pub trait Clock {
    /// Whether `nanos` is a reading this clock may give. A clock that
    /// promises nothing keeps the default, whose body is hidden and never
    /// relied on; implementations written in plain Rust need not provide it.
    closed spec fn gives(&self, nanos: u64) -> bool {
        true
    }

    /// Return the current timestamp.
    fn now(&self) -> (t: Timestamp)
        ensures
            self.gives(t@),
    ;
}

} // verus!
