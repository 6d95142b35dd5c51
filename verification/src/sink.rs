//! The pluggable [`Sink`] trait that persists audit records.
use vstd::prelude::*;

use crate::error::SinkError;
use crate::record::{Record, RecordView};

verus! {

/// A target that consumes audit records produced by a [`crate::Chain`],
/// in chain order. The chain only reacts to whether `write` succeeded.
pub trait Sink {
    /// Whether one write of `record` may take this sink to `after` and
    /// report `result`. A sink that promises nothing keeps the default,
    /// whose body is hidden and never relied on; implementations written in
    /// plain Rust need not provide it.
    closed spec fn wrote(
        &self,
        after: &Self,
        record: RecordView,
        result: core::result::Result<(), SinkError>,
    ) -> bool {
        true
    }

    /// Persist a single record.
    fn write(&mut self, record: &Record<'_>) -> (r: core::result::Result<(), SinkError>)
        ensures
            old(self).wrote(&*final(self), record@, r),
    ;
}

} // verus!
