//! The bytes a file-backed sink writes for one record.
use vstd::prelude::*;

use crate::codec::{body_len, encode_record, frame_bytes};
use crate::error::SinkError;
use crate::record::Record;

verus! {

/// Encode `record` as one frame in `scratch`, replacing what it held. A
/// record whose body length does not fit in a `u32` cannot be written and
/// is reported as a sink failure (`Other`).
pub fn frame_record(record: &Record<'_>, scratch: &mut Vec<u8>) -> (r: core::result::Result<
    (),
    SinkError,
>)
    ensures
        match r {
            Ok(()) => body_len(record@) <= u32::MAX && final(scratch)@ == frame_bytes(record@),
            Err(e) => body_len(record@) > u32::MAX && e == SinkError::Other,
        },
{
    scratch.clear();
    match encode_record(record, scratch) {
        Ok(()) => {
            assert(scratch@ =~= frame_bytes(record@));
            Ok(())
        },
        Err(_) => Err(SinkError::Other),
    }
}

} // verus!
