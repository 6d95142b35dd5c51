//! Reference [`crate::Sink`] implementations and the framing a file sink
//! writes.

mod frame;
mod memory;

pub use frame::frame_record;
pub use memory::{
    lemma_memory_chain_appends, lemma_memory_sink_append, lemma_memory_sink_writes, record_views, write_step,
    MemorySink,
};
