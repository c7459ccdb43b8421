//! File-integrity monitoring core: the wire format of one filesystem-mutation
//! event, the monitored-path filter that gates event emission, the probe-entry
//! logic that builds events from raw syscall arguments, and the consumer-side
//! decoding of wire records into typed events.

pub mod codec;
pub mod consumer;
pub mod events;
pub mod filter;
pub mod probe;
pub mod wire;

pub use events::FimOperation;
pub use events::WhoDataEvent;
