//! Streaming relay from a blockchain state-change notification source into a
//! message broker: bounded per-category ingestion queues, deterministic
//! per-message key derivation, a verified wire codec, delivery statistics,
//! publisher-worker bookkeeping and coordinated shutdown.

pub mod build_info;
pub mod channel;
pub mod codec;
pub mod decimal;
pub mod event_codec;
pub mod geyser_neon_config;
pub mod hash;
pub mod kafka_producer_stats;
pub mod kafka_structs;
pub mod message_type;
pub mod pipeline;
pub mod prometheus;
pub mod worker;
