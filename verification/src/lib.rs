//! Download scheduling, peer message accounting and node configuration
//! for a compact-block-filter Bitcoin light client.

pub mod outside;
mod first_key;
pub mod block_queue;
pub mod counter;
pub mod queue_laws;
pub mod config;
pub mod builder;
pub mod channel_messages;
