//! Coordination core of an e-ink picture frame server: a FIFO flash queue
//! with a single active slot, a per-image edit lock table with expiry, the
//! planning of cache regeneration, and the small rules around them.

pub mod cache_worker;
pub mod cleanup;
mod clock;
pub mod config;
pub mod display_config;
pub mod display_settings;
pub mod flash_queue;
pub mod flash_worker;
pub mod image_locks;
pub mod lock_proofs;
pub mod metadata;
pub mod queue_proofs;
pub mod requests;
pub mod text;
