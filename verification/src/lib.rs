//! A DM-authoritative virtual-tabletop session core: an entity store for
//! campaigns, characters, maps and assets; a per-map state manager for tokens
//! and fog-of-war with a monotonic sequence counter; a session coordinator
//! that checks peer authority and routes operations; and a broadcast layer
//! with bounded per-peer outboxes.

pub mod broadcast;
pub mod engine;
pub mod errors;
mod ext;
pub mod map_state;
pub mod models;
pub mod session;
pub mod store;
