//! Peer discovery and membership for a permissioned validator overlay.

pub mod address;
pub mod base_types;
pub mod bytes;
pub mod committee;
pub mod config;
pub mod dial;
pub mod directory;
pub mod discovery;
pub mod epoch_start;
pub mod events;
pub mod key_map;
pub mod keys;
pub mod laws;
pub mod narwhal;
pub mod node_info;
pub mod peer;
pub mod server;
