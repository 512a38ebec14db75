//! Replication core for an Unreal Engine client/server integration backed by SpacetimeDB.
pub mod collections;
pub mod text;
pub mod text_parse;
pub mod json;
pub mod shared;
pub mod client;
pub mod server;
