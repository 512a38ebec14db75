//! Server-side logic: relevancy, zones, replication bookkeeping, RPC registry,
//! connections, actors and objects, and property replication.
pub mod relevancy;
pub mod zone;
pub mod distance;
pub mod integration;
pub mod rpc;
pub mod replication;
pub mod serialization;
pub mod connection;
pub mod actor;
pub mod object;
pub mod property;
pub mod validation;
pub mod dispatch;
pub mod conversion;
