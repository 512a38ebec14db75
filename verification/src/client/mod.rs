//! Client-side logic: class registry, property definitions and staging cache,
//! objects and actors, prediction, networking state and RPC results.
pub mod class;
pub mod prediction;
pub mod serialization;
pub mod property;
pub mod net;
pub mod object;
pub mod actor;
pub mod rpc;
pub mod entry;
