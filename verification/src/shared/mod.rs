//! Types and values shared by the client and the server.
pub mod types;
pub mod lifecycle;
pub mod property;
pub mod connection;
pub mod rpc;
pub mod relevancy;
pub mod actor;
pub mod object;
