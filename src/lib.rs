//! A message relay for long-lived client connections: a registry of live
//! connections, the life of each connection, routing of inbound messages,
//! and password authentication with Argon2id.
pub mod code;
pub mod config;
pub mod dispatch;
pub mod hasher;
pub mod lifecycle;
pub mod mail;
pub mod records;
pub mod registry;
