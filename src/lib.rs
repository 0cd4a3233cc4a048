//! A text chat hub: users, rooms and their membership, message fan-out through
//! a filter pipeline, and the parsers for slash commands and protocol frames.
//! The transport stays outside; the hub queues each user's outgoing lines.
pub mod command;
pub mod config;
pub mod connection;
pub mod error;
pub mod filter;
pub mod hub;
pub mod laws;
pub mod message;
pub mod protocol;
pub mod room;
pub mod server;
pub mod session;
pub mod text;
pub mod types;
pub mod user;
