//! The server: its connections, and what goes over them.

pub mod attachment;
pub mod chunk;
pub mod clients;
pub mod connection;
pub mod handlers;
pub mod mdns;
pub mod packets;
pub mod protocol;
pub mod registry;
pub mod stream;
pub mod transfer;
pub mod turn;
pub mod validation;
