//! The TLS handshake of a QUIC connection, and what it rests on.

pub mod certificate;
pub mod client_sessions;
pub mod client_store;
pub mod connection;
pub mod context;
pub mod credentials;
pub mod der;
pub mod flight;
pub mod foreign;
pub mod handshake;
pub mod identity;
pub mod key_log;
pub mod legacy;
pub mod roots;
pub mod server_sessions;
pub mod session_registry;
pub mod setup;
pub mod text;
pub mod ticket;
pub mod time;
pub mod verify;
