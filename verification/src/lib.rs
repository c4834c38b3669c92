//! The TLS side of a QUIC endpoint: packet protection, handshake state,
//! certificate checks, session tickets and session stores, each with its
//! behaviour stated in contracts and proved.

pub mod bytes;
pub mod crypto;
pub mod error;
pub mod outside;
pub mod packet;
pub mod quic_crypto;
pub mod shared;
pub mod tls;
