//! TLS 1.3 for QUIC on top of rustls.

pub mod config;
pub mod connection;
pub mod context;
pub mod crypto;
pub mod handshake;
pub mod laws;
pub mod machine;
pub mod pem;
pub mod roots;
pub mod session;
pub mod types;
pub mod verifiers;
