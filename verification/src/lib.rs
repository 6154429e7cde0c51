//! The verified core of a local proxy that hides its traffic inside TLS-shaped records.

pub mod bytes;
pub mod cli;
pub mod external;
pub mod handshake;
pub mod hello;
pub mod lifecycle;
pub mod records;
pub mod relay;
pub mod settings;
pub mod text;
