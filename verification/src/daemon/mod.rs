//! The authentication daemon's decisions: the flight registry, the IPC
//! messages and framing, the authentication and administration handlers,
//! the virtual fingerprint device, and peer identification.
pub mod flights;
pub mod ipc;
pub mod ipc_codec;
pub mod auth;
pub mod admin;
pub mod peer;
pub mod peer_identity;
pub mod error;
pub mod service;
pub mod fprintd;
