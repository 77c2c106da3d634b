//! A multi-room chat service with end-to-end encrypted message bodies, and the
//! local proxy bridge that its desktop client uses to reach the server through
//! an anonymity overlay.
//!
//! The data model, authorization rules, validation, presence tracking, event
//! fan-out and the proxy handshake are verified; transports and storage
//! engines sit outside this crate and drive it through plain values.

pub mod error;
pub mod ids;
pub mod text;
pub mod validation;
pub mod config;
pub mod auth;
pub mod store;
pub mod presence;
pub mod broker;
pub mod requests;
pub mod service;
pub mod upload;
pub mod tor;
pub mod socks;
pub mod bridge;
pub mod laws;
