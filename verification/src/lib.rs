//! Client-side credential vault and outbound request gateway.
//!
//! The crate persists a single bearer credential under authenticated
//! encryption, gates its use behind a user-presence check with a resume
//! timeout, caches the decrypted secret in memory, and validates every
//! outbound call (method, path, timeout, base URL, secret resolution)
//! before the secret is attached.  A handful of pure helpers for the
//! backend service (container status parsing, timeline queries, request
//! authorization) live beside it.

pub mod adguard;
pub mod auth;
pub mod config;
pub mod crypto;
pub mod docker;
pub mod health;
pub mod numstr;
pub mod error;
pub mod feed;
pub mod gateway;
pub mod greet;
pub mod session;
pub mod strutil;
pub mod timeline;
