//! Verified core of a multi-user todo backend: credential storage with
//! bcrypt-hashed passwords, opaque session tokens with lazy expiry, and
//! per-user-scoped todo storage behind a single authorization gateway.

pub mod clock;
pub mod credentials;
pub mod crypto;
pub mod errors;
pub mod gateway;
pub mod lookup;
pub mod models;
pub mod sessions;
pub mod text;
pub mod todos;
pub mod token;
