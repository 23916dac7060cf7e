//! Credential storage, session tokens and request authorization for a small
//! identity service: argon2 password hashes, HS256-signed expiring tokens, and
//! the decisions that admit or refuse a request to a protected route.

pub mod gate;
pub mod handlers;
pub mod identity;
pub mod password;
pub mod token;
