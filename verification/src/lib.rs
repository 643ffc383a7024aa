//! Verified core of a review-site backend's authentication subsystem:
//! identity-token validation against a provider key set, single-use nonce
//! bookkeeping, user directory resolution with username rules, a time-bounded
//! session codec, and the gateway that orchestrates login, signup and
//! authenticated requests.

pub mod directory;
pub mod errors;
pub mod gateway;
pub mod keyset;
pub mod nonce;
pub mod session;
pub mod strutil;
pub mod token;
pub mod username;
