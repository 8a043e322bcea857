//! Signed authorization tokens whose time claims come from a clock that is
//! kept in step with network time servers.
//!
//! The crate is built from small value-level components: a SHA-256 digest
//! engine, an HMAC-SHA256 message-authentication primitive, an unpadded
//! URL-safe Base64 codec, the decision logic of a network-corrected clock, and
//! a compact three-segment token issuer and verifier that combines them.

pub mod base64url;
pub mod sha256;
pub mod hmac256;
pub mod text;
pub mod base_types;
pub mod time_stamp;
pub mod customjwt;
pub mod draw_order;
pub mod model_lookup;
