//! A server core for STUN Binding requests: a big-endian byte codec, the
//! message model, header validation and the construction of success and error
//! responses, each stated and proved against a byte-level model.

pub mod codec;
pub mod message;
pub mod stun_handler;
pub mod laws;
