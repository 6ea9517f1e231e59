//! Client-side session and value-coding layer for a request/response
//! key-value protocol.
//!
//! The crate covers four concerns:
//! - the wire codec: commands are laid out as an operation name with an
//!   ordered argument list ([`commands`]) and framed as binary messages;
//!   binary replies are parsed back into tagged values ([`wire`], [`codec`],
//!   [`decode`]), and the reply writer and parser are proved to invert each
//!   other ([`roundtrip`]);
//! - the value model: the tagged scalar result type, the field-map result
//!   type, and the conversions between input and result shapes ([`values`]);
//! - the session state machine: per-connection identity, handshake
//!   validation, and the bounded reconnect policy ([`session`]);
//! - the watch subscription state machine: registration, streaming, and
//!   deterministic teardown ([`watch`]).
//!
//! All socket work (connecting, reading, writing) lives outside this crate;
//! the functions here compute frames, parse frames, and decide state
//! transitions, and every one of them carries a verified contract.

pub mod codec;
pub mod commands;
pub mod decode;
pub mod errors;
pub mod numtext;
pub mod roundtrip;
pub mod session;
pub mod values;
pub mod watch;
pub mod wire;

