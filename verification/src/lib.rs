//! Core engine of an SMTP server (RFC 5321): line framing, reply
//! formatting, dot-stuffing body decoding, and the protocol state machine.
//!
//! The engine is transport-agnostic: it makes protocol decisions as pure
//! functions over plain values, and an embedding application drives the
//! socket, the TLS handshake and the policy callbacks around it.

pub mod body;
pub mod codec;
pub mod command;
pub mod error;
pub mod reply;
pub mod session;
