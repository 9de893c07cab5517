//! An HTTP/1.1 message-framing library.
//!
//! The crate turns a raw, possibly partial byte stream into structured
//! request/response heads, and turns structured output plus a body-length
//! policy back into correctly framed bytes: a buffered channel around a
//! transport, an incremental head decoder, sized/chunked/empty body streams
//! for both directions, and the per-connection keep-alive lifecycle.

pub mod ascii;
pub mod body_reader;
pub mod body_writer;
pub mod buffer;
pub mod chunk;
pub mod client;
pub mod decode;
pub mod error;
pub mod head;
pub mod num;
pub mod policy;
pub mod server;
pub mod tokens;
pub mod transport;
