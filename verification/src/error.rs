//! Connection-level error taxonomy.
//!
//! Every variant is fatal to the connection that raises it and never crosses
//! to another connection. "Need more data" is not an error: decoders signal
//! it with `Ok(None)`.

use vstd::prelude::*;

verus! {

/// What went wrong on a connection.
#[derive(Debug, Clone)]
pub enum HttpError {
    /// A request line, header line or chunk-size line did not follow the
    /// HTTP/1.1 grammar.
    Parse,
    /// The transport reported end-of-stream while a sized or chunked body
    /// still expected more bytes.
    PrematureEof,
    /// The transport itself failed (reset, broken pipe, timeout).
    Transport,
    /// A request named a method this library does not accept; the bytes of
    /// that method name.
    InvalidMethod { name: Vec<u8> },
}

impl HttpError {
    /// A short human-readable label for the error.
    pub fn message(&self) -> (r: &'static str)
        ensures
            r@ =~= self.message_spec(),
    {
        match self {
            HttpError::Parse => "malformed head or chunk syntax",
            HttpError::PrematureEof => "early eof",
            HttpError::Transport => "transport error",
            HttpError::InvalidMethod { .. } => "invalid method name",
        }
    }

    pub open spec fn message_spec(&self) -> Seq<char> {
        match self {
            HttpError::Parse => "malformed head or chunk syntax"@,
            HttpError::PrematureEof => "early eof"@,
            HttpError::Transport => "transport error"@,
            HttpError::InvalidMethod { .. } => "invalid method name"@,
        }
    }
}

} // verus!
