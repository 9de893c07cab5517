//! The transport abstraction the channel sits on.
//!
//! The library never opens sockets itself: callers hand it anything that can
//! read and write bytes, one call at a time. A read that returns no bytes is
//! the terminal end-of-stream signal, not an error.

use vstd::prelude::*;

use crate::error::HttpError;

verus! {

/// A blocking byte stream: one transport read or write per call.
///
/// What a call returns is up to the peer and the operating system, so the
/// contracts promise only bounds, never contents: every user of a transport
/// must cope with every byte sequence the peer may send.
pub trait Transport {
    /// Performs one read, returning at most `max` bytes. An empty vector
    /// means the peer closed the stream.
    fn read_some(&mut self, max: usize) -> (r: Result<Vec<u8>, HttpError>)
        ensures
            r matches Ok(v) ==> v@.len() <= max,
    ;

    /// Performs one write, returning how many leading bytes of `data` the
    /// transport accepted.
    fn write_some(&mut self, data: &[u8]) -> (r: Result<usize, HttpError>)
        ensures
            r matches Ok(n) ==> n <= data@.len(),
    ;
}

/// An owning adapter around a transport.
///
/// Where a caller wants to lend a transport to one component at a time
/// without giving the value away for good, it can move the transport into a
/// `MutIo`, pass that along, and take the transport back out afterwards.
#[derive(Debug)]
pub struct MutIo<T> {
    pub inner: T,
}

impl<T> MutIo<T> {
    /// Wraps `io`.
    pub fn new(io: T) -> (r: Self)
        ensures
            r.inner == io,
    {
        MutIo { inner: io }
    }

    /// Gives the wrapped transport back.
    pub fn into_inner(self) -> (r: T)
        ensures
            r == self.inner,
    {
        self.inner
    }
}

impl<T: Transport> Transport for MutIo<T> {
    fn read_some(&mut self, max: usize) -> (r: Result<Vec<u8>, HttpError>) {
        self.inner.read_some(max)
    }

    fn write_some(&mut self, data: &[u8]) -> (r: Result<usize, HttpError>) {
        self.inner.write_some(data)
    }
}

} // verus!
