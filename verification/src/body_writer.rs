//! The write side of a message body: a push-based byte sink over the
//! buffered channel that encodes chunk boundaries or counts toward a fixed
//! length, and terminates the body correctly when it is finished.
//!
//! Contracts are stated over the channel's write-side history `outgoing()`:
//! a chunked write appends exactly one chunk frame, a sized write appends
//! the accepted bytes and ticks the remaining count down, and finishing a
//! chunked body appends the terminal framing. An under-written sized body
//! cannot be finished: that is an error, so a caller closes the connection
//! instead of fabricating bytes the peer was promised.

use vstd::prelude::*;

use crate::ascii::{CR, DIGIT_0, LF};
use crate::buffer::BufferIo;
use crate::chunk::{chunk_frame, chunked_terminal};
use crate::error::HttpError;
use crate::num::to_hex;
use crate::transport::Transport;

verus! {

/// The write side of one message body.
pub enum BodyWriter<T> {
    /// A declared-length body: the channel and how many bytes may still be
    /// written before the declared length is reached.
    SizedWriter(BufferIo<T>, usize),
    /// A chunked body: every write becomes one length-prefixed chunk.
    ChunkWriter(BufferIo<T>),
    /// A body that must stay empty: writes are accepted and discarded.
    EmptyWriter(BufferIo<T>),
    /// The placeholder a response or request starts with before its head is
    /// written; it holds no channel and accepts no writes.
    InvalidWriter,
}

impl<T> BodyWriter<T> {
    /// The variant's name, for diagnostics.
    pub fn name(&self) -> (r: &'static str)
        ensures
            (*self) is SizedWriter ==> r@ == "SizedWriter"@,
            (*self) is ChunkWriter ==> r@ == "ChunkWriter"@,
            (*self) is EmptyWriter ==> r@ == "EmptyWriter"@,
            (*self) is InvalidWriter ==> r@ == "InvalidWriter"@,
    {
        match *self {
            BodyWriter::SizedWriter(..) => "SizedWriter",
            BodyWriter::ChunkWriter(..) => "ChunkWriter",
            BodyWriter::EmptyWriter(..) => "EmptyWriter",
            BodyWriter::InvalidWriter => "InvalidWriter",
        }
    }

    /// Takes the channel back without terminating the body. Only for
    /// tearing a connection down.
    pub fn into_channel(self) -> (r: Option<BufferIo<T>>)
        ensures
            self matches BodyWriter::SizedWriter(c, _) ==> r == Some(c),
            self matches BodyWriter::ChunkWriter(c) ==> r == Some(c),
            self matches BodyWriter::EmptyWriter(c) ==> r == Some(c),
            self is InvalidWriter ==> r is None,
    {
        match self {
            BodyWriter::SizedWriter(c, _) => Some(c),
            BodyWriter::ChunkWriter(c) => Some(c),
            BodyWriter::EmptyWriter(c) => Some(c),
            BodyWriter::InvalidWriter => None,
        }
    }
}

impl<T: Transport> BodyWriter<T> {
    /// Pushes body bytes.
    ///
    /// A sized writer accepts at most its remaining count, never expanding a
    /// body past its declared length; a chunked writer frames the whole of
    /// `buf` as one chunk and accepts it all (the framing overhead is not
    /// counted against the caller); an empty writer discards the bytes and
    /// reports none accepted. The body bytes a reader will see on the other
    /// side are appended to the channel's write-side history exactly.
    pub fn write(&mut self, buf: &[u8]) -> (r: Result<usize, HttpError>)
        requires
            !((*old(self)) is InvalidWriter),
        ensures
            (*old(self)) matches BodyWriter::SizedWriter(c0, rem0) ==> match r {
                Ok(n) => (*final(self)) matches BodyWriter::SizedWriter(c1, rem1) && {
                    &&& n <= buf@.len()
                    &&& n <= rem0
                    &&& rem1 == rem0 - n
                    &&& c1.outgoing() == c0.outgoing() + buf@.take(n as int)
                    &&& c1.buffered() == c0.buffered()
                    &&& c1.taken_bytes() == c0.taken_bytes()
                    &&& c1.write_capacity() == c0.write_capacity()
                    &&& (rem0 > 0 && buf@.len() > 0 && c0.write_capacity() > 0 ==> n > 0)
                },
                Err(_) => (*final(self)) matches BodyWriter::SizedWriter(c1, rem1) && {
                    &&& rem1 == rem0
                    &&& c1.buffered() == c0.buffered()
                    &&& c1.taken_bytes() == c0.taken_bytes()
                },
            },
            (*old(self)) matches BodyWriter::ChunkWriter(c0) ==> match r {
                Ok(n) => (*final(self)) matches BodyWriter::ChunkWriter(c1) && {
                    &&& n == buf@.len()
                    &&& c1.outgoing() == c0.outgoing() + chunk_frame(buf@)
                    &&& c1.buffered() == c0.buffered()
                    &&& c1.taken_bytes() == c0.taken_bytes()
                    &&& c1.write_capacity() == c0.write_capacity()
                },
                Err(_) => (*final(self)) matches BodyWriter::ChunkWriter(c1) && {
                    &&& c1.buffered() == c0.buffered()
                    &&& c1.taken_bytes() == c0.taken_bytes()
                },
            },
            (*old(self)) matches BodyWriter::EmptyWriter(c0) ==> (r matches Ok(n) && n == 0
                && *final(self) == *old(self)),
    {
        match self {
            BodyWriter::SizedWriter(chan, remain) => {
                let len: usize = if *remain < buf.len() {
                    *remain
                } else {
                    buf.len()
                };
                let part = &buf[0..len];
                let n = match chan.write(part) {
                    Ok(n) => n,
                    Err(e) => {
                        return Err(e);
                    },
                };
                proof {
                    assert(part@.take(n as int) =~= buf@.take(n as int));
                }
                *remain = *remain - n;
                Ok(n)
            },
            BodyWriter::ChunkWriter(chan) => {
                let ghost c0 = *chan;
                let hexlen = to_hex(buf.len());
                let mut crlf: Vec<u8> = Vec::new();
                crlf.push(CR);
                crlf.push(LF);
                match chan.write_all(hexlen.as_slice()) {
                    Ok(_) => {},
                    Err(e) => {
                        return Err(e);
                    },
                }
                match chan.write_all(crlf.as_slice()) {
                    Ok(_) => {},
                    Err(e) => {
                        return Err(e);
                    },
                }
                match chan.write_all(buf) {
                    Ok(_) => {},
                    Err(e) => {
                        return Err(e);
                    },
                }
                match chan.write_all(crlf.as_slice()) {
                    Ok(_) => {},
                    Err(e) => {
                        return Err(e);
                    },
                }
                proof {
                    assert(crlf@ =~= seq![CR, LF]);
                    assert(chan.outgoing() =~= c0.outgoing() + chunk_frame(buf@));
                }
                Ok(buf.len())
            },
            BodyWriter::EmptyWriter(_) => Ok(0),
            BodyWriter::InvalidWriter => Err(HttpError::Transport),
        }
    }

    /// Flushes the channel under the body.
    pub fn flush(&mut self) -> (r: Result<(), HttpError>)
        requires
            !((*old(self)) is InvalidWriter),
        ensures
            (*old(self)) matches BodyWriter::SizedWriter(c0, rem0) ==> (*final(self)) matches
                BodyWriter::SizedWriter(c1, rem1) && flushed_to(c0, c1, r) && rem1 == rem0,
            (*old(self)) matches BodyWriter::ChunkWriter(c0) ==> (*final(self)) matches
                BodyWriter::ChunkWriter(c1) && flushed_to(c0, c1, r),
            (*old(self)) matches BodyWriter::EmptyWriter(c0) ==> (*final(self)) matches
                BodyWriter::EmptyWriter(c1) && flushed_to(c0, c1, r),
    {
        match self {
            BodyWriter::SizedWriter(chan, _) => chan.flush(),
            BodyWriter::ChunkWriter(chan) => chan.flush(),
            BodyWriter::EmptyWriter(chan) => chan.flush(),
            BodyWriter::InvalidWriter => Err(HttpError::Transport),
        }
    }

    /// Completes the body and hands the channel back, flushed.
    ///
    /// A chunked body gets its terminal framing first. A sized body that
    /// has not received its whole declared length cannot be completed: the
    /// outgoing byte stream can no longer be made to conform, so the call
    /// fails and the connection must close.
    pub fn finish(self) -> (r: Result<BufferIo<T>, HttpError>)
        requires
            !(self is InvalidWriter),
        ensures
            self matches BodyWriter::SizedWriter(c0, rem0) ==> match r {
                Ok(c) => {
                    &&& rem0 == 0
                    &&& c.sent_bytes() == c0.outgoing()
                    &&& c.pending().len() == 0
                    &&& c.buffered() == c0.buffered()
                    &&& c.taken_bytes() == c0.taken_bytes()
                },
                Err(_) => true,
            },
            self matches BodyWriter::ChunkWriter(c0) ==> match r {
                Ok(c) => {
                    &&& c.sent_bytes() == c0.outgoing() + chunked_terminal()
                    &&& c.pending().len() == 0
                    &&& c.buffered() == c0.buffered()
                    &&& c.taken_bytes() == c0.taken_bytes()
                },
                Err(_) => true,
            },
            self matches BodyWriter::EmptyWriter(c0) ==> match r {
                Ok(c) => {
                    &&& c.sent_bytes() == c0.outgoing()
                    &&& c.pending().len() == 0
                    &&& c.buffered() == c0.buffered()
                    &&& c.taken_bytes() == c0.taken_bytes()
                },
                Err(_) => true,
            },
    {
        match self {
            BodyWriter::SizedWriter(mut chan, remain) => {
                if remain > 0 {
                    // the peer was promised more bytes than were written;
                    // fabricating them would corrupt the body, so fail
                    return Err(HttpError::Transport);
                }
                match chan.flush() {
                    Ok(_) => Ok(chan),
                    Err(e) => Err(e),
                }
            },
            BodyWriter::ChunkWriter(mut chan) => {
                let ghost c0 = chan;
                let mut terminal: Vec<u8> = Vec::new();
                terminal.push(DIGIT_0);
                terminal.push(CR);
                terminal.push(LF);
                terminal.push(CR);
                terminal.push(LF);
                match chan.write_all(terminal.as_slice()) {
                    Ok(_) => {},
                    Err(e) => {
                        return Err(e);
                    },
                }
                proof {
                    assert(terminal@ =~= chunked_terminal());
                }
                match chan.flush() {
                    Ok(_) => Ok(chan),
                    Err(e) => Err(e),
                }
            },
            BodyWriter::EmptyWriter(mut chan) => {
                match chan.flush() {
                    Ok(_) => Ok(chan),
                    Err(e) => Err(e),
                }
            },
            BodyWriter::InvalidWriter => Err(HttpError::Transport),
        }
    }
}

/// What a flush leaves behind: on success everything written stands sent
/// and nothing is pending; either way the write-side history and the whole
/// read side are untouched.
pub open spec fn flushed_to<T>(c0: BufferIo<T>, c1: BufferIo<T>, r: Result<(), HttpError>) -> bool {
    &&& (r is Ok ==> c1.pending().len() == 0 && c1.sent_bytes() == c0.outgoing())
    &&& c1.outgoing() == c0.outgoing()
    &&& c1.buffered() == c0.buffered()
    &&& c1.taken_bytes() == c0.taken_bytes()
    &&& c1.write_capacity() == c0.write_capacity()
}

} // verus!
