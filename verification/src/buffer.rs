//! The buffered channel: one growable read buffer and one flushable write
//! buffer around a single transport handle.
//!
//! The channel is the only component that touches the raw transport. Its
//! contract is kept in four byte sequences: `buffered()` (read from the
//! transport, not yet consumed), `taken_bytes()` (everything ever consumed,
//! in order), `pending()` (written, not yet flushed) and `sent_bytes()`
//! (everything ever handed to the transport). Consumed bytes are never
//! re-parsed, and pending bytes leave only through a flush.

use vstd::prelude::*;

use vstd::math::min;
use vstd::seq_lib::*;

use crate::error::HttpError;
use crate::transport::Transport;

verus! {

/// The default buffer capacity, and the growth step of the read buffer.
pub const INIT_BUFFER_SIZE: usize = 1024;

/// The least free read-buffer space worth offering the transport.
pub const MIN_READ_SPACE: usize = 32;

/// A buffered channel around one transport.
pub struct BufferIo<T> {
    inner: T,
    /// Bytes read from the transport and not yet consumed.
    rbuf: Vec<u8>,
    /// Nominal read-buffer capacity; grows when free space runs low.
    rcap: usize,
    /// History of every byte consumed from the read side.
    taken: Ghost<Seq<u8>>,
    /// Bytes written and not yet flushed.
    wbuf: Vec<u8>,
    /// Write-buffer capacity: a write past it forces a flush first.
    wcap: usize,
    /// History of every byte handed to the transport.
    sent: Ghost<Seq<u8>>,
}

impl<T> BufferIo<T> {
    /// The unconsumed bytes already read from the transport.
    pub closed spec fn buffered(&self) -> Seq<u8> {
        self.rbuf@
    }

    /// Every byte ever consumed from the read side, oldest first.
    pub closed spec fn taken_bytes(&self) -> Seq<u8> {
        self.taken@
    }

    /// The written bytes not yet flushed to the transport.
    pub closed spec fn pending(&self) -> Seq<u8> {
        self.wbuf@
    }

    /// Every byte ever handed to the transport, oldest first.
    pub closed spec fn sent_bytes(&self) -> Seq<u8> {
        self.sent@
    }

    /// Everything written so far, flushed or not: the write-side history.
    pub open spec fn outgoing(&self) -> Seq<u8> {
        self.sent_bytes() + self.pending()
    }

    /// The write-buffer capacity.
    pub closed spec fn write_capacity(&self) -> nat {
        self.wcap as nat
    }

    /// The transport inside.
    pub closed spec fn transport(&self) -> T {
        self.inner
    }

    /// Wraps `io` with the default buffer capacity.
    pub fn new(io: T) -> (r: Self)
        ensures
            r.buffered() =~= Seq::<u8>::empty(),
            r.taken_bytes() =~= Seq::<u8>::empty(),
            r.pending() =~= Seq::<u8>::empty(),
            r.sent_bytes() =~= Seq::<u8>::empty(),
            r.write_capacity() == INIT_BUFFER_SIZE,
            r.transport() == io,
    {
        BufferIo::with_capacity(io, INIT_BUFFER_SIZE)
    }

    /// Wraps `io` with the given initial buffer capacity.
    pub fn with_capacity(io: T, cap: usize) -> (r: Self)
        ensures
            r.buffered() =~= Seq::<u8>::empty(),
            r.taken_bytes() =~= Seq::<u8>::empty(),
            r.pending() =~= Seq::<u8>::empty(),
            r.sent_bytes() =~= Seq::<u8>::empty(),
            r.write_capacity() == cap,
            r.transport() == io,
    {
        BufferIo {
            inner: io,
            rbuf: Vec::new(),
            rcap: cap,
            taken: Ghost(Seq::empty()),
            wbuf: Vec::new(),
            wcap: cap,
            sent: Ghost(Seq::empty()),
        }
    }

    /// Takes the transport back, dropping both buffers.
    pub fn into_inner(self) -> (r: T)
        ensures
            r == self.transport(),
    {
        self.inner
    }

    /// The unconsumed read bytes, as they sit in the buffer.
    pub fn get_reader_buf(&self) -> (r: &Vec<u8>)
        ensures
            r@ == self.buffered(),
    {
        &self.rbuf
    }
}

impl<T: Transport> BufferIo<T> {
    /// Performs one transport read into the read buffer's free space,
    /// growing the buffer when free space is below `MIN_READ_SPACE`.
    /// Returns how many bytes arrived; `0` means the peer closed.
    pub fn bump_read(&mut self) -> (r: Result<usize, HttpError>)
        ensures
            match r {
                Ok(n) => {
                    &&& final(self).buffered().len() == old(self).buffered().len() + n
                    &&& old(self).buffered().is_prefix_of(final(self).buffered())
                },
                Err(_) => final(self).buffered() == old(self).buffered(),
            },
            final(self).taken_bytes() == old(self).taken_bytes(),
            final(self).pending() == old(self).pending(),
            final(self).sent_bytes() == old(self).sent_bytes(),
            final(self).write_capacity() == old(self).write_capacity(),
    {
        let held = self.rbuf.len();
        let mut free: usize = if self.rcap > held {
            self.rcap - held
        } else {
            0
        };
        if free < MIN_READ_SPACE {
            if self.rcap <= usize::MAX - INIT_BUFFER_SIZE {
                self.rcap = self.rcap + INIT_BUFFER_SIZE;
            }
            free = if self.rcap > held {
                self.rcap - held
            } else {
                free
            };
        }
        match self.inner.read_some(free) {
            Ok(mut v) => {
                let n = v.len();
                self.rbuf.append(&mut v);
                proof {
                    assert(self.rbuf@.take(old(self).rbuf@.len() as int) =~= old(self).rbuf@);
                }
                Ok(n)
            },
            Err(e) => Err(e),
        }
    }

    /// Drops the first `amt` unconsumed bytes: they move, in order, into the
    /// consumed history and are never looked at again.
    pub fn consume(&mut self, amt: usize)
        requires
            amt <= old(self).buffered().len(),
        ensures
            final(self).buffered() == old(self).buffered().skip(amt as int),
            final(self).taken_bytes() == old(self).taken_bytes() + old(self).buffered().take(
                amt as int,
            ),
            final(self).pending() == old(self).pending(),
            final(self).sent_bytes() == old(self).sent_bytes(),
            final(self).write_capacity() == old(self).write_capacity(),
            final(self).transport() == old(self).transport(),
    {
        let ghost eaten = self.rbuf@.take(amt as int);
        let mut rest: Vec<u8> = Vec::new();
        let mut i: usize = amt;
        while i < self.rbuf.len()
            invariant
                amt <= i <= self.rbuf@.len(),
                rest@ =~= self.rbuf@.subrange(amt as int, i as int),
            decreases self.rbuf@.len() - i,
        {
            rest.push(self.rbuf[i]);
            i = i + 1;
        }
        proof {
            assert(rest@ =~= self.rbuf@.skip(amt as int));
        }
        self.rbuf = rest;
        self.taken = Ghost(self.taken@ + eaten);
    }

    /// Serves buffered bytes, at most `max`; fills from the transport only
    /// when the buffer is empty, so with a nonempty buffer the call cannot
    /// fail. An empty result with `max > 0` means the peer closed the
    /// stream.
    pub fn read(&mut self, max: usize) -> (r: Result<Vec<u8>, HttpError>)
        ensures
            old(self).buffered().len() > 0 ==> r is Ok,
            match r {
                Ok(v) => {
                    &&& v@.len() <= max
                    &&& final(self).taken_bytes() == old(self).taken_bytes() + v@
                    &&& (old(self).buffered().len() > 0 ==> v@ == old(self).buffered().take(
                        min(max as int, old(self).buffered().len() as int),
                    ) && final(self).buffered() == old(self).buffered().skip(
                        min(max as int, old(self).buffered().len() as int),
                    ))
                    &&& (old(self).buffered().len() > 0 && max > 0 ==> v@.len() > 0)
                    &&& (v@.len() == 0 && max > 0 ==> final(self).buffered().len() == 0)
                },
                Err(_) => {
                    &&& final(self).buffered() == old(self).buffered()
                    &&& final(self).taken_bytes() == old(self).taken_bytes()
                },
            },
            final(self).pending() == old(self).pending(),
            final(self).sent_bytes() == old(self).sent_bytes(),
            final(self).write_capacity() == old(self).write_capacity(),
    {
        if self.rbuf.len() == 0 {
            match self.bump_read() {
                Ok(_) => {},
                Err(e) => {
                    return Err(e);
                },
            }
        }
        let k: usize = if max < self.rbuf.len() {
            max
        } else {
            self.rbuf.len()
        };
        let mut v: Vec<u8> = Vec::new();
        let mut i: usize = 0;
        while i < k
            invariant
                0 <= i <= k <= self.rbuf@.len(),
                v@ =~= self.rbuf@.take(k as int).take(i as int),
            decreases k - i,
        {
            v.push(self.rbuf[i]);
            i = i + 1;
        }
        proof {
            assert(v@ =~= self.rbuf@.take(k as int));
        }
        self.consume(k);
        Ok(v)
    }

    /// Serves exactly one byte, filling once if the buffer is empty, so
    /// with a nonempty buffer the call cannot fail. `Ok(None)` means the
    /// peer closed the stream.
    pub fn read_byte(&mut self) -> (r: Result<Option<u8>, HttpError>)
        ensures
            old(self).buffered().len() > 0 ==> (r matches Ok(b) && b is Some),
            match r {
                Ok(Some(b)) => {
                    &&& final(self).taken_bytes() == old(self).taken_bytes().push(b)
                    &&& (old(self).buffered().len() > 0 ==> b == old(self).buffered()[0]
                        && final(self).buffered() == old(self).buffered().skip(1))
                },
                Ok(None) => {
                    &&& final(self).taken_bytes() == old(self).taken_bytes()
                    &&& old(self).buffered().len() == 0
                    &&& final(self).buffered().len() == 0
                },
                Err(_) => {
                    &&& final(self).buffered() == old(self).buffered()
                    &&& final(self).taken_bytes() == old(self).taken_bytes()
                },
            },
            final(self).pending() == old(self).pending(),
            final(self).sent_bytes() == old(self).sent_bytes(),
            final(self).write_capacity() == old(self).write_capacity(),
    {
        let ghost had = self.buffered().len();
        match self.read(1) {
            Ok(v) => {
                if v.len() == 0 {
                    Ok(None)
                } else {
                    proof {
                        assert(old(self).taken_bytes() + v@ =~= old(self).taken_bytes().push(
                            v@[0],
                        ));
                    }
                    Ok(Some(v[0]))
                }
            },
            Err(e) => Err(e),
        }
    }

    /// Copies into the write buffer, flushing first when it is full;
    /// returns how many leading bytes of `buf` were accepted. While the
    /// buffer has room no flush happens, so the call cannot fail.
    pub fn write(&mut self, buf: &[u8]) -> (r: Result<usize, HttpError>)
        ensures
            old(self).pending().len() < old(self).write_capacity() ==> r is Ok,
            match r {
                Ok(n) => {
                    &&& n <= buf@.len()
                    &&& final(self).outgoing() == old(self).outgoing() + buf@.take(n as int)
                    &&& n as int == if old(self).pending().len() < old(self).write_capacity() {
                        min(
                            old(self).write_capacity() as int - old(self).pending().len() as int,
                            buf@.len() as int,
                        )
                    } else {
                        min(old(self).write_capacity() as int, buf@.len() as int)
                    }
                },
                Err(_) => final(self).outgoing() == old(self).outgoing(),
            },
            final(self).buffered() == old(self).buffered(),
            final(self).taken_bytes() == old(self).taken_bytes(),
            final(self).write_capacity() == old(self).write_capacity(),
    {
        if self.wbuf.len() >= self.wcap {
            match self.flush() {
                Ok(_) => {},
                Err(e) => {
                    return Err(e);
                },
            }
        }
        let free: usize = self.wcap - self.wbuf.len();
        let n: usize = if free < buf.len() {
            free
        } else {
            buf.len()
        };
        let ghost before = self.outgoing();
        let mut i: usize = 0;
        while i < n
            invariant
                0 <= i <= n <= buf@.len(),
                self.outgoing() =~= before + buf@.take(n as int).take(i as int),
                self.buffered() == old(self).buffered(),
                self.taken_bytes() == old(self).taken_bytes(),
                self.write_capacity() == old(self).write_capacity(),
            decreases n - i,
        {
            proof {
                assert(buf@.take(n as int).take(i + 1) =~= buf@.take(n as int).take(
                    i as int,
                ).push(buf@[i as int]));
                assert((before + buf@.take(n as int).take(i as int)).push(buf@[i as int]) =~= before
                    + buf@.take(n as int).take(i + 1));
            }
            self.wbuf.push(buf[i]);
            i = i + 1;
        }
        proof {
            assert(buf@.take(n as int).take(n as int) =~= buf@.take(n as int));
            assert(self.outgoing() =~= before + buf@.take(n as int));
        }
        Ok(n)
    }

    /// Writes all of `buf` into the channel, flushing as needed.
    pub fn write_all(&mut self, buf: &[u8]) -> (r: Result<(), HttpError>)
        ensures
            r matches Ok(_) ==> final(self).outgoing() == old(self).outgoing() + buf@,
            final(self).buffered() == old(self).buffered(),
            final(self).taken_bytes() == old(self).taken_bytes(),
            final(self).write_capacity() == old(self).write_capacity(),
    {
        let ghost before = self.outgoing();
        let mut done: usize = 0;
        while done < buf.len()
            invariant
                0 <= done <= buf@.len(),
                self.outgoing() =~= before + buf@.take(done as int),
                self.buffered() == old(self).buffered(),
                self.taken_bytes() == old(self).taken_bytes(),
                self.write_capacity() == old(self).write_capacity(),
            decreases buf@.len() - done,
        {
            let part = &buf[done..buf.len()];
            match self.write(part) {
                Ok(n) => {
                    if n == 0 {
                        return Err(HttpError::Transport);
                    }
                    proof {
                        assert(before + buf@.take(done as int) + part@.take(n as int) =~= before
                            + buf@.take(done as int + n as int));
                    }
                    done = done + n;
                },
                Err(e) => {
                    return Err(e);
                },
            }
        }
        proof {
            assert(before + buf@.take(buf@.len() as int) =~= before + buf@);
        }
        Ok(())
    }

    /// Hands the entire pending write buffer to the transport and clears
    /// it; with nothing pending there is nothing to hand over and the call
    /// cannot fail.
    pub fn flush(&mut self) -> (r: Result<(), HttpError>)
        ensures
            old(self).pending().len() == 0 ==> r is Ok,
            r matches Ok(_) ==> final(self).pending().len() == 0 && final(self).sent_bytes()
                == old(self).outgoing(),
            final(self).outgoing() == old(self).outgoing(),
            final(self).buffered() == old(self).buffered(),
            final(self).taken_bytes() == old(self).taken_bytes(),
            final(self).write_capacity() == old(self).write_capacity(),
    {
        while self.wbuf.len() > 0
            invariant
                old(self).pending().len() == 0 ==> self.pending().len() == 0,
                self.outgoing() == old(self).outgoing(),
                self.buffered() == old(self).buffered(),
                self.taken_bytes() == old(self).taken_bytes(),
                self.write_capacity() == old(self).write_capacity(),
            decreases self.wbuf@.len(),
        {
            let n = match self.inner.write_some(self.wbuf.as_slice()) {
                Ok(n) => n,
                Err(e) => {
                    return Err(e);
                },
            };
            if n == 0 {
                return Err(HttpError::Transport);
            }
            let ghost gone = self.wbuf@.take(n as int);
            let mut rest: Vec<u8> = Vec::new();
            let mut i: usize = n;
            while i < self.wbuf.len()
                invariant
                    n <= i <= self.wbuf@.len(),
                    rest@ =~= self.wbuf@.subrange(n as int, i as int),
                decreases self.wbuf@.len() - i,
            {
                rest.push(self.wbuf[i]);
                i = i + 1;
            }
            proof {
                assert(rest@ =~= self.wbuf@.skip(n as int));
                assert(self.sent@ + gone + self.wbuf@.skip(n as int) =~= self.sent@ + self.wbuf@);
            }
            self.sent = Ghost(self.sent@ + gone);
            self.wbuf = rest;
        }
        Ok(())
    }
}

} // verus!
