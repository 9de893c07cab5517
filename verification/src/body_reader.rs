//! The read side of a message body: a pull-based byte stream over the
//! buffered channel that knows how many bytes remain and decodes chunk
//! boundaries on the fly.
//!
//! Contracts are stated over the channel's consumed history: what a reader
//! returned is exactly what the chunked machine emits for the bytes the
//! reader consumed, and a reader that has reached its end never touches the
//! channel again.

use vstd::prelude::*;

use vstd::seq_lib::*;

use crate::ascii::{CR, DIGIT_0, DIGIT_9, HTAB, LF, LOWER_A, LOWER_F, SEMICOLON, SP, UPPER_A, UPPER_F};
use crate::buffer::BufferIo;
use crate::chunk::{chunk_run, chunk_step, size_start, ChunkState};
use crate::chunk::{lemma_chunk_run_app, lemma_chunk_run_data, lemma_chunk_run_snoc};
use crate::error::HttpError;
use crate::transport::Transport;

verus! {

/// The longest chunk-size line (extension included) the reader accepts;
/// past it the stream is treated as malformed, which bounds the work one
/// size line can cost.
pub const MAX_CHUNK_LINE: usize = 4096;

/// How many undelivered body bytes a reader is willing to discard when it is
/// finished early; a body longer than this closes the connection instead.
pub const MAX_DRAIN: usize = 1048576;

/// The machine state a chunked reader's compact state stands for: `None`
/// before a size line, `Some(0)` once the terminal chunk was seen,
/// `Some(rem)` inside a chunk with `rem` bytes to come.
pub open spec fn chunk_state_of(opt: Option<usize>) -> ChunkState {
    match opt {
        Option::None => size_start(),
        Option::Some(rem) => if rem == 0 {
            ChunkState::Done
        } else {
            ChunkState::Data { rem }
        },
    }
}

/// Consumes exactly `bytes` from the channel, byte for byte; anything else
/// on the stream is a parse error, end-of-stream is a premature EOF.
pub fn eat<T: Transport>(rdr: &mut BufferIo<T>, bytes: &[u8]) -> (r: Result<(), HttpError>)
    ensures
        r matches Ok(_) ==> final(rdr).taken_bytes() == old(rdr).taken_bytes() + bytes@,
        old(rdr).taken_bytes().is_prefix_of(final(rdr).taken_bytes()),
        final(rdr).pending() == old(rdr).pending(),
        final(rdr).sent_bytes() == old(rdr).sent_bytes(),
        final(rdr).write_capacity() == old(rdr).write_capacity(),
{
    let mut i: usize = 0;
    while i < bytes.len()
        invariant
            0 <= i <= bytes@.len(),
            rdr.taken_bytes() =~= old(rdr).taken_bytes() + bytes@.take(i as int),
            rdr.pending() == old(rdr).pending(),
            rdr.sent_bytes() == old(rdr).sent_bytes(),
            rdr.write_capacity() == old(rdr).write_capacity(),
        decreases bytes@.len() - i,
    {
        match rdr.read_byte() {
            Ok(Some(b)) => {
                if b != bytes[i] {
                    proof {
                        lemma_take_extended(old(rdr).taken_bytes(), bytes@, i as int);
                    }
                    return Err(HttpError::Parse);
                }
                proof {
                    assert((old(rdr).taken_bytes() + bytes@.take(i as int)).push(b) =~= old(
                        rdr,
                    ).taken_bytes() + bytes@.take(i + 1));
                }
            },
            Ok(None) => {
                proof {
                    lemma_take_extended(old(rdr).taken_bytes(), bytes@, i as int);
                }
                return Err(HttpError::PrematureEof);
            },
            Err(e) => {
                proof {
                    lemma_take_extended(old(rdr).taken_bytes(), bytes@, i as int);
                }
                return Err(e);
            },
        }
        i = i + 1;
    }
    proof {
        assert(bytes@.take(bytes@.len() as int) =~= bytes@);
        lemma_take_extended(old(rdr).taken_bytes(), bytes@, bytes@.len() as int);
    }
    Ok(())
}

/// A prefix plus part of an extension is still extended by the prefix.
proof fn lemma_take_extended(base: Seq<u8>, ext: Seq<u8>, i: int)
    requires
        0 <= i <= ext.len(),
    ensures
        base.is_prefix_of(base + ext.take(i)),
        base.is_prefix_of((base + ext.take(i)).push(ext[i])),
{
    assert((base + ext.take(i)).take(base.len() as int) =~= base);
    assert(((base + ext.take(i)).push(ext[i])).take(base.len() as int) =~= base);
}

/// Reads one chunk-size line from the channel: hex digits, optional
/// whitespace and extension, CRLF. On success the bytes consumed since entry
/// drive the chunked machine from the start of a size line to the start of
/// the chunk's data (or, for a zero size, to just before the final CRLF),
/// emitting nothing.
pub fn read_chunk_size<T: Transport>(rdr: &mut BufferIo<T>) -> (r: Result<usize, HttpError>)
    ensures
        old(rdr).taken_bytes().is_prefix_of(final(rdr).taken_bytes()),
        final(rdr).pending() == old(rdr).pending(),
        final(rdr).sent_bytes() == old(rdr).sent_bytes(),
        final(rdr).write_capacity() == old(rdr).write_capacity(),
        r matches Ok(n) ==> {
            let delta = final(rdr).taken_bytes().skip(old(rdr).taken_bytes().len() as int);
            &&& chunk_run(size_start(), delta).state == (if n == 0 {
                ChunkState::TrailCr
            } else {
                ChunkState::Data { rem: n }
            })
            &&& chunk_run(size_start(), delta).out == Seq::<u8>::empty()
        },
{
    let ghost base = rdr.taken_bytes();
    let mut value: usize = 0;
    let mut seen_digit: bool = false;
    let mut digits_over: bool = false;
    let mut in_ext: bool = false;
    let mut count: usize = 0;
    loop
        invariant
            count <= MAX_CHUNK_LINE,
            base == old(rdr).taken_bytes(),
            base.is_prefix_of(rdr.taken_bytes()),
            chunk_run(size_start(), rdr.taken_bytes().skip(base.len() as int)).state
                == (ChunkState::Size { value, seen_digit, digits_over, in_ext }),
            chunk_run(size_start(), rdr.taken_bytes().skip(base.len() as int)).out
                == Seq::<u8>::empty(),
            rdr.pending() == old(rdr).pending(),
            rdr.sent_bytes() == old(rdr).sent_bytes(),
            rdr.write_capacity() == old(rdr).write_capacity(),
        decreases MAX_CHUNK_LINE - count,
    {
        if count >= MAX_CHUNK_LINE {
            return Err(HttpError::Parse);
        }
        count = count + 1;
        let ghost st = ChunkState::Size { value, seen_digit, digits_over, in_ext };
        let ghost tb = rdr.taken_bytes();
        let b = match rdr.read_byte() {
            Ok(Some(b)) => b,
            Ok(None) => {
                return Err(HttpError::PrematureEof);
            },
            Err(e) => {
                return Err(e);
            },
        };
        proof {
            lemma_snoc_delta(base, tb, st, b);
        }
        if b == CR {
            if !seen_digit {
                return Err(HttpError::Parse);
            }
            let ghost tb2 = rdr.taken_bytes();
            let b2 = match rdr.read_byte() {
                Ok(Some(b2)) => b2,
                Ok(None) => {
                    return Err(HttpError::PrematureEof);
                },
                Err(e) => {
                    return Err(e);
                },
            };
            proof {
                lemma_snoc_delta(base, tb2, ChunkState::SizeLf { value }, b2);
            }
            if b2 == LF {
                return Ok(value);
            }
            return Err(HttpError::Parse);
        } else if in_ext {
            // any octet is legal inside an extension; it is discarded
        } else if (DIGIT_0 <= b && b <= DIGIT_9) || (LOWER_A <= b && b <= LOWER_F) || (UPPER_A <= b
            && b <= UPPER_F) {
            if digits_over {
                return Err(HttpError::Parse);
            }
            let d: usize = if b <= DIGIT_9 {
                (b - DIGIT_0) as usize
            } else if b >= LOWER_A {
                (b - LOWER_A + 10) as usize
            } else {
                (b - UPPER_A + 10) as usize
            };
            if value > (usize::MAX - d) / 16 {
                return Err(HttpError::Parse);
            }
            value = value * 16 + d;
            seen_digit = true;
        } else if b == SEMICOLON {
            digits_over = true;
            in_ext = true;
        } else if b == SP || b == HTAB {
            digits_over = true;
        } else {
            return Err(HttpError::Parse);
        }
    }
}

/// The read side of one message body.
pub enum BodyReader<T> {
    /// A `Content-Length` body: the channel and how many body bytes are
    /// still owed.
    SizedReader(BufferIo<T>, usize),
    /// A chunked body: the channel and `None` before a size line, `Some(0)`
    /// once the terminal chunk was seen, `Some(rem)` inside a chunk with
    /// `rem` bytes still to come.
    ChunkReader(BufferIo<T>, Option<usize>),
    /// A body known to be empty; the channel only passes through.
    EmptyReader(BufferIo<T>),
}

impl<T> BodyReader<T> {
    /// The channel the reader holds.
    pub open spec fn channel(&self) -> BufferIo<T> {
        match *self {
            BodyReader::SizedReader(ref c, _) => *c,
            BodyReader::ChunkReader(ref c, _) => *c,
            BodyReader::EmptyReader(ref c) => *c,
        }
    }

    /// Has the body ended? Reads at EOF return no bytes and leave the
    /// channel, and the transport under it, untouched.
    pub open spec fn at_eof(&self) -> bool {
        match *self {
            BodyReader::SizedReader(_, rem) => rem == 0,
            BodyReader::ChunkReader(_, st) => st == Some(0usize),
            BodyReader::EmptyReader(_) => true,
        }
    }

    /// Does `c` stand at the end of this reader's body: everything the body
    /// still owed has been consumed from it, and nothing more.
    pub open spec fn drained_to(&self, c: BufferIo<T>) -> bool {
        match *self {
            BodyReader::EmptyReader(ref c0) => c == *c0,
            BodyReader::SizedReader(ref c0, rem) => {
                &&& c0.taken_bytes().is_prefix_of(c.taken_bytes())
                &&& c.taken_bytes().len() == c0.taken_bytes().len() + rem
            },
            BodyReader::ChunkReader(ref c0, st) => {
                &&& c0.taken_bytes().is_prefix_of(c.taken_bytes())
                &&& chunk_run(
                    chunk_state_of(st),
                    c.taken_bytes().skip(c0.taken_bytes().len() as int),
                ).state == ChunkState::Done
            },
        }
    }

    /// The variant's name, for diagnostics.
    pub fn name(&self) -> (r: &'static str)
        ensures
            (*self) is SizedReader ==> r@ == "SizedReader"@,
            (*self) is ChunkReader ==> r@ == "ChunkReader"@,
            (*self) is EmptyReader ==> r@ == "EmptyReader"@,
    {
        match *self {
            BodyReader::SizedReader(..) => "SizedReader",
            BodyReader::ChunkReader(..) => "ChunkReader",
            BodyReader::EmptyReader(..) => "EmptyReader",
        }
    }

    /// Takes the channel back without draining. The body's position on the
    /// stream is lost, so this is only for tearing a connection down.
    pub fn into_channel(self) -> (r: BufferIo<T>)
        ensures
            r == self.channel(),
    {
        match self {
            BodyReader::SizedReader(c, _) => c,
            BodyReader::ChunkReader(c, _) => c,
            BodyReader::EmptyReader(c) => c,
        }
    }
}

impl<T: Transport> BodyReader<T> {
    /// Pulls up to `max` body bytes.
    ///
    /// A sized reader serves at most its remaining count and ticks it down;
    /// a chunked reader first decodes a size line when it stands between
    /// chunks, and what it returns is exactly what the chunked machine emits
    /// for the bytes it consumed. At EOF the call returns no bytes and
    /// changes nothing. A transport that ends before the body does is a
    /// premature EOF, never a short success.
    pub fn read(&mut self, max: usize) -> (r: Result<Vec<u8>, HttpError>)
        ensures
            final(self).channel().pending() == old(self).channel().pending(),
            final(self).channel().sent_bytes() == old(self).channel().sent_bytes(),
            final(self).channel().write_capacity() == old(self).channel().write_capacity(),
            old(self).channel().taken_bytes().is_prefix_of(final(self).channel().taken_bytes()),
            old(self).at_eof() ==> *final(self) == *old(self) && (r matches Ok(v) && v@.len()
                == 0),
            r matches Ok(v) ==> v@.len() <= max,
            (*old(self)) matches BodyReader::SizedReader(c0, rem0) ==> match r {
                Ok(v) => (*final(self)) matches BodyReader::SizedReader(c1, rem1) && {
                    &&& v@.len() <= rem0
                    &&& rem1 == rem0 - v@.len()
                    &&& c1.taken_bytes() == c0.taken_bytes() + v@
                    &&& (rem0 > 0 && max > 0 ==> v@.len() > 0)
                },
                Err(_) => (*final(self)) is SizedReader,
            },
            (*old(self)) matches BodyReader::ChunkReader(c0, st0) ==> match r {
                Ok(v) => (*final(self)) matches BodyReader::ChunkReader(c1, st1) && {
                    let delta = c1.taken_bytes().skip(c0.taken_bytes().len() as int);
                    &&& chunk_run(chunk_state_of(st0), delta).state == chunk_state_of(st1)
                    &&& chunk_run(chunk_state_of(st0), delta).out == v@
                    &&& (max > 0 ==> ((v@.len() == 0) <==> st1 == Some(0usize)))
                },
                Err(_) => (*final(self)) is ChunkReader,
            },
            (*old(self)) is EmptyReader ==> (r matches Ok(v) && v@.len() == 0),
    {
        match self {
            BodyReader::EmptyReader(_) => Ok(Vec::new()),
            BodyReader::SizedReader(chan, remain) => {
                let want: usize = if *remain < max {
                    *remain
                } else {
                    max
                };
                if want == 0 {
                    return Ok(Vec::new());
                }
                let v = match chan.read(want) {
                    Ok(v) => v,
                    Err(e) => {
                        return Err(e);
                    },
                };
                if v.len() == 0 {
                    return Err(HttpError::PrematureEof);
                }
                *remain = *remain - v.len();
                Ok(v)
            },
            BodyReader::ChunkReader(chan, opt) => {
                let ghost c0 = *chan;
                let ghost st0 = *opt;
                let rem: usize;
                match *opt {
                    Some(r0) => {
                        if r0 == 0 {
                            return Ok(Vec::new());
                        }
                        rem = r0;
                    },
                    None => {
                        let n = match read_chunk_size(chan) {
                            Ok(n) => n,
                            Err(e) => {
                                return Err(e);
                            },
                        };
                        if n == 0 {
                            let mut crlf: Vec<u8> = Vec::new();
                            crlf.push(CR);
                            crlf.push(LF);
                            let ghost c1 = *chan;
                            match eat(chan, crlf.as_slice()) {
                                Ok(_) => {},
                                Err(e) => {
                                    return Err(e);
                                },
                            }
                            proof {
                                let da = c1.taken_bytes().skip(c0.taken_bytes().len() as int);
                                let db = seq![CR, LF];
                                assert(chan.taken_bytes() == c1.taken_bytes() + db) by {
                                    assert(crlf@ =~= db);
                                }
                                lemma_run_crlf(ChunkState::TrailCr);
                                lemma_chunk_run_app(size_start(), da, db);
                                assert(chan.taken_bytes().skip(c0.taken_bytes().len() as int) =~= da
                                    + db);
                                assert(c0.taken_bytes().is_prefix_of(chan.taken_bytes())) by {
                                    assert(chan.taken_bytes().take(c0.taken_bytes().len() as int)
                                        =~= c0.taken_bytes());
                                }
                                assert(chunk_run(size_start(), da + db).out =~= Seq::<u8>::empty());
                            }
                            *opt = Some(0);
                            return Ok(Vec::new());
                        }
                        rem = n;
                    },
                }
                // the machine now stands at the start of `rem` bytes of data
                let ghost cd = *chan;
                proof {
                    lemma_data_entry(c0, cd, st0, rem);
                }
                let want: usize = if rem < max {
                    rem
                } else {
                    max
                };
                if want == 0 {
                    *opt = Some(rem);
                    proof {
                        lemma_data_exit(c0, cd, *chan, st0, rem, Seq::<u8>::empty());
                    }
                    return Ok(Vec::new());
                }
                let v = match chan.read(want) {
                    Ok(v) => v,
                    Err(e) => {
                        *opt = Some(rem);
                        return Err(e);
                    },
                };
                if v.len() == 0 {
                    *opt = Some(0);
                    return Err(HttpError::PrematureEof);
                }
                if v.len() < rem {
                    *opt = Some(rem - v.len());
                    proof {
                        lemma_data_exit(c0, cd, *chan, st0, rem, v@);
                    }
                    Ok(v)
                } else {
                    let mut crlf: Vec<u8> = Vec::new();
                    crlf.push(CR);
                    crlf.push(LF);
                    let ghost ce = *chan;
                    match eat(chan, crlf.as_slice()) {
                        Ok(_) => {},
                        Err(e) => {
                            *opt = Some(0);
                            return Err(e);
                        },
                    }
                    *opt = None;
                    proof {
                        assert(ce.taken_bytes() == cd.taken_bytes() + v@);
                        lemma_data_exit(c0, cd, ce, st0, rem, v@);
                        let dd = ce.taken_bytes().skip(c0.taken_bytes().len() as int);
                        let db = seq![CR, LF];
                        assert(chan.taken_bytes() == ce.taken_bytes() + db) by {
                            assert(crlf@ =~= db);
                        }
                        lemma_run_crlf(ChunkState::DataCr);
                        lemma_chunk_run_app(chunk_state_of(st0), dd, db);
                        assert(chan.taken_bytes().skip(c0.taken_bytes().len() as int) =~= dd + db);
                        assert(c0.taken_bytes().is_prefix_of(chan.taken_bytes())) by {
                            assert(chan.taken_bytes().take(c0.taken_bytes().len() as int) =~= c0
                                .taken_bytes());
                        }
                        assert(chunk_run(chunk_state_of(st0), dd + db).out =~= v@ + Seq::<
                            u8,
                        >::empty());
                        assert(v@ + Seq::<u8>::empty() =~= v@);
                    }
                    Ok(v)
                }
            },
        }
    }

    /// Reads and discards whatever the body still owes, so that the channel
    /// lines up with the next message boundary, then hands the channel back.
    /// The discarding is capped: a body that will not end within `MAX_DRAIN`
    /// further bytes, or a transport failure, is an error, and the
    /// connection must close instead of trusting a boundary it never saw.
    #[verifier::loop_isolation(false)]
    pub fn finish(self) -> (r: Result<BufferIo<T>, HttpError>)
        ensures
            r matches Ok(c) ==> self.drained_to(c) && c.pending() == self.channel().pending()
                && c.sent_bytes() == self.channel().sent_bytes(),
            self matches BodyReader::SizedReader(_, rem) && rem > MAX_DRAIN ==> r is Err,
    {
        let ghost orig = self;
        let mut me = self;
        let mut drained: usize = 0;
        loop
            invariant
                drained <= MAX_DRAIN,
                me.channel().pending() == orig.channel().pending(),
                me.channel().sent_bytes() == orig.channel().sent_bytes(),
                orig is EmptyReader ==> me == orig,
                orig matches BodyReader::SizedReader(c0, rem0) ==> me matches BodyReader::SizedReader(c, rem) && {
                    &&& c0.taken_bytes().is_prefix_of(c.taken_bytes())
                    &&& rem <= rem0
                    &&& c.taken_bytes().len() == c0.taken_bytes().len() + (rem0 - rem)
                    &&& drained == rem0 - rem
                },
                orig matches BodyReader::ChunkReader(c0, st0) ==> me matches BodyReader::ChunkReader(c, st) && {
                    &&& c0.taken_bytes().is_prefix_of(c.taken_bytes())
                    &&& chunk_run(
                        chunk_state_of(st0),
                        c.taken_bytes().skip(c0.taken_bytes().len() as int),
                    ).state == chunk_state_of(st)
                },
            decreases MAX_DRAIN - drained,
        {
            let ghost before = me;
            let budget: usize = MAX_DRAIN - drained;
            let step: usize = if budget < 4096 {
                budget
            } else {
                4096
            };
            if step == 0 {
                return Err(HttpError::Parse);
            }
            let v = match me.read(step) {
                Ok(v) => v,
                Err(e) => {
                    return Err(e);
                },
            };
            proof {
                if orig is SizedReader {
                    let (cb, remb) = before.sized_parts();
                    let (ca, rema) = me.sized_parts();
                    assert(ca.taken_bytes() == cb.taken_bytes() + v@);
                    lemma_prefix_trans(
                        orig.channel().taken_bytes(),
                        cb.taken_bytes(),
                        ca.taken_bytes(),
                    );
                }
                if orig is ChunkReader {
                    let (cb, stb) = before.chunk_parts();
                    let (ca, sta) = me.chunk_parts();
                    let (c0, st0) = orig.chunk_parts();
                    let da = cb.taken_bytes().skip(c0.taken_bytes().len() as int);
                    let db = ca.taken_bytes().skip(cb.taken_bytes().len() as int);
                    lemma_chunk_run_app(chunk_state_of(st0), da, db);
                    assert(ca.taken_bytes().skip(c0.taken_bytes().len() as int) =~= da + db) by {
                        assert(cb.taken_bytes() == cb.taken_bytes().take(
                            cb.taken_bytes().len() as int,
                        ));
                    }
                    lemma_prefix_trans(
                        c0.taken_bytes(),
                        cb.taken_bytes(),
                        ca.taken_bytes(),
                    );
                }
            }
            if v.len() == 0 {
                return Ok(me.into_channel());
            }
            drained = drained + v.len();
            if drained > MAX_DRAIN {
                return Err(HttpError::Parse);
            }
        }
    }
}

impl<T> BodyReader<T> {
    /// The parts of a sized reader, for proofs.
    pub open spec fn sized_parts(&self) -> (BufferIo<T>, usize)
        recommends
            self is SizedReader,
    {
        match *self {
            BodyReader::SizedReader(ref c, rem) => (*c, rem),
            _ => (self.channel(), 0),
        }
    }

    /// The parts of a chunked reader, for proofs.
    pub open spec fn chunk_parts(&self) -> (BufferIo<T>, Option<usize>)
        recommends
            self is ChunkReader,
    {
        match *self {
            BodyReader::ChunkReader(ref c, st) => (*c, st),
            _ => (self.channel(), None),
        }
    }
}

/// Prefix-of is transitive.
proof fn lemma_prefix_trans(a: Seq<u8>, b: Seq<u8>, c: Seq<u8>)
    requires
        a.is_prefix_of(b),
        b.is_prefix_of(c),
    ensures
        a.is_prefix_of(c),
{
    assert(c.take(b.len() as int).take(a.len() as int) =~= c.take(a.len() as int));
}

/// From just after a chunk-size line of value `rem`, the consumed bytes so
/// far drive the machine from the reader's entry state to `Data { rem }`.
proof fn lemma_data_entry<T>(
    c0: BufferIo<T>,
    cd: BufferIo<T>,
    st0: Option<usize>,
    rem: usize,
)
    requires
        rem > 0,
        st0 matches Some(r0) ==> r0 == rem && cd == c0,
        st0 is None ==> c0.taken_bytes().is_prefix_of(cd.taken_bytes()) && chunk_run(
            size_start(),
            cd.taken_bytes().skip(c0.taken_bytes().len() as int),
        ).state == (ChunkState::Data { rem }) && chunk_run(
            size_start(),
            cd.taken_bytes().skip(c0.taken_bytes().len() as int),
        ).out == Seq::<u8>::empty(),
    ensures
        c0.taken_bytes().is_prefix_of(cd.taken_bytes()),
        chunk_run(
            chunk_state_of(st0),
            cd.taken_bytes().skip(c0.taken_bytes().len() as int),
        ).state == (ChunkState::Data { rem }),
        chunk_run(
            chunk_state_of(st0),
            cd.taken_bytes().skip(c0.taken_bytes().len() as int),
        ).out == Seq::<u8>::empty(),
{
    if st0 is Some {
        assert(cd.taken_bytes().skip(c0.taken_bytes().len() as int) =~= Seq::<u8>::empty());
        assert(cd.taken_bytes().take(c0.taken_bytes().len() as int) =~= cd.taken_bytes());
    }
}

/// After serving `served` data bytes of a chunk of `rem`, the consumed bytes
/// drive the machine to `Data { rem - served }` (or `DataCr` when the chunk
/// is exhausted), emitting exactly the served bytes.
proof fn lemma_data_exit<T>(
    c0: BufferIo<T>,
    cd: BufferIo<T>,
    ce: BufferIo<T>,
    st0: Option<usize>,
    rem: usize,
    served: Seq<u8>,
)
    requires
        rem > 0,
        served.len() <= rem,
        c0.taken_bytes().is_prefix_of(cd.taken_bytes()),
        chunk_run(
            chunk_state_of(st0),
            cd.taken_bytes().skip(c0.taken_bytes().len() as int),
        ).state == (ChunkState::Data { rem }),
        chunk_run(
            chunk_state_of(st0),
            cd.taken_bytes().skip(c0.taken_bytes().len() as int),
        ).out == Seq::<u8>::empty(),
        ce.taken_bytes() == cd.taken_bytes() + served,
    ensures
        c0.taken_bytes().is_prefix_of(ce.taken_bytes()),
        chunk_run(
            chunk_state_of(st0),
            ce.taken_bytes().skip(c0.taken_bytes().len() as int),
        ).state == (if served.len() < rem {
            ChunkState::Data { rem: (rem - served.len()) as usize }
        } else {
            ChunkState::DataCr
        }),
        chunk_run(chunk_state_of(st0), ce.taken_bytes().skip(c0.taken_bytes().len() as int)).out
            == served,
{
    let da = cd.taken_bytes().skip(c0.taken_bytes().len() as int);
    lemma_chunk_run_data(rem, served);
    lemma_chunk_run_app(chunk_state_of(st0), da, served);
    assert(ce.taken_bytes().skip(c0.taken_bytes().len() as int) =~= da + served);
    assert(ce.taken_bytes().take(c0.taken_bytes().len() as int) =~= c0.taken_bytes());
    assert(Seq::<u8>::empty() + served =~= served);
}

/// A CRLF drives `DataCr` back to the start of a size line, and `TrailCr`
/// to `Done`, emitting nothing.
proof fn lemma_run_crlf(s: ChunkState)
    requires
        s == ChunkState::DataCr || s == ChunkState::TrailCr,
    ensures
        chunk_run(s, seq![CR, LF]).state == (if s == ChunkState::DataCr {
            size_start()
        } else {
            ChunkState::Done
        }),
        chunk_run(s, seq![CR, LF]).out == Seq::<u8>::empty(),
{
    crate::chunk::lemma_chunk_run_one(s, CR);
    assert(seq![CR, LF] =~= seq![CR].push(LF));
    lemma_chunk_run_snoc(s, seq![CR], LF);
}

/// One more consumed byte extends the machine's run by one step.
proof fn lemma_snoc_delta(base: Seq<u8>, taken_before: Seq<u8>, st: ChunkState, b: u8)
    requires
        base.is_prefix_of(taken_before),
        chunk_run(size_start(), taken_before.skip(base.len() as int)).state == st,
        chunk_run(size_start(), taken_before.skip(base.len() as int)).out == Seq::<u8>::empty(),
    ensures
        base.is_prefix_of(taken_before.push(b)),
        chunk_run(size_start(), taken_before.push(b).skip(base.len() as int)).state == chunk_step(
            st,
            b,
        ),
        chunk_run(size_start(), taken_before.push(b).skip(base.len() as int)).out
            == if crate::chunk::chunk_step_emits(st) {
            seq![b]
        } else {
            Seq::<u8>::empty()
        },
{
    let delta = taken_before.skip(base.len() as int);
    assert(taken_before.push(b).skip(base.len() as int) =~= delta.push(b));
    assert(taken_before.push(b).take(base.len() as int) =~= base);
    lemma_chunk_run_snoc(size_start(), delta, b);
    if !crate::chunk::chunk_step_emits(st) {
        assert(Seq::<u8>::empty() + Seq::<u8>::empty() =~= Seq::<u8>::empty());
    } else {
        assert(Seq::<u8>::empty() + seq![b] =~= seq![b]);
    }
}

} // verus!
