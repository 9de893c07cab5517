//! The server side of the per-connection lifecycle: decode a head, attach a
//! body reader, run the handler, emit the response with the right framing,
//! decide keep-alive, and loop or close.

use vstd::prelude::*;

use vstd::seq_lib::*;

use crate::ascii::{CR, LF, SP};
use crate::body_reader::BodyReader;
use crate::body_writer::BodyWriter;
use crate::buffer::BufferIo;
use crate::chunk::{chunk_frame, chunked_terminal};
use crate::decode::{decode, http10_token, http11_token, spec_decode_request, ReqDecode};
use crate::decode::lemma_decode_request_complete_stable;
use crate::error::HttpError;
use crate::head::{headers_view, Header, HeaderView, RequestHead, Version};
use crate::num::{dec_digits, to_dec};
use crate::policy::{request_body_policy, response_write_policy, spec_response_write_policy, BodyPolicy};
use crate::tokens::{chunked_bytes, chunked_value, colon_sp, colon_sp_bytes, connection_bytes, connection_name, close_bytes, close_value, continue_expect_value, continue_expect_bytes, continue_line, continue_line_bytes, content_length_label, content_length_label_bytes, date_label, date_label_bytes, expect_bytes, expect_name, keep_alive_bytes, keep_alive_value, server_header_bytes, spec_canonical_reason, canonical_reason, transfer_encoding_bytes, transfer_encoding_name};
use crate::transport::Transport;

verus! {

/// The most requests one connection serves before it is closed; a cap on
/// how long a keep-alive connection can be held.
pub const MAX_REQUESTS_PER_CONNECTION: usize = 1048576;

/// The keep-alive table: HTTP/1.0 stays open only on an exact
/// `Connection: keep-alive`, HTTP/1.1 closes only on an exact
/// `Connection: close`. Header names compare case-insensitively, the
/// values byte for byte.
pub open spec fn spec_keep_alive(v: Version, hs: Seq<HeaderView>) -> bool {
    match v {
        Version::Http10 => crate::head::has_header_value(hs, connection_name(), keep_alive_value()),
        Version::Http11 => !crate::head::has_header_value(hs, connection_name(), close_value()),
    }
}

/// Decides keep-alive from a version and a header block, exactly by the
/// table in `spec_keep_alive`.
pub fn should_keep_alive(version: Version, headers: &Vec<Header>) -> (r: bool)
    ensures
        r == spec_keep_alive(version, headers_view(headers@)),
{
    let conn = connection_bytes();
    match version {
        Version::Http10 => {
            let ka = keep_alive_bytes();
            crate::head::has_header(headers, conn.as_slice(), ka.as_slice())
        },
        Version::Http11 => {
            let cl = close_bytes();
            !crate::head::has_header(headers, conn.as_slice(), cl.as_slice())
        },
    }
}

/// What to do about a request's expectation.
#[derive(Debug, Clone, Copy, PartialEq, Eq, Structural)]
pub enum ExpectAction {
    /// No `Expect` header: proceed normally.
    Proceed,
    /// `Expect: 100-continue` on an HTTP/1.1 request: send the interim
    /// `100 Continue` response, then proceed.
    SendContinue,
    /// Any other expectation, or `100-continue` on a pre-1.1 request:
    /// unsupported, close the connection.
    Refuse,
}

/// The expectation rule as a function of the head.
pub open spec fn spec_expect_action(version: Version, hs: Seq<HeaderView>) -> ExpectAction {
    match crate::head::first_header_value(hs, expect_name()) {
        None => ExpectAction::Proceed,
        Some(v) => {
            if version == Version::Http11 && v == continue_expect_value() {
                ExpectAction::SendContinue
            } else {
                ExpectAction::Refuse
            }
        },
    }
}

/// Decides what to do about a request's `Expect` header.
pub fn expect_action(head: &RequestHead) -> (r: ExpectAction)
    ensures
        r == spec_expect_action(head.version, headers_view(head.headers@)),
{
    let ex = expect_bytes();
    match crate::head::get_header(&head.headers, ex.as_slice()) {
        None => ExpectAction::Proceed,
        Some(v) => {
            let want = continue_expect_bytes();
            if matches!(head.version, Version::Http11) && crate::head::eq_bytes(
                v.as_slice(),
                want.as_slice(),
            ) {
                ExpectAction::SendContinue
            } else {
                ExpectAction::Refuse
            }
        },
    }
}

/// One serialized header line: `name: value CRLF`.
pub open spec fn header_line(h: HeaderView) -> Seq<u8> {
    h.name + colon_sp() + h.value + seq![CR, LF]
}

/// The serialized header block, in order.
pub open spec fn headers_bytes(hs: Seq<HeaderView>) -> Seq<u8>
    decreases hs.len(),
{
    if hs.len() == 0 {
        Seq::empty()
    } else {
        headers_bytes(hs.drop_last()) + header_line(hs.last())
    }
}

/// The wire token of a version.
pub open spec fn version_bytes(v: Version) -> Seq<u8> {
    match v {
        Version::Http10 => http10_token(),
        Version::Http11 => http11_token(),
    }
}

/// The serialized `Transfer-Encoding: chunked` line.
pub open spec fn te_chunked_line() -> Seq<u8> {
    transfer_encoding_name() + colon_sp() + chunked_value() + seq![CR, LF]
}

/// The serialized `Date` line for a date value the shell supplied; the
/// library never reads the clock itself, so an empty value means no line.
pub open spec fn date_line(date: Seq<u8>) -> Seq<u8> {
    if date.len() == 0 {
        Seq::empty()
    } else {
        date_label() + date + seq![CR, LF]
    }
}

/// The serialized head of a response: status line with the canonical
/// reason, the `Date` line when a date value is at hand, a `Content-Length`
/// line when a size was declared, the headers in order, a
/// `Transfer-Encoding: chunked` line when the body goes out chunked, and
/// the closing empty line.
pub open spec fn response_head_bytes(
    version: Version,
    status: u16,
    date: Seq<u8>,
    body_size: Option<usize>,
    hs: Seq<HeaderView>,
    chunked: bool,
) -> Seq<u8> {
    version_bytes(version) + seq![SP] + dec_digits(status as nat) + seq![SP]
        + spec_canonical_reason(status) + seq![CR, LF] + date_line(date) + (match body_size {
        Some(n) => content_length_label() + dec_digits(n as nat) + seq![CR, LF],
        None => Seq::empty(),
    }) + headers_bytes(hs) + (if chunked {
        te_chunked_line()
    } else {
        Seq::empty()
    }) + seq![CR, LF]
}

/// Appends bytes to a vector.
pub fn push_bytes(out: &mut Vec<u8>, data: &[u8])
    ensures
        final(out)@ == old(out)@ + data@,
{
    let mut i: usize = 0;
    while i < data.len()
        invariant
            0 <= i <= data@.len(),
            out@ =~= old(out)@ + data@.take(i as int),
        decreases data@.len() - i,
    {
        proof {
            assert((old(out)@ + data@.take(i as int)).push(data@[i as int]) =~= old(out)@
                + data@.take(i + 1));
        }
        out.push(data[i]);
        i = i + 1;
    }
    proof {
        assert(out@ =~= old(out)@ + data@);
    }
}

/// The exec version token.
pub fn version_token_bytes(v: Version) -> (r: Vec<u8>)
    ensures
        r@ == version_bytes(v),
{
    let mut out: Vec<u8> = Vec::new();
    out.push(72);
    out.push(84);
    out.push(84);
    out.push(80);
    out.push(47);
    out.push(49);
    out.push(46);
    match v {
        Version::Http10 => {
            out.push(48);
            proof {
                assert(out@ =~= http10_token());
            }
        },
        Version::Http11 => {
            out.push(49);
            proof {
                assert(out@ =~= http11_token());
            }
        },
    }
    out
}

/// Serializes a header block.
pub fn encode_headers(out: &mut Vec<u8>, headers: &Vec<Header>)
    ensures
        final(out)@ == old(out)@ + headers_bytes(headers_view(headers@)),
{
    let sep = colon_sp_bytes();
    let mut i: usize = 0;
    while i < headers.len()
        invariant
            0 <= i <= headers@.len(),
            sep@ =~= colon_sp(),
            out@ =~= old(out)@ + headers_bytes(headers_view(headers@).take(i as int)),
        decreases headers@.len() - i,
    {
        let ghost pre = out@;
        let h = &headers[i];
        push_bytes(out, h.name.as_slice());
        push_bytes(out, sep.as_slice());
        push_bytes(out, h.value.as_slice());
        let mut crlf: Vec<u8> = Vec::new();
        crlf.push(CR);
        crlf.push(LF);
        push_bytes(out, crlf.as_slice());
        proof {
            let hv = headers_view(headers@);
            assert(hv.take(i + 1).drop_last() =~= hv.take(i as int));
            assert(hv.take(i + 1).last() == hv[i as int]);
            assert(hv[i as int] == headers@[i as int]@);
            assert(crlf@ =~= seq![CR, LF]);
            assert(out@ =~= pre + header_line(hv[i as int]));
            assert(out@ =~= old(out)@ + headers_bytes(hv.take(i + 1)));
        }
        i = i + 1;
    }
    proof {
        assert(headers_view(headers@).take(headers@.len() as int) =~= headers_view(headers@));
    }
}

/// Serializes a response head.
pub fn encode_response_head(
    version: Version,
    status: u16,
    date: &Vec<u8>,
    body_size: Option<usize>,
    headers: &Vec<Header>,
    chunked: bool,
) -> (out: Vec<u8>)
    ensures
        out@ == response_head_bytes(
            version,
            status,
            date@,
            body_size,
            headers_view(headers@),
            chunked,
        ),
{
    let mut out: Vec<u8> = Vec::new();
    let vt = version_token_bytes(version);
    push_bytes(&mut out, vt.as_slice());
    out.push(SP);
    let ghost s1 = version_bytes(version) + seq![SP];
    proof {
        assert(out@ =~= s1);
    }
    let code = to_dec(status as usize);
    push_bytes(&mut out, code.as_slice());
    out.push(SP);
    let ghost s2 = s1 + dec_digits(status as nat) + seq![SP];
    proof {
        assert(out@ =~= s2);
    }
    let reason = canonical_reason(status);
    push_bytes(&mut out, reason.as_slice());
    out.push(CR);
    out.push(LF);
    let ghost s3 = s2 + spec_canonical_reason(status) + seq![CR, LF];
    proof {
        assert(out@ =~= s3);
    }
    if date.len() > 0 {
        let label = date_label_bytes();
        push_bytes(&mut out, label.as_slice());
        push_bytes(&mut out, date.as_slice());
        out.push(CR);
        out.push(LF);
    }
    let ghost s3d = s3 + date_line(date@);
    proof {
        assert(out@ =~= s3d);
    }
    match body_size {
        Some(n) => {
            let label = content_length_label_bytes();
            push_bytes(&mut out, label.as_slice());
            let digits = to_dec(n);
            push_bytes(&mut out, digits.as_slice());
            out.push(CR);
            out.push(LF);
        },
        None => {},
    }
    let ghost s4 = s3d + (match body_size {
        Some(n) => content_length_label() + dec_digits(n as nat) + seq![CR, LF],
        None => Seq::<u8>::empty(),
    });
    proof {
        assert(out@ =~= s4);
    }
    encode_headers(&mut out, headers);
    let ghost s5 = s4 + headers_bytes(headers_view(headers@));
    proof {
        assert(out@ =~= s5);
    }
    if chunked {
        let te = transfer_encoding_bytes();
        push_bytes(&mut out, te.as_slice());
        let sep = colon_sp_bytes();
        push_bytes(&mut out, sep.as_slice());
        let ck = chunked_bytes();
        push_bytes(&mut out, ck.as_slice());
        out.push(CR);
        out.push(LF);
    }
    let ghost s6 = s5 + (if chunked {
        te_chunked_line()
    } else {
        Seq::<u8>::empty()
    });
    proof {
        assert(out@ =~= s6);
    }
    out.push(CR);
    out.push(LF);
    proof {
        assert(out@ =~= s6 + seq![CR, LF]);
        assert(s6 + seq![CR, LF] =~= response_head_bytes(
            version,
            status,
            date@,
            body_size,
            headers_view(headers@),
            chunked,
        ));
    }
    out
}

/// A response under construction: status, headers, a declared body size,
/// and the body bytes the handler wrote. Nothing reaches the wire until the
/// lifecycle emits the whole response, so headers can be changed up to the
/// moment the handler returns.
#[derive(Debug)]
pub struct Response {
    /// The status code; `200` to begin with.
    pub status: u16,
    /// The version written on the status line; HTTP/1.1 to begin with.
    pub version: Version,
    /// The value of the `Date` header; the library never reads the clock,
    /// so the lifecycle fills this in from the shell, and an empty value
    /// means no `Date` line is emitted.
    pub date: Vec<u8>,
    /// The headers, in the order they will be serialized.
    pub headers: Vec<Header>,
    /// The declared body length, if one was set.
    pub body_size: Option<usize>,
    /// The body bytes written so far.
    pub body: Vec<u8>,
}

impl Response {
    /// A fresh `200` response with no headers and no body.
    pub fn new() -> (r: Response)
        ensures
            r.status == 200,
            r.version == Version::Http11,
            r.date@.len() == 0,
            r.headers@.len() == 0,
            r.body_size is None,
            r.body@.len() == 0,
    {
        Response {
            status: 200,
            version: Version::Http11,
            date: Vec::new(),
            headers: Vec::new(),
            body_size: None,
            body: Vec::new(),
        }
    }

    /// Writes the body and declares its length in one step, for the common
    /// case of a response whose whole body is at hand.
    pub fn send(&mut self, body: &[u8]) -> (r: Result<(), HttpError>)
        ensures
            r is Ok,
            final(self).body_size == Some(body@.len() as usize),
            final(self).body@ == old(self).body@ + body@,
            final(self).status == old(self).status,
            final(self).date == old(self).date,
            final(self).version == old(self).version,
            final(self).headers == old(self).headers,
    {
        self.body_size = Some(body.len());
        push_bytes(&mut self.body, body);
        Ok(())
    }

    /// Declares the body length without writing anything yet.
    pub fn set_content_length(&mut self, len: usize)
        ensures
            final(self).body_size == Some(len),
            final(self).body@ == old(self).body@,
            final(self).status == old(self).status,
            final(self).date == old(self).date,
            final(self).version == old(self).version,
            final(self).headers == old(self).headers,
    {
        self.body_size = Some(len);
    }

    /// Appends body bytes; they reach the wire when the response is
    /// emitted, framed by the policy in force then.
    pub fn write(&mut self, buf: &[u8]) -> (r: usize)
        ensures
            r == buf@.len(),
            final(self).body@ == old(self).body@ + buf@,
            final(self).body_size == old(self).body_size,
            final(self).status == old(self).status,
            final(self).date == old(self).date,
            final(self).version == old(self).version,
            final(self).headers == old(self).headers,
    {
        push_bytes(&mut self.body, buf);
        buf.len()
    }

    /// Adds a header at the end of the block.
    pub fn append_header(&mut self, name: Vec<u8>, value: Vec<u8>)
        ensures
            final(self).headers@ == old(self).headers@.push(Header { name, value }),
            final(self).body@ == old(self).body@,
            final(self).body_size == old(self).body_size,
            final(self).status == old(self).status,
            final(self).date == old(self).date,
            final(self).version == old(self).version,
    {
        self.headers.push(Header { name, value });
    }
}

/// The body bytes a response policy puts on the wire for a buffered body:
/// nothing, the first `n` bytes plain, or one chunk frame and the terminal
/// framing.
pub open spec fn response_wire_body(policy: BodyPolicy, body: Seq<u8>) -> Seq<u8> {
    match policy {
        BodyPolicy::NoBody => Seq::empty(),
        BodyPolicy::SizedBody(n) => body.take(n as int),
        BodyPolicy::ChunkedBody => if body.len() == 0 {
            chunked_terminal()
        } else {
            chunk_frame(body) + chunked_terminal()
        },
    }
}

/// Round trip for sized framing: a body of declared length `len(p)` puts
/// exactly `p` on the wire, and reading that declared count back from a
/// stream that starts with those bytes yields exactly `p`, whatever
/// follows them.
pub proof fn lemma_sized_round_trip(p: Seq<u8>, rest: Seq<u8>)
    requires
        p.len() <= usize::MAX,
    ensures
        response_wire_body(BodyPolicy::SizedBody(p.len() as usize), p) == p,
        (p + rest).take(p.len() as int) == p,
{
    assert(p.take(p.len() as int) =~= p);
    assert((p + rest).take(p.len() as int) =~= p);
}

/// Emits a whole response: head, body with its framing, flush. On success
/// the bytes handed to the transport are exactly the head followed by the
/// framed body. A declared length larger than the body written is an error
/// (the stream could never be made to conform), and the connection must
/// close.
pub fn write_response<T: Transport>(chan: BufferIo<T>, rsp: &Response) -> (r: Result<
    BufferIo<T>,
    HttpError,
>)
    ensures
        ({
            let policy = spec_response_write_policy(rsp.status, rsp.body_size);
            match r {
                Ok(c) => {
                    &&& c.sent_bytes() == chan.outgoing() + response_head_bytes(
                        rsp.version,
                        rsp.status,
                        rsp.date@,
                        rsp.body_size,
                        headers_view(rsp.headers@),
                        policy is ChunkedBody,
                    ) + response_wire_body(policy, rsp.body@)
                    &&& c.pending().len() == 0
                    &&& c.buffered() == chan.buffered()
                    &&& c.taken_bytes() == chan.taken_bytes()
                    &&& (policy matches BodyPolicy::SizedBody(n) ==> n <= rsp.body@.len())
                },
                Err(_) => true,
            }
        }),
        (spec_response_write_policy(rsp.status, rsp.body_size) matches BodyPolicy::SizedBody(n)
            && n > rsp.body@.len()) ==> r is Err,
{
    let policy = response_write_policy(rsp.status, rsp.body_size);
    let chunked = matches!(policy, BodyPolicy::ChunkedBody);
    let head = encode_response_head(
        rsp.version,
        rsp.status,
        &rsp.date,
        rsp.body_size,
        &rsp.headers,
        chunked,
    );
    let mut chan = chan;
    match chan.write_all(head.as_slice()) {
        Ok(_) => {},
        Err(e) => {
            return Err(e);
        },
    }
    match policy {
        BodyPolicy::NoBody => {
            let w = BodyWriter::EmptyWriter(chan);
            match w.finish() {
                Ok(c) => Ok(c),
                Err(e) => Err(e),
            }
        },
        BodyPolicy::SizedBody(n) => {
            if n > rsp.body.len() {
                return Err(HttpError::Transport);
            }
            let ghost start = chan.outgoing();
            let mut w = BodyWriter::SizedWriter(chan, n);
            let mut written: usize = 0;
            while written < n
                invariant
                    written <= n <= rsp.body@.len(),
                    w matches BodyWriter::SizedWriter(c, rem) && {
                        &&& rem == n - written
                        &&& c.outgoing() == start + rsp.body@.take(written as int)
                        &&& c.buffered() == chan.buffered()
                        &&& c.taken_bytes() == chan.taken_bytes()
                        &&& c.write_capacity() == chan.write_capacity()
                    },
                decreases n - written,
            {
                let part = &rsp.body[written..n];
                let k = match w.write(part) {
                    Ok(k) => k,
                    Err(e) => {
                        return Err(e);
                    },
                };
                if k == 0 {
                    return Err(HttpError::Transport);
                }
                proof {
                    assert(part@.take(k as int) =~= rsp.body@.subrange(
                        written as int,
                        written + k,
                    ));
                    assert(start + rsp.body@.take(written as int) + rsp.body@.subrange(
                        written as int,
                        written + k,
                    ) =~= start + rsp.body@.take(written + k));
                }
                written = written + k;
            }
            match w.finish() {
                Ok(c) => {
                    proof {
                        assert(rsp.body@.take(n as int) =~= response_wire_body(
                            spec_response_write_policy(rsp.status, rsp.body_size),
                            rsp.body@,
                        ));
                    }
                    Ok(c)
                },
                Err(e) => Err(e),
            }
        },
        BodyPolicy::ChunkedBody => {
            let mut w = BodyWriter::ChunkWriter(chan);
            if rsp.body.len() > 0 {
                match w.write(rsp.body.as_slice()) {
                    Ok(_) => {},
                    Err(e) => {
                        return Err(e);
                    },
                }
            }
            match w.finish() {
                Ok(c) => {
                    proof {
                        if rsp.body@.len() > 0 {
                            assert(chan.outgoing() + head@ + chunk_frame(rsp.body@)
                                + chunked_terminal() =~= chan.outgoing() + (head@ + (chunk_frame(
                                rsp.body@,
                            ) + chunked_terminal())));
                        }
                    }
                    Ok(c)
                },
                Err(e) => Err(e),
            }
        },
    }
}

/// A request as the handler sees it: the parsed head and the body stream.
pub struct Request<T> {
    /// The parsed head.
    pub head: RequestHead,
    /// The body, framed by the head's policy; it owns the connection's
    /// channel until the lifecycle reclaims it.
    pub body: BodyReader<T>,
}

/// What a server runs for each request: read from the request, write to
/// the response. Implemented by the library's users.
pub trait HttpService<T> {
    /// Receives a request/response pair and acts on them.
    fn handle(&self, request: &mut Request<T>, response: &mut Response);
}

/// Reads one request head from the channel, filling from the transport as
/// needed. `Ok(None)` is a clean end of stream before a complete head. On
/// success the bytes consumed since entry decode to exactly the returned
/// head.
pub fn read_request_head<T: Transport>(chan: &mut BufferIo<T>) -> (r: Result<
    Option<RequestHead>,
    HttpError,
>)
    ensures
        final(chan).pending() == old(chan).pending(),
        final(chan).sent_bytes() == old(chan).sent_bytes(),
        final(chan).write_capacity() == old(chan).write_capacity(),
        old(chan).taken_bytes().is_prefix_of(final(chan).taken_bytes()),
        r matches Ok(Some(h)) ==> ({
            let delta = final(chan).taken_bytes().skip(old(chan).taken_bytes().len() as int);
            spec_decode_request(delta) == (ReqDecode::Complete {
                head: h@,
                used: delta.len() as int,
            })
        }),
        spec_decode_request(old(chan).buffered()) is Complete ==> (r matches Ok(h) && h is Some),
        spec_decode_request(old(chan).buffered()) is Bad ==> (r matches Err(e)
            && e matches HttpError::Parse),
{
    loop
        invariant
            chan.pending() == old(chan).pending(),
            chan.sent_bytes() == old(chan).sent_bytes(),
            chan.write_capacity() == old(chan).write_capacity(),
            chan.taken_bytes() == old(chan).taken_bytes(),
            !(spec_decode_request(old(chan).buffered()) is Partial) ==> chan.buffered() == old(
                chan,
            ).buffered(),
        decreases (if chan.buffered().len() <= crate::decode::MAX_HEAD_SIZE {
            crate::decode::MAX_HEAD_SIZE + 1 - chan.buffered().len()
        } else {
            0
        }),
    {
        let outcome = decode(chan.get_reader_buf().as_slice());
        match outcome {
            Ok(Some(p)) => {
                let (h, used) = p;
                let ghost pre = chan.buffered();
                chan.consume(used);
                proof {
                    let block = pre.take(used as int);
                    assert(block.take(used as int) =~= block);
                    lemma_decode_request_complete_stable(pre, block, h@, used as int);
                    assert(chan.taken_bytes().skip(old(chan).taken_bytes().len() as int)
                        =~= block);
                    assert(chan.taken_bytes().take(old(chan).taken_bytes().len() as int) =~= old(
                        chan,
                    ).taken_bytes());
                }
                return Ok(Some(h));
            },
            Ok(None) => {
                match chan.bump_read() {
                    Ok(n) => {
                        if n == 0 {
                            return Ok(None);
                        }
                    },
                    Err(e) => {
                        return Err(e);
                    },
                }
            },
            Err(e) => {
                return Err(e);
            },
        }
    }
}

/// Builds the body reader a request head calls for, moving the channel in.
pub fn attach_request_body<T: Transport>(head: &RequestHead, chan: BufferIo<T>) -> (r: Result<
    BodyReader<T>,
    HttpError,
>)
    ensures
        match r {
            Ok(b) => b.channel() == chan && (match spec_request_policy_of(head@) {
                Some(BodyPolicy::NoBody) => b is EmptyReader,
                Some(BodyPolicy::SizedBody(n)) => b == BodyReader::SizedReader(chan, n),
                Some(BodyPolicy::ChunkedBody) => b == BodyReader::ChunkReader(
                    chan,
                    None::<usize>,
                ),
                None => false,
            }),
            Err(_) => spec_request_policy_of(head@) is None,
        },
{
    match request_body_policy(head) {
        Ok(BodyPolicy::NoBody) => Ok(BodyReader::EmptyReader(chan)),
        Ok(BodyPolicy::SizedBody(n)) => Ok(BodyReader::SizedReader(chan, n)),
        Ok(BodyPolicy::ChunkedBody) => Ok(BodyReader::ChunkReader(chan, None)),
        Err(e) => Err(e),
    }
}

/// The request policy, phrased over a head view.
pub open spec fn spec_request_policy_of(h: crate::head::RequestHeadView) -> Option<BodyPolicy> {
    crate::policy::spec_request_policy(h.method, h.headers)
}

/// Processes one decoded request: attach the body its head calls for, run
/// the handler against a fresh response carrying the shell-supplied date,
/// drain what the handler left of the request body, emit and flush the
/// response, and decide keep-alive. The request's headers decide the
/// initial keep-alive; when they allow it, the response's own headers are
/// checked the same way and may veto it, so the returned flag is true only
/// if the request's side of the table said yes. A head whose body policy
/// cannot be determined (a malformed `Content-Length`) is refused before
/// anything touches the transport. On success the whole response stands
/// flushed and the channel is back at a message boundary.
pub fn process_request<T: Transport, S: HttpService<T>>(
    service: &S,
    server_name: &Vec<u8>,
    date: &Vec<u8>,
    head: RequestHead,
    chan: BufferIo<T>,
) -> (r: Result<(bool, BufferIo<T>), HttpError>)
    ensures
        r matches Ok(p) ==> p.1.pending().len() == 0,
        spec_request_policy_of(head@) is None ==> r is Err,
        r matches Ok(p) && p.0 ==> spec_keep_alive(head.version, headers_view(head.headers@)),
        !spec_keep_alive(head.version, headers_view(head.headers@)) ==> (r matches Ok(p) ==> p.0
            == false),
{
    let version = head.version;
    let keep_alive_req = should_keep_alive(version, &head.headers);
    let body = match attach_request_body(&head, chan) {
        Ok(body) => body,
        Err(e) => {
            return Err(e);
        },
    };
    let mut req = Request { head, body };
    let mut rsp = Response::new();
    let mut d: Vec<u8> = Vec::new();
    push_bytes(&mut d, date.as_slice());
    rsp.date = d;
    if !keep_alive_req {
        let conn = connection_bytes();
        let cl = close_bytes();
        rsp.append_header(conn, cl);
    }
    if server_name.len() > 0 {
        let sh = server_header_bytes();
        let mut nm: Vec<u8> = Vec::new();
        push_bytes(&mut nm, server_name.as_slice());
        rsp.append_header(sh, nm);
    }
    service.handle(&mut req, &mut rsp);
    let keep_alive = if keep_alive_req {
        should_keep_alive(version, &rsp.headers)
    } else {
        false
    };
    let reclaimed = match req.body.finish() {
        Ok(c) => c,
        Err(e) => {
            return Err(e);
        },
    };
    match write_response(reclaimed, &rsp) {
        Ok(c) => Ok((keep_alive, c)),
        Err(e) => Err(e),
    }
}

/// Writes the interim `HTTP/1.1 100 Continue` response and flushes it, so
/// the peer starts sending the body it was holding back.
pub fn send_continue<T: Transport>(chan: &mut BufferIo<T>) -> (r: Result<(), HttpError>)
    ensures
        r matches Ok(_) ==> final(chan).pending().len() == 0 && final(chan).sent_bytes() == old(
            chan,
        ).outgoing() + continue_line(),
        final(chan).buffered() == old(chan).buffered(),
        final(chan).taken_bytes() == old(chan).taken_bytes(),
        final(chan).write_capacity() == old(chan).write_capacity(),
{
    let line = continue_line_bytes();
    match chan.write_all(line.as_slice()) {
        Ok(_) => {},
        Err(e) => {
            return Err(e);
        },
    }
    chan.flush()
}

/// Serves one connection: decode a head, honour `Expect`, process the
/// request, and loop while both sides keep the connection alive. Returns
/// the channel on a clean close (end of stream, a refused expectation, or
/// no keep-alive) with nothing left pending on it, and `Err` on the first
/// malformed head, premature EOF or transport failure; either way the
/// connection is finished afterwards. A connection whose buffered bytes
/// already hold a malformed head fails before any transport call.
pub fn serve_connection<T: Transport, S: HttpService<T>>(
    service: &S,
    server_name: &Vec<u8>,
    date: &Vec<u8>,
    chan: BufferIo<T>,
) -> (r: Result<BufferIo<T>, HttpError>)
    ensures
        chan.pending().len() == 0 ==> (r matches Ok(c) ==> c.pending().len() == 0),
        spec_decode_request(chan.buffered()) is Bad ==> (r matches Err(e)
            && e matches HttpError::Parse),
{
    let mut ch = chan;
    let mut served: usize = 0;
    loop
        invariant
            chan.pending().len() == 0 ==> ch.pending().len() == 0,
            spec_decode_request(chan.buffered()) is Bad ==> ch.buffered() == chan.buffered()
                && served == 0,
        decreases MAX_REQUESTS_PER_CONNECTION - served,
    {
        if served >= MAX_REQUESTS_PER_CONNECTION {
            return Ok(ch);
        }
        served = served + 1;
        let head = match read_request_head(&mut ch) {
            Ok(Some(head)) => head,
            Ok(None) => {
                return Ok(ch);
            },
            Err(e) => {
                return Err(e);
            },
        };
        match expect_action(&head) {
            ExpectAction::Proceed => {},
            ExpectAction::SendContinue => {
                match send_continue(&mut ch) {
                    Ok(_) => {},
                    Err(e) => {
                        return Err(e);
                    },
                }
            },
            ExpectAction::Refuse => {
                return Ok(ch);
            },
        }
        let outcome = match process_request(service, server_name, date, head, ch) {
            Ok(p) => p,
            Err(e) => {
                return Err(e);
            },
        };
        let (keep_alive, back) = outcome;
        ch = back;
        if !keep_alive {
            return Ok(ch);
        }
    }
}

/// The server's configuration: the service and the per-connection settings
/// a shell applies to accepted transports.
pub struct HttpServer<S> {
    inner: S,
    name: Vec<u8>,
    read_timeout_ms: Option<u64>,
    write_timeout_ms: Option<u64>,
    keep_alive_timeout_ms: Option<u64>,
}

impl<S> HttpServer<S> {
    /// Wraps a service with default configuration: no server name, no
    /// timeouts.
    pub fn new(server: S) -> (r: Self)
        ensures
            r.service_spec() == server,
            r.name_spec().len() == 0,
            r.read_timeout_spec() is None,
            r.write_timeout_spec() is None,
            r.keep_alive_timeout_spec() is None,
    {
        HttpServer {
            inner: server,
            name: Vec::new(),
            read_timeout_ms: None,
            write_timeout_ms: None,
            keep_alive_timeout_ms: None,
        }
    }

    /// The service inside.
    pub closed spec fn service_spec(&self) -> S {
        self.inner
    }

    /// The configured server name.
    pub closed spec fn name_spec(&self) -> Seq<u8> {
        self.name@
    }

    /// The configured read timeout, in milliseconds.
    pub closed spec fn read_timeout_spec(&self) -> Option<u64> {
        self.read_timeout_ms
    }

    /// The configured write timeout, in milliseconds.
    pub closed spec fn write_timeout_spec(&self) -> Option<u64> {
        self.write_timeout_ms
    }

    /// The configured keep-alive timeout, in milliseconds: how long a shell
    /// lets an idle kept-alive connection wait for its next request.
    pub closed spec fn keep_alive_timeout_spec(&self) -> Option<u64> {
        self.keep_alive_timeout_ms
    }

    /// Sets the read timeout applied to each accepted transport.
    pub fn set_read_timeout(&mut self, timeout_ms: Option<u64>)
        ensures
            final(self).read_timeout_spec() == timeout_ms,
            final(self).write_timeout_spec() == old(self).write_timeout_spec(),
            final(self).keep_alive_timeout_spec() == old(self).keep_alive_timeout_spec(),
            final(self).name_spec() == old(self).name_spec(),
            final(self).service_spec() == old(self).service_spec(),
    {
        self.read_timeout_ms = timeout_ms;
    }

    /// Sets the write timeout applied to each accepted transport.
    pub fn set_write_timeout(&mut self, timeout_ms: Option<u64>)
        ensures
            final(self).write_timeout_spec() == timeout_ms,
            final(self).read_timeout_spec() == old(self).read_timeout_spec(),
            final(self).keep_alive_timeout_spec() == old(self).keep_alive_timeout_spec(),
            final(self).name_spec() == old(self).name_spec(),
            final(self).service_spec() == old(self).service_spec(),
    {
        self.write_timeout_ms = timeout_ms;
    }

    /// Sets the keep-alive timeout a shell applies while a kept-alive
    /// connection waits for its next request.
    pub fn set_keep_alive_timeout(&mut self, timeout_ms: Option<u64>)
        ensures
            final(self).keep_alive_timeout_spec() == timeout_ms,
            final(self).read_timeout_spec() == old(self).read_timeout_spec(),
            final(self).write_timeout_spec() == old(self).write_timeout_spec(),
            final(self).name_spec() == old(self).name_spec(),
            final(self).service_spec() == old(self).service_spec(),
    {
        self.keep_alive_timeout_ms = timeout_ms;
    }

    /// Sets the name the server announces in its `server` header.
    pub fn set_server_name(&mut self, name: Vec<u8>)
        ensures
            final(self).name_spec() == name@,
            final(self).read_timeout_spec() == old(self).read_timeout_spec(),
            final(self).write_timeout_spec() == old(self).write_timeout_spec(),
            final(self).keep_alive_timeout_spec() == old(self).keep_alive_timeout_spec(),
            final(self).service_spec() == old(self).service_spec(),
    {
        self.name = name;
    }

    /// The service, borrowed.
    pub fn service(&self) -> (r: &S)
        ensures
            *r == self.service_spec(),
    {
        &self.inner
    }

    /// The server name, borrowed.
    pub fn server_name(&self) -> (r: &Vec<u8>)
        ensures
            r@ == self.name_spec(),
    {
        &self.name
    }

    /// The read timeout, in milliseconds.
    pub fn read_timeout(&self) -> (r: Option<u64>)
        ensures
            r == self.read_timeout_spec(),
    {
        self.read_timeout_ms
    }

    /// The write timeout, in milliseconds.
    pub fn write_timeout(&self) -> (r: Option<u64>)
        ensures
            r == self.write_timeout_spec(),
    {
        self.write_timeout_ms
    }

    /// The keep-alive timeout, in milliseconds.
    pub fn keep_alive_timeout(&self) -> (r: Option<u64>)
        ensures
            r == self.keep_alive_timeout_spec(),
    {
        self.keep_alive_timeout_ms
    }
}

} // verus!
