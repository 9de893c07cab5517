//! The client side: build a request, emit it with the right body framing,
//! and decode the response head with its body stream.

use vstd::prelude::*;

use vstd::seq_lib::*;

use crate::ascii::{CR, LF, SP};
use crate::body_reader::BodyReader;
use crate::body_writer::BodyWriter;
use crate::buffer::BufferIo;
use crate::chunk::{chunk_frame, chunked_terminal};
use crate::decode::{decode_response, http10_token, http11_token, spec_decode_response, RspDecode};
use crate::decode::lemma_decode_response_complete_stable;
use crate::error::HttpError;
use crate::head::{headers_view, Header, HeaderView, ResponseHead, Version};
use crate::num::dec_digits;
use crate::num::to_dec;
use crate::policy::{response_body_policy, BodyPolicy};
use crate::server::{headers_bytes, push_bytes, te_chunked_line, version_bytes, version_token_bytes};
use crate::tokens::{agent_lines, agent_lines_bytes, chunked_bytes, colon_sp_bytes, content_length_label, content_length_label_bytes, get_method, get_method_bytes, head_method, head_method_bytes, post_method, post_method_bytes, transfer_encoding_bytes};
use crate::transport::Transport;

verus! {

/// A request under construction: method, target, headers, a declared body
/// size, and the body bytes written so far. Nothing reaches the wire until
/// the request is emitted.
#[derive(Debug)]
pub struct Request {
    /// The method; `GET` to begin with.
    pub method: Vec<u8>,
    /// The request target; `/` to begin with.
    pub target: Vec<u8>,
    /// The version on the request line; HTTP/1.1 to begin with.
    pub version: Version,
    /// The headers, in the order they will be serialized.
    pub headers: Vec<Header>,
    /// The declared body length, if one was set.
    pub body_size: Option<usize>,
    /// The body bytes written so far.
    pub body: Vec<u8>,
}

impl Request {
    /// A fresh `GET /` request with no headers and no body.
    pub fn new() -> (r: Request)
        ensures
            r.method@ == get_method(),
            r.target@ == seq![SLASH_BYTE],
            r.version == Version::Http11,
            r.headers@.len() == 0,
            r.body_size is None,
            r.body@.len() == 0,
    {
        let mut target: Vec<u8> = Vec::new();
        target.push(SLASH_BYTE);
        proof {
            assert(target@ =~= seq![SLASH_BYTE]);
        }
        Request {
            method: get_method_bytes(),
            target,
            version: Version::Http11,
            headers: Vec::new(),
            body_size: None,
            body: Vec::new(),
        }
    }

    /// Writes the body and declares its length in one step.
    pub fn send(&mut self, body: &[u8]) -> (r: Result<(), HttpError>)
        ensures
            r is Ok,
            final(self).body_size == Some(body@.len() as usize),
            final(self).body@ == old(self).body@ + body@,
            final(self).method == old(self).method,
            final(self).target == old(self).target,
            final(self).version == old(self).version,
            final(self).headers == old(self).headers,
    {
        self.body_size = Some(body.len());
        push_bytes(&mut self.body, body);
        Ok(())
    }

    /// Declares the body length without writing anything yet.
    pub fn set_content_length(&mut self, len: usize)
        ensures
            final(self).body_size == Some(len),
            final(self).body@ == old(self).body@,
            final(self).method == old(self).method,
            final(self).target == old(self).target,
            final(self).version == old(self).version,
            final(self).headers == old(self).headers,
    {
        self.body_size = Some(len);
    }

    /// Appends body bytes; they reach the wire when the request is emitted.
    pub fn write(&mut self, buf: &[u8]) -> (r: usize)
        ensures
            r == buf@.len(),
            final(self).body@ == old(self).body@ + buf@,
            final(self).body_size == old(self).body_size,
            final(self).method == old(self).method,
            final(self).target == old(self).target,
            final(self).version == old(self).version,
            final(self).headers == old(self).headers,
    {
        push_bytes(&mut self.body, buf);
        buf.len()
    }

    /// Adds a header at the end of the block.
    pub fn append_header(&mut self, name: Vec<u8>, value: Vec<u8>)
        ensures
            final(self).headers@ == old(self).headers@.push(Header { name, value }),
            final(self).body@ == old(self).body@,
            final(self).body_size == old(self).body_size,
            final(self).method == old(self).method,
            final(self).target == old(self).target,
            final(self).version == old(self).version,
    {
        self.headers.push(Header { name, value });
    }
}

/// The byte of `/`.
pub const SLASH_BYTE: u8 = 47;

/// The write-side policy of a request: `GET` and `HEAD` send no body,
/// `POST` sends its declared size or goes chunked, and any other method is
/// not supported for emission.
pub open spec fn spec_request_write_policy(method: Seq<u8>, body_size: Option<usize>) -> Option<
    BodyPolicy,
> {
    if method == get_method() || method == head_method() {
        Some(BodyPolicy::NoBody)
    } else if method == post_method() {
        match body_size {
            Some(n) => Some(BodyPolicy::SizedBody(n)),
            None => Some(BodyPolicy::ChunkedBody),
        }
    } else {
        None
    }
}

/// The serialized head of a request: request line, the client's fixed
/// identification headers, the request's own headers, a `Content-Length`
/// line when a size was declared, a `Transfer-Encoding: chunked` line when
/// the body goes out chunked, and the closing empty line.
pub open spec fn request_head_bytes(
    method: Seq<u8>,
    target: Seq<u8>,
    version: Version,
    hs: Seq<HeaderView>,
    body_size: Option<usize>,
    chunked: bool,
) -> Seq<u8> {
    method + seq![SP] + target + seq![SP] + version_bytes(version) + seq![CR, LF] + agent_lines()
        + headers_bytes(hs) + (match body_size {
        Some(n) => content_length_label() + dec_digits(n as nat) + seq![CR, LF],
        None => Seq::empty(),
    }) + (if chunked {
        te_chunked_line()
    } else {
        Seq::empty()
    }) + seq![CR, LF]
}

/// Serializes a request head.
pub fn encode_request_head(req: &Request, chunked: bool) -> (out: Vec<u8>)
    ensures
        out@ == request_head_bytes(
            req.method@,
            req.target@,
            req.version,
            headers_view(req.headers@),
            req.body_size,
            chunked,
        ),
{
    let mut out: Vec<u8> = Vec::new();
    push_bytes(&mut out, req.method.as_slice());
    out.push(SP);
    push_bytes(&mut out, req.target.as_slice());
    out.push(SP);
    let vt = version_token_bytes(req.version);
    push_bytes(&mut out, vt.as_slice());
    out.push(CR);
    out.push(LF);
    let ghost s1 = req.method@ + seq![SP] + req.target@ + seq![SP] + version_bytes(req.version)
        + seq![CR, LF];
    proof {
        assert(out@ =~= s1);
    }
    let ua = agent_lines_bytes();
    push_bytes(&mut out, ua.as_slice());
    let ghost s2 = s1 + agent_lines();
    proof {
        assert(out@ =~= s2);
    }
    crate::server::encode_headers(&mut out, &req.headers);
    let ghost s3 = s2 + headers_bytes(headers_view(req.headers@));
    proof {
        assert(out@ =~= s3);
    }
    match req.body_size {
        Some(n) => {
            let label = content_length_label_bytes();
            push_bytes(&mut out, label.as_slice());
            let digits = to_dec(n);
            push_bytes(&mut out, digits.as_slice());
            out.push(CR);
            out.push(LF);
        },
        None => {},
    }
    let ghost s4 = s3 + (match req.body_size {
        Some(n) => content_length_label() + dec_digits(n as nat) + seq![CR, LF],
        None => Seq::<u8>::empty(),
    });
    proof {
        assert(out@ =~= s4);
    }
    if chunked {
        let te = transfer_encoding_bytes();
        push_bytes(&mut out, te.as_slice());
        let sep = colon_sp_bytes();
        push_bytes(&mut out, sep.as_slice());
        let ck = chunked_bytes();
        push_bytes(&mut out, ck.as_slice());
        out.push(CR);
        out.push(LF);
    }
    let ghost s5 = s4 + (if chunked {
        te_chunked_line()
    } else {
        Seq::<u8>::empty()
    });
    proof {
        assert(out@ =~= s5);
    }
    out.push(CR);
    out.push(LF);
    proof {
        assert(out@ =~= s5 + seq![CR, LF]);
        assert(s5 + seq![CR, LF] =~= request_head_bytes(
            req.method@,
            req.target@,
            req.version,
            headers_view(req.headers@),
            req.body_size,
            chunked,
        ));
    }
    out
}

/// The body bytes a request policy puts on the wire for a buffered body.
pub open spec fn request_wire_body(policy: BodyPolicy, body: Seq<u8>) -> Seq<u8> {
    match policy {
        BodyPolicy::NoBody => Seq::empty(),
        BodyPolicy::SizedBody(n) => body.take(n as int),
        BodyPolicy::ChunkedBody => if body.len() == 0 {
            chunked_terminal()
        } else {
            chunk_frame(body) + chunked_terminal()
        },
    }
}

/// Emits a whole request: head, body with its framing, flush. On success
/// the bytes handed to the transport are exactly the head followed by the
/// framed body. A method other than `GET`, `HEAD` or `POST` is refused
/// with `InvalidMethod` carrying the method's bytes, and a declared length
/// larger than the body written is an error; either way nothing sound can
/// be emitted and the connection must close.
#[verifier::loop_isolation(false)]
pub fn write_request<T: Transport>(chan: BufferIo<T>, req: &Request) -> (r: Result<
    BufferIo<T>,
    HttpError,
>)
    ensures
        ({
            match spec_request_write_policy(req.method@, req.body_size) {
                None => (r matches Err(e) && e matches HttpError::InvalidMethod { name } && name@
                    == req.method@),
                Some(policy) => match r {
                    Ok(c) => {
                        &&& c.sent_bytes() == chan.outgoing() + request_head_bytes(
                            req.method@,
                            req.target@,
                            req.version,
                            headers_view(req.headers@),
                            req.body_size,
                            policy is ChunkedBody,
                        ) + request_wire_body(policy, req.body@)
                        &&& c.pending().len() == 0
                        &&& c.buffered() == chan.buffered()
                        &&& c.taken_bytes() == chan.taken_bytes()
                        &&& (policy matches BodyPolicy::SizedBody(n) ==> n <= req.body@.len())
                    },
                    Err(_) => true,
                },
            }
        }),
{
    let get_tok = get_method_bytes();
    let head_tok = head_method_bytes();
    let post_tok = post_method_bytes();
    let policy: BodyPolicy;
    if crate::head::eq_bytes(req.method.as_slice(), get_tok.as_slice()) || crate::head::eq_bytes(
        req.method.as_slice(),
        head_tok.as_slice(),
    ) {
        policy = BodyPolicy::NoBody;
    } else if crate::head::eq_bytes(req.method.as_slice(), post_tok.as_slice()) {
        policy = match req.body_size {
            Some(n) => BodyPolicy::SizedBody(n),
            None => BodyPolicy::ChunkedBody,
        };
    } else {
        let mut name: Vec<u8> = Vec::new();
        push_bytes(&mut name, req.method.as_slice());
        proof {
            assert(name@ =~= req.method@);
        }
        return Err(HttpError::InvalidMethod { name });
    }
    let chunked = matches!(policy, BodyPolicy::ChunkedBody);
    let head = encode_request_head(req, chunked);
    let mut chan = chan;
    match chan.write_all(head.as_slice()) {
        Ok(_) => {},
        Err(e) => {
            return Err(e);
        },
    }
    match policy {
        BodyPolicy::NoBody => {
            let w = BodyWriter::EmptyWriter(chan);
            match w.finish() {
                Ok(c) => Ok(c),
                Err(e) => Err(e),
            }
        },
        BodyPolicy::SizedBody(n) => {
            if n > req.body.len() {
                return Err(HttpError::Transport);
            }
            let ghost start = chan.outgoing();
            let mut w = BodyWriter::SizedWriter(chan, n);
            let mut written: usize = 0;
            while written < n
                invariant
                    written <= n <= req.body@.len(),
                    w matches BodyWriter::SizedWriter(c, rem) && {
                        &&& rem == n - written
                        &&& c.outgoing() == start + req.body@.take(written as int)
                        &&& c.buffered() == chan.buffered()
                        &&& c.taken_bytes() == chan.taken_bytes()
                        &&& c.write_capacity() == chan.write_capacity()
                    },
                decreases n - written,
            {
                let part = &req.body[written..n];
                let k = match w.write(part) {
                    Ok(k) => k,
                    Err(e) => {
                        return Err(e);
                    },
                };
                if k == 0 {
                    return Err(HttpError::Transport);
                }
                proof {
                    assert(part@.take(k as int) =~= req.body@.subrange(written as int, written + k));
                    assert(start + req.body@.take(written as int) + req.body@.subrange(
                        written as int,
                        written + k,
                    ) =~= start + req.body@.take(written + k));
                }
                written = written + k;
            }
            match w.finish() {
                Ok(c) => Ok(c),
                Err(e) => Err(e),
            }
        },
        BodyPolicy::ChunkedBody => {
            let mut w = BodyWriter::ChunkWriter(chan);
            if req.body.len() > 0 {
                match w.write(req.body.as_slice()) {
                    Ok(_) => {},
                    Err(e) => {
                        return Err(e);
                    },
                }
            }
            match w.finish() {
                Ok(c) => {
                    proof {
                        if req.body@.len() > 0 {
                            assert(chan.outgoing() + head@ + chunk_frame(req.body@)
                                + chunked_terminal() =~= chan.outgoing() + (head@ + (chunk_frame(
                                req.body@,
                            ) + chunked_terminal())));
                        }
                    }
                    Ok(c)
                },
                Err(e) => Err(e),
            }
        },
    }
}

/// A received response: the parsed head and the body stream.
pub struct Response<T> {
    /// The parsed head.
    pub head: ResponseHead,
    /// The body, framed by the head's policy; it owns the connection's
    /// channel until the caller reclaims it with `finish`.
    pub body: BodyReader<T>,
}

/// Reads one response head from the channel, filling from the transport as
/// needed, and attaches the body reader its status and headers call for: no
/// body for `204`, `304` and informational statuses, a `Content-Length`
/// body, or a chunked one. End of stream before a complete head is a
/// premature EOF; a channel whose buffered bytes already hold a complete
/// well-formed head cannot fail. On success the bytes consumed since entry
/// decode to exactly the returned head.
#[verifier::loop_isolation(false)]
pub fn read_response<T: Transport>(chan: BufferIo<T>) -> (r: Result<
    (ResponseHead, BodyReader<T>),
    HttpError,
>)
    ensures
        (spec_decode_response(chan.buffered()) matches RspDecode::Complete { head, used }
            && crate::policy::spec_response_read_policy(head.status, head.headers) is Some) ==> r
            is Ok,
        spec_decode_response(chan.buffered()) is Bad ==> (r matches Err(e)
            && e matches HttpError::Parse),
        r matches Ok(p) ==> ({
            let delta = p.1.channel().taken_bytes().skip(chan.taken_bytes().len() as int);
            &&& spec_decode_response(delta) == (RspDecode::Complete {
                head: p.0@,
                used: delta.len() as int,
            })
            &&& p.1.channel().pending() == chan.pending()
            &&& p.1.channel().sent_bytes() == chan.sent_bytes()
            &&& (match crate::policy::spec_response_read_policy(
                p.0.status,
                headers_view(p.0.headers@),
            ) {
                Some(BodyPolicy::SizedBody(n)) => p.1 matches BodyReader::SizedReader(_, rem)
                    && rem == n,
                Some(BodyPolicy::ChunkedBody) => p.1 matches BodyReader::ChunkReader(_, st)
                    && st is None,
                Some(BodyPolicy::NoBody) => p.1 is EmptyReader,
                None => false,
            })
        }),
{
    let ghost base = chan.taken_bytes();
    let ghost p0 = chan.pending();
    let ghost s0 = chan.sent_bytes();
    let ghost b0 = chan.buffered();
    let mut ch = chan;
    loop
        invariant
            ch.taken_bytes() == base,
            ch.pending() == p0,
            ch.sent_bytes() == s0,
            !(spec_decode_response(b0) is Partial) ==> ch.buffered() == b0,
        decreases (if ch.buffered().len() <= crate::decode::MAX_HEAD_SIZE {
            crate::decode::MAX_HEAD_SIZE + 1 - ch.buffered().len()
        } else {
            0
        }),
    {
        let outcome = decode_response(ch.get_reader_buf().as_slice());
        match outcome {
            Ok(Some(p)) => {
                let (h, used) = p;
                let ghost pre = ch.buffered();
                ch.consume(used);
                proof {
                    let block = pre.take(used as int);
                    assert(block.take(used as int) =~= block);
                    lemma_decode_response_complete_stable(pre, block, h@, used as int);
                    assert(ch.taken_bytes().skip(base.len() as int) =~= block);
                }
                let reader = match response_body_policy(h.status, &h.headers) {
                    Ok(BodyPolicy::SizedBody(n)) => BodyReader::SizedReader(ch, n),
                    Ok(BodyPolicy::ChunkedBody) => BodyReader::ChunkReader(ch, None),
                    Ok(BodyPolicy::NoBody) => BodyReader::EmptyReader(ch),
                    Err(e) => {
                        return Err(e);
                    },
                };
                return Ok((h, reader));
            },
            Ok(None) => {
                match ch.bump_read() {
                    Ok(n) => {
                        if n == 0 {
                            return Err(HttpError::PrematureEof);
                        }
                    },
                    Err(e) => {
                        return Err(e);
                    },
                }
            },
            Err(e) => {
                return Err(e);
            },
        }
    }
}

/// Builds a bare request with the given method and target and nothing else.
pub fn new_request(method: Vec<u8>, target: Vec<u8>) -> (r: Request)
    ensures
        r.method == method,
        r.target == target,
        r.version == Version::Http11,
        r.headers@.len() == 0,
        r.body_size is None,
        r.body@.len() == 0,
{
    Request { method, target, version: Version::Http11, headers: Vec::new(), body_size: None, body: Vec::new() }
}

/// An HTTP client: the buffered channel around one connected transport.
/// Sending a request moves the channel through the exchange; it comes back
/// by finishing the response's body.
pub struct HttpClient<T> {
    conn: BufferIo<T>,
}

impl<T: Transport> HttpClient<T> {
    /// The channel inside.
    pub closed spec fn channel(&self) -> BufferIo<T> {
        self.conn
    }

    /// Wraps an already-connected transport.
    pub fn new(io: T) -> (r: Self)
        ensures
            r.channel().buffered() =~= Seq::<u8>::empty(),
            r.channel().taken_bytes() =~= Seq::<u8>::empty(),
            r.channel().pending() =~= Seq::<u8>::empty(),
            r.channel().sent_bytes() =~= Seq::<u8>::empty(),
    {
        HttpClient { conn: BufferIo::new(io) }
    }

    /// Wraps an existing channel, for a connection whose previous exchange
    /// is finished.
    pub fn from_channel(conn: BufferIo<T>) -> (r: Self)
        ensures
            r.channel() == conn,
    {
        HttpClient { conn }
    }

    /// Sends `req` and reads the response: the emitted bytes are the
    /// request head and its framed body, and the returned head decodes from
    /// exactly the bytes consumed off the stream.
    pub fn send_request(self, req: &Request) -> (r: Result<Response<T>, HttpError>)
        ensures
            r matches Ok(rsp) ==> ({
                let delta = rsp.body.channel().taken_bytes().skip(
                    self.channel().taken_bytes().len() as int,
                );
                &&& spec_decode_response(delta) == (RspDecode::Complete {
                    head: rsp.head@,
                    used: delta.len() as int,
                })
                &&& (match spec_request_write_policy(req.method@, req.body_size) {
                    Some(policy) => rsp.body.channel().sent_bytes() == self.channel().outgoing()
                        + request_head_bytes(
                        req.method@,
                        req.target@,
                        req.version,
                        headers_view(req.headers@),
                        req.body_size,
                        policy is ChunkedBody,
                    ) + request_wire_body(policy, req.body@),
                    None => false,
                })
            }),
            (spec_request_write_policy(req.method@, req.body_size) is None) ==> (r matches Err(e)
                && e matches HttpError::InvalidMethod { name } && name@ == req.method@),
    {
        let chan = match write_request(self.conn, req) {
            Ok(c) => c,
            Err(e) => {
                return Err(e);
            },
        };
        match read_response(chan) {
            Ok(p) => {
                let (head, body) = p;
                Ok(Response { head, body })
            },
            Err(e) => Err(e),
        }
    }

    /// Sends a `GET` request for `target` and reads the response.
    pub fn get(self, target: Vec<u8>) -> (r: Result<Response<T>, HttpError>)
        ensures
            r matches Ok(rsp) ==> ({
                let delta = rsp.body.channel().taken_bytes().skip(
                    self.channel().taken_bytes().len() as int,
                );
                spec_decode_response(delta) == (RspDecode::Complete {
                    head: rsp.head@,
                    used: delta.len() as int,
                })
            }),
    {
        let req = new_request(get_method_bytes(), target);
        self.send_request(&req)
    }

    /// Sends a `POST` of `data` to `target`, with its length declared, and
    /// reads the response.
    pub fn post(self, target: Vec<u8>, data: &[u8]) -> (r: Result<Response<T>, HttpError>)
        ensures
            r matches Ok(rsp) ==> ({
                let delta = rsp.body.channel().taken_bytes().skip(
                    self.channel().taken_bytes().len() as int,
                );
                spec_decode_response(delta) == (RspDecode::Complete {
                    head: rsp.head@,
                    used: delta.len() as int,
                })
            }),
    {
        let mut req = new_request(post_method_bytes(), target);
        match req.send(data) {
            Ok(_) => {},
            Err(e) => {
                return Err(e);
            },
        }
        self.send_request(&req)
    }
}

} // verus!
