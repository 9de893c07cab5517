//! The incremental head decoder: given the unconsumed bytes of the read
//! buffer, either "need more data", or one complete parsed head plus how
//! many bytes it occupied, or a parse error. It performs no I/O and never
//! consumes: the caller advances the buffer by the returned count.
//!
//! The decoder first looks for the head terminator (an empty line, CRLFCRLF)
//! and only then parses the block before it, so what it returns is a
//! function of the first `used` bytes alone; the fragmentation lemmas at the
//! end state exactly that.

use vstd::prelude::*;

use crate::ascii::{COLON, CR, DIGIT_0, DOT, HTAB, LF, SLASH, SP, UPPER_H, UPPER_P, UPPER_T, DIGIT_1};
use crate::error::HttpError;
use crate::head::{Header, HeaderView, RequestHead, RequestHeadView, ResponseHead, ResponseHeadView, Version, headers_view};
use crate::num::is_dec_digit;

verus! {

/// The most bytes a head may occupy. A buffer that grows past this without
/// containing a complete head is treated as malformed, which bounds memory
/// per connection.
pub const MAX_HEAD_SIZE: usize = 65536;

/// Is the four-byte head terminator CRLFCRLF at position `i`?
pub open spec fn is_terminator_at(b: Seq<u8>, i: int) -> bool {
    b[i] == CR && b[i + 1] == LF && b[i + 2] == CR && b[i + 3] == LF
}

/// The first position at or after `i` where the head terminator stands.
pub open spec fn find_terminator_from(b: Seq<u8>, i: int) -> Option<int>
    decreases b.len() - i,
{
    if i < 0 || i + 4 > b.len() {
        None
    } else if is_terminator_at(b, i) {
        Some(i)
    } else {
        find_terminator_from(b, i + 1)
    }
}

/// The first position at or after `i` holding byte `x`.
pub open spec fn find_byte_from(b: Seq<u8>, x: u8, i: int) -> Option<int>
    decreases b.len() - i,
{
    if i < 0 || i >= b.len() {
        None
    } else if b[i] == x {
        Some(i)
    } else {
        find_byte_from(b, x, i + 1)
    }
}

/// Exec search for the head terminator.
pub fn find_terminator(b: &[u8]) -> (r: Option<usize>)
    ensures
        match r {
            Some(t) => find_terminator_from(b@, 0) == Some(t as int) && t + 4 <= b@.len(),
            None => find_terminator_from(b@, 0) is None,
        },
{
    if b.len() < 4 {
        return None;
    }
    let mut i: usize = 0;
    while i <= b.len() - 4
        invariant
            0 <= i,
            b@.len() >= 4,
            i <= b@.len() - 4 + 1,
            find_terminator_from(b@, 0) == find_terminator_from(b@, i as int),
        decreases b@.len() - i,
    {
        if b[i] == CR && b[i + 1] == LF && b[i + 2] == CR && b[i + 3] == LF {
            return Some(i);
        }
        i = i + 1;
    }
    None
}

/// Exec search for a byte, from `start`.
pub fn find_byte(b: &[u8], x: u8, start: usize) -> (r: Option<usize>)
    ensures
        match r {
            Some(p) => find_byte_from(b@, x, start as int) == Some(p as int) && start <= p
                < b@.len(),
            None => find_byte_from(b@, x, start as int) is None,
        },
{
    let mut i: usize = start;
    if i > b.len() {
        return None;
    }
    while i < b.len()
        invariant
            start <= i <= b@.len(),
            find_byte_from(b@, x, start as int) == find_byte_from(b@, x, i as int),
        decreases b@.len() - i,
    {
        if b[i] == x {
            return Some(i);
        }
        i = i + 1;
    }
    None
}

/// Copies `b[from..to]` into an owned vector.
pub fn copy_range(b: &[u8], from: usize, to: usize) -> (v: Vec<u8>)
    requires
        from <= to <= b@.len(),
    ensures
        v@ == b@.subrange(from as int, to as int),
{
    let mut v: Vec<u8> = Vec::new();
    let mut i: usize = from;
    while i < to
        invariant
            from <= i <= to <= b@.len(),
            v@ =~= b@.subrange(from as int, i as int),
        decreases to - i,
    {
        v.push(b[i]);
        i = i + 1;
    }
    proof {
        assert(v@ =~= b@.subrange(from as int, to as int));
    }
    v
}

/// The eight bytes of `HTTP/1.0`.
pub open spec fn http10_token() -> Seq<u8> {
    seq![UPPER_H, UPPER_T, UPPER_T, UPPER_P, SLASH, DIGIT_1, DOT, DIGIT_0]
}

/// The eight bytes of `HTTP/1.1`.
pub open spec fn http11_token() -> Seq<u8> {
    seq![UPPER_H, UPPER_T, UPPER_T, UPPER_P, SLASH, DIGIT_1, DOT, DIGIT_1]
}

/// The version a token names. Only `HTTP/1.0` and `HTTP/1.1` are accepted:
/// any other token is rejected rather than silently treated as 1.1.
pub open spec fn version_of(s: Seq<u8>) -> Option<Version> {
    if s == http10_token() {
        Some(Version::Http10)
    } else if s == http11_token() {
        Some(Version::Http11)
    } else {
        None
    }
}

/// Exec version-token parse.
pub fn parse_version(tok: &[u8]) -> (r: Option<Version>)
    ensures
        r == version_of(tok@),
{
    if tok.len() != 8 {
        proof {
            assert(tok@ != http10_token() && tok@ != http11_token());
        }
        return None;
    }
    if tok[0] == UPPER_H && tok[1] == UPPER_T && tok[2] == UPPER_T && tok[3] == UPPER_P && tok[4]
        == SLASH && tok[5] == DIGIT_1 && tok[6] == DOT {
        if tok[7] == DIGIT_0 {
            proof {
                assert(tok@ =~= http10_token());
            }
            return Some(Version::Http10);
        }
        if tok[7] == DIGIT_1 {
            proof {
                assert(tok@ =~= http11_token());
            }
            return Some(Version::Http11);
        }
        proof {
            assert(tok@[7] != http10_token()[7] && tok@[7] != http11_token()[7]);
        }
        return None;
    }
    proof {
        assert(exists|i: int|
            0 <= i < 7 && #[trigger] tok@[i] != http10_token()[i] && tok@[i] != http11_token()[i]);
    }
    None
}

/// What a request line parses to: `METHOD SP target SP version`, method and
/// target nonempty and free of spaces, the version token exact.
pub open spec fn parse_request_line_spec(line: Seq<u8>) -> Option<(Seq<u8>, Seq<u8>, Version)> {
    match find_byte_from(line, SP, 0) {
        None => None,
        Some(q1) => {
            if q1 == 0 {
                None
            } else {
                match find_byte_from(line, SP, q1 + 1) {
                    None => None,
                    Some(q2) => {
                        if q2 == q1 + 1 {
                            None
                        } else {
                            match version_of(line.skip(q2 + 1)) {
                                None => None,
                                Some(v) => Some(
                                    (line.subrange(0, q1), line.subrange(q1 + 1, q2), v),
                                ),
                            }
                        }
                    },
                }
            }
        },
    }
}

/// Exec request-line parse.
pub fn parse_request_line(line: &[u8]) -> (r: Option<(Vec<u8>, Vec<u8>, Version)>)
    ensures
        match r {
            Some(p) => parse_request_line_spec(line@) == Some((p.0@, p.1@, p.2)),
            None => parse_request_line_spec(line@) is None,
        },
{
    let q1 = match find_byte(line, SP, 0) {
        Some(q1) => q1,
        None => {
            return None;
        },
    };
    if q1 == 0 {
        return None;
    }
    let llen = line.len();
    assert(q1 < llen);
    let q2 = match find_byte(line, SP, q1 + 1) {
        Some(q2) => q2,
        None => {
            return None;
        },
    };
    if q2 == q1 + 1 {
        return None;
    }
    assert(q2 < llen);
    let vtail = &line[q2 + 1..line.len()];
    proof {
        assert(vtail@ =~= line@.skip(q2 + 1));
    }
    let v = match parse_version(vtail) {
        Some(v) => v,
        None => {
            return None;
        },
    };
    let method = copy_range(line, 0, q1);
    let target = copy_range(line, q1 + 1, q2);
    Some((method, target, v))
}

/// What a status line parses to: `version SP 3-digit-code`, optionally
/// followed by one space and a reason, which may be empty.
pub open spec fn parse_status_line_spec(line: Seq<u8>) -> Option<(Version, u16, Seq<u8>)> {
    if line.len() < 12 {
        None
    } else {
        match version_of(line.take(8)) {
            None => None,
            Some(v) => {
                if line[8] != SP || !is_dec_digit(line[9]) || !is_dec_digit(line[10])
                    || !is_dec_digit(line[11]) {
                    None
                } else {
                    let code = ((line[9] - DIGIT_0) as u16 * 100 + (line[10] - DIGIT_0) as u16 * 10
                        + (line[11] - DIGIT_0) as u16) as u16;
                    if line.len() == 12 {
                        Some((v, code, Seq::empty()))
                    } else if line[12] == SP {
                        Some((v, code, line.skip(13)))
                    } else {
                        None
                    }
                }
            },
        }
    }
}

/// Exec status-line parse.
pub fn parse_status_line(line: &[u8]) -> (r: Option<(Version, u16, Vec<u8>)>)
    ensures
        match r {
            Some(p) => parse_status_line_spec(line@) == Some((p.0, p.1, p.2@)),
            None => parse_status_line_spec(line@) is None,
        },
{
    if line.len() < 12 {
        return None;
    }
    let vtok = &line[0..8];
    proof {
        assert(vtok@ =~= line@.take(8));
    }
    let v = match parse_version(vtok) {
        Some(v) => v,
        None => {
            return None;
        },
    };
    if line[8] != SP {
        return None;
    }
    let d1 = line[9];
    let d2 = line[10];
    let d3 = line[11];
    if !(DIGIT_0 <= d1 && d1 <= 57) || !(DIGIT_0 <= d2 && d2 <= 57) || !(DIGIT_0 <= d3 && d3
        <= 57) {
        return None;
    }
    let code: u16 = (d1 - DIGIT_0) as u16 * 100 + (d2 - DIGIT_0) as u16 * 10 + (d3
        - DIGIT_0) as u16;
    if line.len() == 12 {
        let reason: Vec<u8> = Vec::new();
        proof {
            assert(reason@ =~= Seq::<u8>::empty());
        }
        return Some((v, code, reason));
    }
    if line[12] != SP {
        return None;
    }
    let reason = copy_range(line, 13, line.len());
    proof {
        assert(reason@ =~= line@.skip(13));
    }
    Some((v, code, reason))
}

/// The tail of `s` after its leading spaces and horizontal tabs.
pub open spec fn skip_leading_ws(s: Seq<u8>) -> Seq<u8>
    decreases s.len(),
{
    if s.len() > 0 && (s[0] == SP || s[0] == HTAB) {
        skip_leading_ws(s.skip(1))
    } else {
        s
    }
}

/// What one header line parses to: a nonempty, whitespace-free name before
/// the first colon, then the value with leading whitespace dropped. The
/// value's bytes are otherwise opaque.
pub open spec fn parse_header_line_spec(line: Seq<u8>) -> Option<HeaderView> {
    match find_byte_from(line, COLON, 0) {
        None => None,
        Some(q) => {
            if q == 0 {
                None
            } else if exists|i: int| 0 <= i < q && (line[i] == SP || line[i] == HTAB) {
                None
            } else {
                Some(
                    HeaderView { name: line.subrange(0, q), value: skip_leading_ws(line.skip(q + 1)) },
                )
            }
        },
    }
}

/// Exec header-line parse.
pub fn parse_header_line(line: &[u8]) -> (r: Option<Header>)
    ensures
        match r {
            Some(h) => parse_header_line_spec(line@) == Some(h@),
            None => parse_header_line_spec(line@) is None,
        },
{
    let q = match find_byte(line, COLON, 0) {
        Some(q) => q,
        None => {
            return None;
        },
    };
    if q == 0 {
        return None;
    }
    let llen = line.len();
    let mut i: usize = 0;
    while i < q
        invariant
            0 <= i <= q < line@.len(),
            llen == line@.len(),
            find_byte_from(line@, COLON, 0) == Some(q as int),
            forall|j: int| 0 <= j < i ==> !(line@[j] == SP || line@[j] == HTAB),
        decreases q - i,
    {
        if line[i] == SP || line[i] == HTAB {
            proof {
                assert(0 <= i < q && (line@[i as int] == SP || line@[i as int] == HTAB));
            }
            return None;
        }
        i = i + 1;
    }
    assert(q < llen);
    let mut p: usize = q + 1;
    proof {
        assert(line@.skip(q + 1).skip(0) =~= line@.skip(q + 1));
    }
    while p < line.len() && (line[p] == SP || line[p] == HTAB)
        invariant
            q + 1 <= p <= line@.len(),
            skip_leading_ws(line@.skip(q + 1)) == skip_leading_ws(line@.skip(p as int)),
        decreases line@.len() - p,
    {
        proof {
            assert(line@.skip(p as int).skip(1) =~= line@.skip(p + 1));
        }
        p = p + 1;
    }
    proof {
        assert(skip_leading_ws(line@.skip(p as int)) == line@.skip(p as int));
    }
    let name = copy_range(line, 0, q);
    let value = copy_range(line, p, line.len());
    proof {
        assert(name@ =~= line@.subrange(0, q as int));
        assert(value@ =~= line@.skip(p as int));
    }
    Some(Header { name, value })
}

/// The first position at or after `i` where CRLF stands.
pub open spec fn find_crlf_from(b: Seq<u8>, i: int) -> Option<int>
    decreases b.len() - i,
{
    if i < 0 || i + 2 > b.len() {
        None
    } else if b[i] == CR && b[i + 1] == LF {
        Some(i)
    } else {
        find_crlf_from(b, i + 1)
    }
}

/// Exec search for CRLF.
pub fn find_crlf(b: &[u8], start: usize) -> (r: Option<usize>)
    ensures
        match r {
            Some(p) => find_crlf_from(b@, start as int) == Some(p as int) && start <= p && p + 2
                <= b@.len(),
            None => find_crlf_from(b@, start as int) is None,
        },
{
    let n = b.len();
    if start >= n || n - start < 2 {
        return None;
    }
    let mut i: usize = start;
    while i <= n - 2
        invariant
            start <= i,
            n == b@.len(),
            n >= 2,
            i <= n - 1,
            find_crlf_from(b@, start as int) == find_crlf_from(b@, i as int),
        decreases b@.len() - i,
    {
        if b[i] == CR && b[i + 1] == LF {
            return Some(i);
        }
        i = i + 1;
    }
    None
}

/// What a header block parses to: zero or more `name: value CRLF` lines,
/// closed by the empty line, which must be the last two bytes.
pub open spec fn parse_header_lines_spec(b: Seq<u8>) -> Option<Seq<HeaderView>>
    decreases b.len(),
{
    if b.len() == 2 && b[0] == CR && b[1] == LF {
        Some(Seq::empty())
    } else {
        match find_crlf_from(b, 0) {
            None => None,
            Some(p) => {
                if 0 < p && p + 2 <= b.len() {
                    match parse_header_line_spec(b.take(p)) {
                        None => None,
                        Some(h) => {
                            match parse_header_lines_spec(b.skip(p + 2)) {
                                None => None,
                                Some(rest) => Some(seq![h] + rest),
                            }
                        },
                    }
                } else {
                    None
                }
            },
        }
    }
}

/// Exec header-block parse.
pub fn parse_header_lines(b: &[u8]) -> (r: Option<Vec<Header>>)
    ensures
        match r {
            Some(hs) => parse_header_lines_spec(b@) == Some(headers_view(hs@)),
            None => parse_header_lines_spec(b@) is None,
        },
    decreases b@.len(),
{
    if b.len() == 2 && b[0] == CR && b[1] == LF {
        let hs: Vec<Header> = Vec::new();
        proof {
            assert(headers_view(hs@) =~= Seq::<HeaderView>::empty());
        }
        return Some(hs);
    }
    let p = match find_crlf(b, 0) {
        Some(p) => p,
        None => {
            return None;
        },
    };
    if p == 0 {
        return None;
    }
    let line = &b[0..p];
    proof {
        assert(line@ =~= b@.take(p as int));
    }
    let h = match parse_header_line(line) {
        Some(h) => h,
        None => {
            return None;
        },
    };
    let rest = &b[p + 2..b.len()];
    proof {
        assert(rest@ =~= b@.skip(p + 2));
    }
    let tail = match parse_header_lines(rest) {
        Some(tail) => tail,
        None => {
            return None;
        },
    };
    let ghost tailg = tail@;
    let mut hs = tail;
    hs.insert(0, h);
    proof {
        assert(headers_view(hs@) =~= seq![h@] + headers_view(tailg));
    }
    Some(hs)
}

/// How decoding one request head from a byte buffer can come out.
pub ghost enum ReqDecode {
    /// The buffer does not yet hold a complete head.
    Partial,
    /// A complete head occupying the first `used` bytes.
    Complete { head: RequestHeadView, used: int },
    /// The buffer can never become a well-formed head.
    Bad,
}

/// How decoding one response head can come out.
pub ghost enum RspDecode {
    Partial,
    Complete { head: ResponseHeadView, used: int },
    Bad,
}

/// What one complete request block (request line, header lines, empty line)
/// parses to.
pub open spec fn parse_request_block_spec(block: Seq<u8>) -> Option<RequestHeadView> {
    match find_crlf_from(block, 0) {
        None => None,
        Some(p) => {
            if 0 < p && p + 2 <= block.len() {
                match parse_request_line_spec(block.take(p)) {
                    None => None,
                    Some(rl) => {
                        match parse_header_lines_spec(block.skip(p + 2)) {
                            None => None,
                            Some(hs) => Some(
                                RequestHeadView {
                                    method: rl.0,
                                    target: rl.1,
                                    version: rl.2,
                                    headers: hs,
                                },
                            ),
                        }
                    },
                }
            } else {
                None
            }
        },
    }
}

/// What one complete response block parses to.
pub open spec fn parse_response_block_spec(block: Seq<u8>) -> Option<ResponseHeadView> {
    match find_crlf_from(block, 0) {
        None => None,
        Some(p) => {
            if 0 < p && p + 2 <= block.len() {
                match parse_status_line_spec(block.take(p)) {
                    None => None,
                    Some(sl) => {
                        match parse_header_lines_spec(block.skip(p + 2)) {
                            None => None,
                            Some(hs) => Some(
                                ResponseHeadView {
                                    version: sl.0,
                                    status: sl.1,
                                    reason: sl.2,
                                    headers: hs,
                                },
                            ),
                        }
                    },
                }
            } else {
                None
            }
        },
    }
}

/// The whole request decode, as a function of the buffer: need more data
/// while no terminator is in sight and the buffer is still within bounds;
/// otherwise the parse of the block up to and including the terminator.
pub open spec fn spec_decode_request(b: Seq<u8>) -> ReqDecode {
    match find_terminator_from(b, 0) {
        None => {
            if b.len() > MAX_HEAD_SIZE {
                ReqDecode::Bad
            } else {
                ReqDecode::Partial
            }
        },
        Some(t) => {
            match parse_request_block_spec(b.take(t + 4)) {
                None => ReqDecode::Bad,
                Some(h) => ReqDecode::Complete { head: h, used: t + 4 },
            }
        },
    }
}

/// The whole response decode, as a function of the buffer.
pub open spec fn spec_decode_response(b: Seq<u8>) -> RspDecode {
    match find_terminator_from(b, 0) {
        None => {
            if b.len() > MAX_HEAD_SIZE {
                RspDecode::Bad
            } else {
                RspDecode::Partial
            }
        },
        Some(t) => {
            match parse_response_block_spec(b.take(t + 4)) {
                None => RspDecode::Bad,
                Some(h) => RspDecode::Complete { head: h, used: t + 4 },
            }
        },
    }
}

/// Decodes one request head from the unconsumed bytes of the read buffer.
///
/// `Ok(None)` asks the caller to read more and retry; `Ok(Some((head, n)))`
/// is a complete head occupying the first `n` bytes, which the caller must
/// consume; `Err` is a malformed head, fatal to the connection. No I/O
/// happens here and the buffer is not consumed.
pub fn decode(buf: &[u8]) -> (r: Result<Option<(RequestHead, usize)>, HttpError>)
    ensures
        match r {
            Ok(Some(p)) => spec_decode_request(buf@) == (ReqDecode::Complete {
                head: p.0@,
                used: p.1 as int,
            }) && p.1 <= buf@.len(),
            Ok(None) => spec_decode_request(buf@) is Partial,
            Err(e) => spec_decode_request(buf@) is Bad && (e matches HttpError::Parse),
        },
{
    let t = match find_terminator(buf) {
        Some(t) => t,
        None => {
            if buf.len() > MAX_HEAD_SIZE {
                return Err(HttpError::Parse);
            }
            return Ok(None);
        },
    };
    let blen = buf.len();
    assert(t + 4 <= blen);
    let block = &buf[0..t + 4];
    proof {
        assert(block@ =~= buf@.take(t + 4));
    }
    let p = match find_crlf(block, 0) {
        Some(p) => p,
        None => {
            return Err(HttpError::Parse);
        },
    };
    if p == 0 {
        return Err(HttpError::Parse);
    }
    let line = &block[0..p];
    proof {
        assert(line@ =~= block@.take(p as int));
    }
    let rl = match parse_request_line(line) {
        Some(rl) => rl,
        None => {
            return Err(HttpError::Parse);
        },
    };
    let rest = &block[p + 2..block.len()];
    proof {
        assert(rest@ =~= block@.skip(p + 2));
    }
    let hs = match parse_header_lines(rest) {
        Some(hs) => hs,
        None => {
            return Err(HttpError::Parse);
        },
    };
    let head = RequestHead { method: rl.0, target: rl.1, version: rl.2, headers: hs };
    Ok(Some((head, t + 4)))
}

/// Decodes one response head from the unconsumed bytes of the read buffer;
/// the same contract as the request decode.
pub fn decode_response(buf: &[u8]) -> (r: Result<Option<(ResponseHead, usize)>, HttpError>)
    ensures
        match r {
            Ok(Some(p)) => spec_decode_response(buf@) == (RspDecode::Complete {
                head: p.0@,
                used: p.1 as int,
            }) && p.1 <= buf@.len(),
            Ok(None) => spec_decode_response(buf@) is Partial,
            Err(e) => spec_decode_response(buf@) is Bad && (e matches HttpError::Parse),
        },
{
    let t = match find_terminator(buf) {
        Some(t) => t,
        None => {
            if buf.len() > MAX_HEAD_SIZE {
                return Err(HttpError::Parse);
            }
            return Ok(None);
        },
    };
    let blen = buf.len();
    assert(t + 4 <= blen);
    let block = &buf[0..t + 4];
    proof {
        assert(block@ =~= buf@.take(t + 4));
    }
    let p = match find_crlf(block, 0) {
        Some(p) => p,
        None => {
            return Err(HttpError::Parse);
        },
    };
    if p == 0 {
        return Err(HttpError::Parse);
    }
    let line = &block[0..p];
    proof {
        assert(line@ =~= block@.take(p as int));
    }
    let sl = match parse_status_line(line) {
        Some(sl) => sl,
        None => {
            return Err(HttpError::Parse);
        },
    };
    let rest = &block[p + 2..block.len()];
    proof {
        assert(rest@ =~= block@.skip(p + 2));
    }
    let hs = match parse_header_lines(rest) {
        Some(hs) => hs,
        None => {
            return Err(HttpError::Parse);
        },
    };
    let head = ResponseHead { version: sl.0, status: sl.1, reason: sl.2, headers: hs };
    Ok(Some((head, t + 4)))
}

/// A found terminator is in bounds, really a terminator, and the first one.
proof fn lemma_find_term_props(b: Seq<u8>, i: int, t: int)
    requires
        find_terminator_from(b, i) == Some(t),
    ensures
        i <= t,
        t + 4 <= b.len(),
        is_terminator_at(b, t),
        forall|j: int| i <= j < t ==> !is_terminator_at(b, j),
    decreases b.len() - i,
{
    if i < 0 || i + 4 > b.len() {
    } else if is_terminator_at(b, i) {
    } else {
        lemma_find_term_props(b, i + 1, t);
    }
}

/// Where no terminator stands anywhere, none is found.
proof fn lemma_find_term_none(b: Seq<u8>, i: int)
    requires
        forall|j: int| i <= j && j + 4 <= b.len() ==> !is_terminator_at(b, j),
    ensures
        find_terminator_from(b, i) is None,
    decreases b.len() - i,
{
    if i < 0 || i + 4 > b.len() {
    } else {
        lemma_find_term_none(b, i + 1);
    }
}

/// The terminator search depends only on the bytes up to and including the
/// terminator: any buffer agreeing there finds it at the same place.
proof fn lemma_find_term_agree(b: Seq<u8>, c: Seq<u8>, i: int, t: int)
    requires
        0 <= i <= t,
        find_terminator_from(b, i) == Some(t),
        t + 4 <= c.len(),
        c.take(t + 4) == b.take(t + 4),
    ensures
        find_terminator_from(c, i) == Some(t),
    decreases t - i,
{
    lemma_find_term_props(b, i, t);
    assert forall|j: int| 0 <= j < t + 4 implies c[j] == b[j] by {
        assert(c.take(t + 4)[j] == c[j]);
        assert(b.take(t + 4)[j] == b[j]);
    }
    if i == t {
        assert(is_terminator_at(c, t));
    } else {
        assert(!is_terminator_at(b, i));
        assert(!is_terminator_at(c, i));
        lemma_find_term_agree(b, c, i + 1, t);
    }
}

/// A complete request head decodes the same from any buffer that agrees on
/// its `used` bytes: the bytes after a head never change what it parsed to.
pub proof fn lemma_decode_request_complete_stable(
    b: Seq<u8>,
    c: Seq<u8>,
    head: RequestHeadView,
    used: int,
)
    requires
        spec_decode_request(b) == (ReqDecode::Complete { head, used }),
        used <= c.len(),
        c.take(used) == b.take(used),
    ensures
        spec_decode_request(c) == (ReqDecode::Complete { head, used }),
{
    match find_terminator_from(b, 0) {
        Some(t) => {
            lemma_find_term_props(b, 0, t);
            lemma_find_term_agree(b, c, 0, t);
        },
        None => {
            assert(false);
        },
    }
}

/// A strict prefix of a complete request head always decodes to "need more
/// data": feeding a valid head byte by byte never errs and never yields an
/// early head.
pub proof fn lemma_decode_request_prefix_partial(
    b: Seq<u8>,
    head: RequestHeadView,
    used: int,
    j: int,
)
    requires
        spec_decode_request(b) == (ReqDecode::Complete { head, used }),
        0 <= j < used,
        j <= MAX_HEAD_SIZE,
    ensures
        spec_decode_request(b.take(j)) is Partial,
{
    match find_terminator_from(b, 0) {
        Some(t) => {
            lemma_find_term_props(b, 0, t);
            let d = b.take(j);
            assert forall|a: int| 0 <= a && a + 4 <= d.len() implies !is_terminator_at(d, a) by {
                assert(d[a] == b[a] && d[a + 1] == b[a + 1] && d[a + 2] == b[a + 2] && d[a + 3]
                    == b[a + 3]);
                assert(a < t);
                assert(!is_terminator_at(b, a));
            }
            lemma_find_term_none(d, 0);
        },
        None => {
            assert(false);
        },
    }
}

/// The same two facts for response heads.
pub proof fn lemma_decode_response_complete_stable(
    b: Seq<u8>,
    c: Seq<u8>,
    head: ResponseHeadView,
    used: int,
)
    requires
        spec_decode_response(b) == (RspDecode::Complete { head, used }),
        used <= c.len(),
        c.take(used) == b.take(used),
    ensures
        spec_decode_response(c) == (RspDecode::Complete { head, used }),
{
    match find_terminator_from(b, 0) {
        Some(t) => {
            lemma_find_term_props(b, 0, t);
            lemma_find_term_agree(b, c, 0, t);
        },
        None => {
            assert(false);
        },
    }
}

/// A strict prefix of a complete response head decodes to "need more data".
pub proof fn lemma_decode_response_prefix_partial(
    b: Seq<u8>,
    head: ResponseHeadView,
    used: int,
    j: int,
)
    requires
        spec_decode_response(b) == (RspDecode::Complete { head, used }),
        0 <= j < used,
        j <= MAX_HEAD_SIZE,
    ensures
        spec_decode_response(b.take(j)) is Partial,
{
    match find_terminator_from(b, 0) {
        Some(t) => {
            lemma_find_term_props(b, 0, t);
            let d = b.take(j);
            assert forall|a: int| 0 <= a && a + 4 <= d.len() implies !is_terminator_at(d, a) by {
                assert(d[a] == b[a] && d[a + 1] == b[a + 1] && d[a + 2] == b[a + 2] && d[a + 3]
                    == b[a + 3]);
                assert(a < t);
                assert(!is_terminator_at(b, a));
            }
            lemma_find_term_none(d, 0);
        },
        None => {
            assert(false);
        },
    }
}

} // verus!
