//! The body framing policy: how many bytes belong to a message body and how
//! its end is signalled. Decided once from the head, never changed after.

use vstd::prelude::*;

use crate::error::HttpError;
use crate::head::{first_header_value, headers_view, HeaderView, RequestHead};
use crate::head::eq_bytes;
use crate::head::get_header;
use crate::num::{dec_value, is_dec_digit, parse_dec};
use crate::tokens::{content_length_name, get_method, get_method_bytes, head_method, head_method_bytes, content_length_bytes};

verus! {

/// One of the three framings a body can have.
#[derive(Debug, Clone, Copy, PartialEq, Eq, Structural)]
pub enum BodyPolicy {
    /// No body bytes at all.
    NoBody,
    /// Exactly this many body bytes, from `Content-Length`.
    SizedBody(usize),
    /// Chunked transfer encoding.
    ChunkedBody,
}

/// Is `v` a well-formed `Content-Length` value whose number fits the
/// machine?
pub open spec fn valid_content_length(v: Seq<u8>) -> bool {
    &&& v.len() >= 1
    &&& forall|i: int| 0 <= i < v.len() ==> is_dec_digit(#[trigger] v[i])
    &&& dec_value(v) <= usize::MAX
}

/// The read-side policy of a request: `GET` and `HEAD` carry no body, a
/// `Content-Length` header fixes the size, anything else reads chunked.
/// `None` means the `Content-Length` value is malformed.
pub open spec fn spec_request_policy(method: Seq<u8>, hs: Seq<HeaderView>) -> Option<BodyPolicy> {
    if method == get_method() || method == head_method() {
        Some(BodyPolicy::NoBody)
    } else {
        match first_header_value(hs, content_length_name()) {
            Some(v) => {
                if valid_content_length(v) {
                    Some(BodyPolicy::SizedBody(dec_value(v) as usize))
                } else {
                    None
                }
            },
            None => Some(BodyPolicy::ChunkedBody),
        }
    }
}

/// The read-side policy of a response: `204`, `304` and informational
/// statuses never carry a body, whatever headers came with them; otherwise
/// a `Content-Length` header fixes the size, and anything else reads
/// chunked.
pub open spec fn spec_response_read_policy(status: u16, hs: Seq<HeaderView>) -> Option<BodyPolicy> {
    if status == 204 || status == 304 || (100 <= status && status < 200) {
        Some(BodyPolicy::NoBody)
    } else {
        match first_header_value(hs, content_length_name()) {
            Some(v) => {
                if valid_content_length(v) {
                    Some(BodyPolicy::SizedBody(dec_value(v) as usize))
                } else {
                    None
                }
            },
            None => Some(BodyPolicy::ChunkedBody),
        }
    }
}

/// The write-side policy of a response: `204`, `304` and informational
/// statuses never carry a body, whatever size was declared; otherwise a
/// declared size wins, and without one the body goes out chunked.
pub open spec fn spec_response_write_policy(status: u16, body_size: Option<usize>) -> BodyPolicy {
    if status == 204 || status == 304 || (100 <= status && status < 200) {
        BodyPolicy::NoBody
    } else {
        match body_size {
            Some(n) => BodyPolicy::SizedBody(n),
            None => BodyPolicy::ChunkedBody,
        }
    }
}

/// Decides the read-side policy of a request from its head.
pub fn request_body_policy(head: &RequestHead) -> (r: Result<BodyPolicy, HttpError>)
    ensures
        match r {
            Ok(p) => spec_request_policy(head.method@, headers_view(head.headers@)) == Some(p),
            Err(e) => spec_request_policy(head.method@, headers_view(head.headers@)) is None && (
            e matches HttpError::Parse),
        },
{
    let get_tok = get_method_bytes();
    let head_tok = head_method_bytes();
    if eq_bytes(head.method.as_slice(), get_tok.as_slice()) || eq_bytes(
        head.method.as_slice(),
        head_tok.as_slice(),
    ) {
        return Ok(BodyPolicy::NoBody);
    }
    let cl = content_length_bytes();
    match get_header(&head.headers, cl.as_slice()) {
        Some(v) => {
            match parse_dec(v.as_slice()) {
                Ok(n) => Ok(BodyPolicy::SizedBody(n)),
                Err(_) => Err(HttpError::Parse),
            }
        },
        None => Ok(BodyPolicy::ChunkedBody),
    }
}

/// Decides the read-side policy of a response from its status and headers.
/// A `204`, `304` or informational status yields `NoBody` whatever the
/// headers, a `Content-Length` header present in spite of it included.
pub fn response_body_policy(status: u16, headers: &Vec<crate::head::Header>) -> (r: Result<
    BodyPolicy,
    HttpError,
>)
    ensures
        match r {
            Ok(p) => spec_response_read_policy(status, headers_view(headers@)) == Some(p),
            Err(e) => spec_response_read_policy(status, headers_view(headers@)) is None && (
            e matches HttpError::Parse),
        },
        (status == 204 || status == 304 || (100 <= status && status < 200)) ==> r == Ok::<
            BodyPolicy,
            HttpError,
        >(BodyPolicy::NoBody),
{
    if status == 204 || status == 304 || (100 <= status && status < 200) {
        return Ok(BodyPolicy::NoBody);
    }
    let cl = content_length_bytes();
    match get_header(headers, cl.as_slice()) {
        Some(v) => {
            match parse_dec(v.as_slice()) {
                Ok(n) => Ok(BodyPolicy::SizedBody(n)),
                Err(_) => Err(HttpError::Parse),
            }
        },
        None => Ok(BodyPolicy::ChunkedBody),
    }
}

/// The rendered decimal length of a sized body is itself a well-formed
/// `Content-Length` value and reads back as the same size: declaring a
/// length and parsing it off the wire agree.
pub proof fn lemma_content_length_round_trip(n: usize)
    ensures
        valid_content_length(crate::num::dec_digits(n as nat)),
        dec_value(crate::num::dec_digits(n as nat)) == n,
{
    crate::num::lemma_dec_digits_are_digits(n as nat);
    crate::num::lemma_dec_value_of_digits(n as nat);
}

/// Decides the write-side policy of a response. A `204`, `304` or
/// informational status yields `NoBody` whatever `body_size` holds.
pub fn response_write_policy(status: u16, body_size: Option<usize>) -> (r: BodyPolicy)
    ensures
        r == spec_response_write_policy(status, body_size),
        (status == 204 || status == 304 || (100 <= status && status < 200)) ==> r
            == BodyPolicy::NoBody,
{
    if status == 204 || status == 304 || (100 <= status && status < 200) {
        BodyPolicy::NoBody
    } else {
        match body_size {
            Some(n) => BodyPolicy::SizedBody(n),
            None => BodyPolicy::ChunkedBody,
        }
    }
}

} // verus!
