//! Message heads: request line or status line plus the header block, as
//! plain owned bytes, with case-insensitive header lookup.

use vstd::prelude::*;

use crate::ascii::to_lower;
use crate::ascii::lower_byte;

verus! {

/// An HTTP version this library speaks. Any other version token on the wire
/// is rejected by the decoder.
#[derive(Clone, Copy, Debug, PartialEq, Eq, Structural)]
pub enum Version {
    Http10,
    Http11,
}

/// One header field: a name and an uninterpreted value.
#[derive(Debug, Clone)]
pub struct Header {
    pub name: Vec<u8>,
    pub value: Vec<u8>,
}

/// The mathematical shadow of a header.
pub ghost struct HeaderView {
    pub name: Seq<u8>,
    pub value: Seq<u8>,
}

impl View for Header {
    type V = HeaderView;

    open spec fn view(&self) -> HeaderView {
        HeaderView { name: self.name@, value: self.value@ }
    }
}

/// The headers of a head, as views.
pub open spec fn headers_view(hs: Seq<Header>) -> Seq<HeaderView> {
    hs.map_values(|h: Header| h@)
}

/// A parsed request head.
#[derive(Debug)]
pub struct RequestHead {
    pub method: Vec<u8>,
    pub target: Vec<u8>,
    pub version: Version,
    pub headers: Vec<Header>,
}

/// The mathematical shadow of a request head.
pub ghost struct RequestHeadView {
    pub method: Seq<u8>,
    pub target: Seq<u8>,
    pub version: Version,
    pub headers: Seq<HeaderView>,
}

impl View for RequestHead {
    type V = RequestHeadView;

    open spec fn view(&self) -> RequestHeadView {
        RequestHeadView {
            method: self.method@,
            target: self.target@,
            version: self.version,
            headers: headers_view(self.headers@),
        }
    }
}

/// A parsed response head.
#[derive(Debug)]
pub struct ResponseHead {
    pub version: Version,
    pub status: u16,
    pub reason: Vec<u8>,
    pub headers: Vec<Header>,
}

/// The mathematical shadow of a response head.
pub ghost struct ResponseHeadView {
    pub version: Version,
    pub status: u16,
    pub reason: Seq<u8>,
    pub headers: Seq<HeaderView>,
}

impl View for ResponseHead {
    type V = ResponseHeadView;

    open spec fn view(&self) -> ResponseHeadView {
        ResponseHeadView {
            version: self.version,
            status: self.status,
            reason: self.reason@,
            headers: headers_view(self.headers@),
        }
    }
}

/// ASCII lowercasing of a byte string.
pub open spec fn lower_seq(s: Seq<u8>) -> Seq<u8> {
    s.map_values(|b: u8| to_lower(b))
}

/// Do two byte strings match as ASCII-case-insensitive header names?
pub open spec fn name_matches(a: Seq<u8>, b: Seq<u8>) -> bool {
    lower_seq(a) == lower_seq(b)
}

/// The value of the first header named `name` (case-insensitively), if any.
pub open spec fn first_header_value(hs: Seq<HeaderView>, name: Seq<u8>) -> Option<Seq<u8>>
    decreases hs.len(),
{
    if hs.len() == 0 {
        None
    } else if name_matches(hs[0].name, name) {
        Some(hs[0].value)
    } else {
        first_header_value(hs.skip(1), name)
    }
}

/// Does some header named `name` (case-insensitively) carry exactly `value`?
pub open spec fn has_header_value(hs: Seq<HeaderView>, name: Seq<u8>, value: Seq<u8>) -> bool {
    exists|i: int|
        0 <= i < hs.len() && name_matches(#[trigger] hs[i].name, name) && hs[i].value == value
}

/// Exec ASCII-case-insensitive byte-string comparison.
pub fn eq_ignore_case(a: &[u8], b: &[u8]) -> (r: bool)
    ensures
        r == name_matches(a@, b@),
{
    if a.len() != b.len() {
        assert(lower_seq(a@).len() != lower_seq(b@).len());
        return false;
    }
    let mut i: usize = 0;
    while i < a.len()
        invariant
            0 <= i <= a@.len(),
            a@.len() == b@.len(),
            forall|j: int| 0 <= j < i ==> to_lower(a@[j]) == to_lower(b@[j]),
        decreases a@.len() - i,
    {
        if lower_byte(a[i]) != lower_byte(b[i]) {
            assert(lower_seq(a@)[i as int] != lower_seq(b@)[i as int]);
            return false;
        }
        i = i + 1;
    }
    proof {
        assert(lower_seq(a@) =~= lower_seq(b@));
    }
    true
}

/// The value of the first header named `name`, case-insensitively.
pub fn get_header<'a>(headers: &'a Vec<Header>, name: &[u8]) -> (r: Option<&'a Vec<u8>>)
    ensures
        match r {
            Some(v) => first_header_value(headers_view(headers@), name@) == Some(v@),
            None => first_header_value(headers_view(headers@), name@) is None,
        },
{
    let mut i: usize = 0;
    proof {
        assert(headers_view(headers@).skip(0) =~= headers_view(headers@));
    }
    while i < headers.len()
        invariant
            0 <= i <= headers@.len(),
            first_header_value(headers_view(headers@), name@) == first_header_value(
                headers_view(headers@).skip(i as int),
                name@,
            ),
        decreases headers@.len() - i,
    {
        let h = &headers[i];
        if eq_ignore_case(h.name.as_slice(), name) {
            proof {
                assert(headers_view(headers@).skip(i as int)[0] == headers@[i as int]@);
            }
            return Some(&h.value);
        }
        proof {
            assert(headers_view(headers@).skip(i as int)[0] == headers@[i as int]@);
            assert(headers_view(headers@).skip(i as int).skip(1) =~= headers_view(
                headers@,
            ).skip(i + 1));
        }
        i = i + 1;
    }
    proof {
        assert(headers_view(headers@).skip(headers@.len() as int) =~= Seq::<HeaderView>::empty());
    }
    None
}

/// Does some header named `name` carry exactly `value`? Header names
/// compare case-insensitively, values byte for byte.
pub fn has_header(headers: &Vec<Header>, name: &[u8], value: &[u8]) -> (r: bool)
    ensures
        r == has_header_value(headers_view(headers@), name@, value@),
{
    let mut i: usize = 0;
    while i < headers.len()
        invariant
            0 <= i <= headers@.len(),
            forall|j: int|
                0 <= j < i ==> !(name_matches(
                    #[trigger] headers_view(headers@)[j].name,
                    name@,
                ) && headers_view(headers@)[j].value == value@),
        decreases headers@.len() - i,
    {
        let h = &headers[i];
        if eq_ignore_case(h.name.as_slice(), name) {
            if eq_bytes(h.value.as_slice(), value) {
                proof {
                    assert(headers_view(headers@)[i as int] == headers@[i as int]@);
                    assert(name_matches(headers_view(headers@)[i as int].name, name@)
                        && headers_view(headers@)[i as int].value == value@);
                }
                return true;
            }
        }
        proof {
            assert(headers_view(headers@)[i as int] == headers@[i as int]@);
        }
        i = i + 1;
    }
    false
}

/// Exec byte-for-byte equality.
pub fn eq_bytes(a: &[u8], b: &[u8]) -> (r: bool)
    ensures
        r == (a@ == b@),
{
    if a.len() != b.len() {
        return false;
    }
    let mut i: usize = 0;
    while i < a.len()
        invariant
            0 <= i <= a@.len(),
            a@.len() == b@.len(),
            forall|j: int| 0 <= j < i ==> a@[j] == b@[j],
        decreases a@.len() - i,
    {
        if a[i] != b[i] {
            return false;
        }
        i = i + 1;
    }
    proof {
        assert(a@ =~= b@);
    }
    true
}

} // verus!
