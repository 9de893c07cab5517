//! Byte-string constants of the wire grammar and of header names the
//! lifecycle inspects, each as a spec sequence with an exec builder proved
//! to produce exactly it.

use vstd::prelude::*;

verus! {

/// The bytes of the `content-length` header name.
pub open spec fn content_length_name() -> Seq<u8> {
    seq![99u8, 111, 110, 116, 101, 110, 116, 45, 108, 101, 110, 103, 116, 104]
}

/// Exec builder for `content_length_name`.
pub fn content_length_bytes() -> (v: Vec<u8>)
    ensures
        v@ =~= content_length_name(),
{
    let mut v: Vec<u8> = Vec::new();
    v.push(99);
    v.push(111);
    v.push(110);
    v.push(116);
    v.push(101);
    v.push(110);
    v.push(116);
    v.push(45);
    v.push(108);
    v.push(101);
    v.push(110);
    v.push(103);
    v.push(116);
    v.push(104);
    proof {
        assert(v@ =~= content_length_name());
    }
    v
}

/// The bytes of the `connection` header name.
pub open spec fn connection_name() -> Seq<u8> {
    seq![99u8, 111, 110, 110, 101, 99, 116, 105, 111, 110]
}

/// Exec builder for `connection_name`.
pub fn connection_bytes() -> (v: Vec<u8>)
    ensures
        v@ =~= connection_name(),
{
    let mut v: Vec<u8> = Vec::new();
    v.push(99);
    v.push(111);
    v.push(110);
    v.push(110);
    v.push(101);
    v.push(99);
    v.push(116);
    v.push(105);
    v.push(111);
    v.push(110);
    proof {
        assert(v@ =~= connection_name());
    }
    v
}

/// The bytes of the `keep-alive` connection option.
pub open spec fn keep_alive_value() -> Seq<u8> {
    seq![107u8, 101, 101, 112, 45, 97, 108, 105, 118, 101]
}

/// Exec builder for `keep_alive_value`.
pub fn keep_alive_bytes() -> (v: Vec<u8>)
    ensures
        v@ =~= keep_alive_value(),
{
    let mut v: Vec<u8> = Vec::new();
    v.push(107);
    v.push(101);
    v.push(101);
    v.push(112);
    v.push(45);
    v.push(97);
    v.push(108);
    v.push(105);
    v.push(118);
    v.push(101);
    proof {
        assert(v@ =~= keep_alive_value());
    }
    v
}

/// The bytes of the `close` connection option.
pub open spec fn close_value() -> Seq<u8> {
    seq![99u8, 108, 111, 115, 101]
}

/// Exec builder for `close_value`.
pub fn close_bytes() -> (v: Vec<u8>)
    ensures
        v@ =~= close_value(),
{
    let mut v: Vec<u8> = Vec::new();
    v.push(99);
    v.push(108);
    v.push(111);
    v.push(115);
    v.push(101);
    proof {
        assert(v@ =~= close_value());
    }
    v
}

/// The bytes of the `expect` header name.
pub open spec fn expect_name() -> Seq<u8> {
    seq![101u8, 120, 112, 101, 99, 116]
}

/// Exec builder for `expect_name`.
pub fn expect_bytes() -> (v: Vec<u8>)
    ensures
        v@ =~= expect_name(),
{
    let mut v: Vec<u8> = Vec::new();
    v.push(101);
    v.push(120);
    v.push(112);
    v.push(101);
    v.push(99);
    v.push(116);
    proof {
        assert(v@ =~= expect_name());
    }
    v
}

/// The bytes of the `100-continue` expectation.
pub open spec fn continue_expect_value() -> Seq<u8> {
    seq![49u8, 48, 48, 45, 99, 111, 110, 116, 105, 110, 117, 101]
}

/// Exec builder for `continue_expect_value`.
pub fn continue_expect_bytes() -> (v: Vec<u8>)
    ensures
        v@ =~= continue_expect_value(),
{
    let mut v: Vec<u8> = Vec::new();
    v.push(49);
    v.push(48);
    v.push(48);
    v.push(45);
    v.push(99);
    v.push(111);
    v.push(110);
    v.push(116);
    v.push(105);
    v.push(110);
    v.push(117);
    v.push(101);
    proof {
        assert(v@ =~= continue_expect_value());
    }
    v
}

/// The bytes of the `transfer-encoding` header name.
pub open spec fn transfer_encoding_name() -> Seq<u8> {
    seq![116u8, 114, 97, 110, 115, 102, 101, 114, 45, 101, 110, 99, 111, 100, 105, 110, 103]
}

/// Exec builder for `transfer_encoding_name`.
pub fn transfer_encoding_bytes() -> (v: Vec<u8>)
    ensures
        v@ =~= transfer_encoding_name(),
{
    let mut v: Vec<u8> = Vec::new();
    v.push(116);
    v.push(114);
    v.push(97);
    v.push(110);
    v.push(115);
    v.push(102);
    v.push(101);
    v.push(114);
    v.push(45);
    v.push(101);
    v.push(110);
    v.push(99);
    v.push(111);
    v.push(100);
    v.push(105);
    v.push(110);
    v.push(103);
    proof {
        assert(v@ =~= transfer_encoding_name());
    }
    v
}

/// The bytes of the `chunked` transfer coding.
pub open spec fn chunked_value() -> Seq<u8> {
    seq![99u8, 104, 117, 110, 107, 101, 100]
}

/// Exec builder for `chunked_value`.
pub fn chunked_bytes() -> (v: Vec<u8>)
    ensures
        v@ =~= chunked_value(),
{
    let mut v: Vec<u8> = Vec::new();
    v.push(99);
    v.push(104);
    v.push(117);
    v.push(110);
    v.push(107);
    v.push(101);
    v.push(100);
    proof {
        assert(v@ =~= chunked_value());
    }
    v
}

/// The bytes of the `server` header name.
pub open spec fn server_header_name() -> Seq<u8> {
    seq![115u8, 101, 114, 118, 101, 114]
}

/// Exec builder for `server_header_name`.
pub fn server_header_bytes() -> (v: Vec<u8>)
    ensures
        v@ =~= server_header_name(),
{
    let mut v: Vec<u8> = Vec::new();
    v.push(115);
    v.push(101);
    v.push(114);
    v.push(118);
    v.push(101);
    v.push(114);
    proof {
        assert(v@ =~= server_header_name());
    }
    v
}

/// The bytes of the `GET` method.
pub open spec fn get_method() -> Seq<u8> {
    seq![71u8, 69, 84]
}

/// Exec builder for `get_method`.
pub fn get_method_bytes() -> (v: Vec<u8>)
    ensures
        v@ =~= get_method(),
{
    let mut v: Vec<u8> = Vec::new();
    v.push(71);
    v.push(69);
    v.push(84);
    proof {
        assert(v@ =~= get_method());
    }
    v
}

/// The bytes of the `HEAD` method.
pub open spec fn head_method() -> Seq<u8> {
    seq![72u8, 69, 65, 68]
}

/// Exec builder for `head_method`.
pub fn head_method_bytes() -> (v: Vec<u8>)
    ensures
        v@ =~= head_method(),
{
    let mut v: Vec<u8> = Vec::new();
    v.push(72);
    v.push(69);
    v.push(65);
    v.push(68);
    proof {
        assert(v@ =~= head_method());
    }
    v
}

/// The bytes of the `POST` method.
pub open spec fn post_method() -> Seq<u8> {
    seq![80u8, 79, 83, 84]
}

/// Exec builder for `post_method`.
pub fn post_method_bytes() -> (v: Vec<u8>)
    ensures
        v@ =~= post_method(),
{
    let mut v: Vec<u8> = Vec::new();
    v.push(80);
    v.push(79);
    v.push(83);
    v.push(84);
    proof {
        assert(v@ =~= post_method());
    }
    v
}

/// The bytes of the interim `100 Continue` response, sent verbatim:
/// the status line `HTTP/1.1 100 Continue` and an empty header block.
pub open spec fn continue_line() -> Seq<u8> {
    seq![72u8, 84, 84, 80, 47, 49, 46, 49, 32, 49, 48, 48, 32, 67, 111, 110, 116, 105, 110, 117, 101, 13, 10, 13, 10]
}

/// Exec builder for `continue_line`.
pub fn continue_line_bytes() -> (v: Vec<u8>)
    ensures
        v@ =~= continue_line(),
{
    let mut v: Vec<u8> = Vec::new();
    v.push(72);
    v.push(84);
    v.push(84);
    v.push(80);
    v.push(47);
    v.push(49);
    v.push(46);
    v.push(49);
    v.push(32);
    v.push(49);
    v.push(48);
    v.push(48);
    v.push(32);
    v.push(67);
    v.push(111);
    v.push(110);
    v.push(116);
    v.push(105);
    v.push(110);
    v.push(117);
    v.push(101);
    v.push(13);
    v.push(10);
    v.push(13);
    v.push(10);
    proof {
        assert(v@ =~= continue_line());
    }
    v
}

/// The bytes of the serialized `Content-Length` label, separator included.
pub open spec fn content_length_label() -> Seq<u8> {
    seq![67u8, 111, 110, 116, 101, 110, 116, 45, 76, 101, 110, 103, 116, 104, 58, 32]
}

/// Exec builder for `content_length_label`.
pub fn content_length_label_bytes() -> (v: Vec<u8>)
    ensures
        v@ =~= content_length_label(),
{
    let mut v: Vec<u8> = Vec::new();
    v.push(67);
    v.push(111);
    v.push(110);
    v.push(116);
    v.push(101);
    v.push(110);
    v.push(116);
    v.push(45);
    v.push(76);
    v.push(101);
    v.push(110);
    v.push(103);
    v.push(116);
    v.push(104);
    v.push(58);
    v.push(32);
    proof {
        assert(v@ =~= content_length_label());
    }
    v
}

/// The bytes of the client's fixed identification headers: the
/// `User-Agent` and `Accept` lines every emitted request carries.
pub open spec fn agent_lines() -> Seq<u8> {
    seq![85u8, 115, 101, 114, 45, 65, 103, 101, 110, 116, 58, 32, 109, 97, 121, 95, 104, 116, 116, 112, 13, 10, 65, 99, 99, 101, 112, 116, 58, 32, 42, 47, 42, 13, 10]
}

/// Exec builder for `agent_lines`.
pub fn agent_lines_bytes() -> (v: Vec<u8>)
    ensures
        v@ =~= agent_lines(),
{
    let mut v: Vec<u8> = Vec::new();
    v.push(85);
    v.push(115);
    v.push(101);
    v.push(114);
    v.push(45);
    v.push(65);
    v.push(103);
    v.push(101);
    v.push(110);
    v.push(116);
    v.push(58);
    v.push(32);
    v.push(109);
    v.push(97);
    v.push(121);
    v.push(95);
    v.push(104);
    v.push(116);
    v.push(116);
    v.push(112);
    v.push(13);
    v.push(10);
    v.push(65);
    v.push(99);
    v.push(99);
    v.push(101);
    v.push(112);
    v.push(116);
    v.push(58);
    v.push(32);
    v.push(42);
    v.push(47);
    v.push(42);
    v.push(13);
    v.push(10);
    proof {
        assert(v@ =~= agent_lines());
    }
    v
}

/// The bytes of the name/value separator of a serialized header: a colon
/// and one space.
pub open spec fn colon_sp() -> Seq<u8> {
    seq![58u8, 32]
}

/// Exec builder for `colon_sp`.
pub fn colon_sp_bytes() -> (v: Vec<u8>)
    ensures
        v@ =~= colon_sp(),
{
    let mut v: Vec<u8> = Vec::new();
    v.push(58);
    v.push(32);
    proof {
        assert(v@ =~= colon_sp());
    }
    v
}

/// The bytes of the serialized `Date` label, separator included.
pub open spec fn date_label() -> Seq<u8> {
    seq![68u8, 97, 116, 101, 58, 32]
}

/// Exec builder for `date_label`.
pub fn date_label_bytes() -> (v: Vec<u8>)
    ensures
        v@ =~= date_label(),
{
    let mut v: Vec<u8> = Vec::new();
    v.push(68);
    v.push(97);
    v.push(116);
    v.push(101);
    v.push(58);
    v.push(32);
    proof {
        assert(v@ =~= date_label());
    }
    v
}

/// The canonical reason phrase of a status code this library knows, or
/// the empty phrase.
pub open spec fn spec_canonical_reason(status: u16) -> Seq<u8> {
    if status == 100 {
        seq![67u8, 111, 110, 116, 105, 110, 117, 101]
    } else if status == 200 {
        seq![79u8, 75]
    } else if status == 201 {
        seq![67u8, 114, 101, 97, 116, 101, 100]
    } else if status == 204 {
        seq![78u8, 111, 32, 67, 111, 110, 116, 101, 110, 116]
    } else if status == 301 {
        seq![77u8, 111, 118, 101, 100, 32, 80, 101, 114, 109, 97, 110, 101, 110, 116, 108, 121]
    } else if status == 302 {
        seq![70u8, 111, 117, 110, 100]
    } else if status == 304 {
        seq![78u8, 111, 116, 32, 77, 111, 100, 105, 102, 105, 101, 100]
    } else if status == 400 {
        seq![66u8, 97, 100, 32, 82, 101, 113, 117, 101, 115, 116]
    } else if status == 403 {
        seq![70u8, 111, 114, 98, 105, 100, 100, 101, 110]
    } else if status == 404 {
        seq![78u8, 111, 116, 32, 70, 111, 117, 110, 100]
    } else if status == 500 {
        seq![73u8, 110, 116, 101, 114, 110, 97, 108, 32, 83, 101, 114, 118, 101, 114, 32, 69, 114, 114, 111, 114]
    } else if status == 501 {
        seq![78u8, 111, 116, 32, 73, 109, 112, 108, 101, 109, 101, 110, 116, 101, 100]
    } else if status == 503 {
        seq![83u8, 101, 114, 118, 105, 99, 101, 32, 85, 110, 97, 118, 97, 105, 108, 97, 98, 108, 101]
    } else {
        Seq::empty()
    }
}

/// Exec canonical reason phrase.
pub fn canonical_reason(status: u16) -> (v: Vec<u8>)
    ensures
        v@ =~= spec_canonical_reason(status),
{
    let mut v: Vec<u8> = Vec::new();
    if status == 100 {
        v.push(67);
        v.push(111);
        v.push(110);
        v.push(116);
        v.push(105);
        v.push(110);
        v.push(117);
        v.push(101);
    } else if status == 200 {
        v.push(79);
        v.push(75);
    } else if status == 201 {
        v.push(67);
        v.push(114);
        v.push(101);
        v.push(97);
        v.push(116);
        v.push(101);
        v.push(100);
    } else if status == 204 {
        v.push(78);
        v.push(111);
        v.push(32);
        v.push(67);
        v.push(111);
        v.push(110);
        v.push(116);
        v.push(101);
        v.push(110);
        v.push(116);
    } else if status == 301 {
        v.push(77);
        v.push(111);
        v.push(118);
        v.push(101);
        v.push(100);
        v.push(32);
        v.push(80);
        v.push(101);
        v.push(114);
        v.push(109);
        v.push(97);
        v.push(110);
        v.push(101);
        v.push(110);
        v.push(116);
        v.push(108);
        v.push(121);
    } else if status == 302 {
        v.push(70);
        v.push(111);
        v.push(117);
        v.push(110);
        v.push(100);
    } else if status == 304 {
        v.push(78);
        v.push(111);
        v.push(116);
        v.push(32);
        v.push(77);
        v.push(111);
        v.push(100);
        v.push(105);
        v.push(102);
        v.push(105);
        v.push(101);
        v.push(100);
    } else if status == 400 {
        v.push(66);
        v.push(97);
        v.push(100);
        v.push(32);
        v.push(82);
        v.push(101);
        v.push(113);
        v.push(117);
        v.push(101);
        v.push(115);
        v.push(116);
    } else if status == 403 {
        v.push(70);
        v.push(111);
        v.push(114);
        v.push(98);
        v.push(105);
        v.push(100);
        v.push(100);
        v.push(101);
        v.push(110);
    } else if status == 404 {
        v.push(78);
        v.push(111);
        v.push(116);
        v.push(32);
        v.push(70);
        v.push(111);
        v.push(117);
        v.push(110);
        v.push(100);
    } else if status == 500 {
        v.push(73);
        v.push(110);
        v.push(116);
        v.push(101);
        v.push(114);
        v.push(110);
        v.push(97);
        v.push(108);
        v.push(32);
        v.push(83);
        v.push(101);
        v.push(114);
        v.push(118);
        v.push(101);
        v.push(114);
        v.push(32);
        v.push(69);
        v.push(114);
        v.push(114);
        v.push(111);
        v.push(114);
    } else if status == 501 {
        v.push(78);
        v.push(111);
        v.push(116);
        v.push(32);
        v.push(73);
        v.push(109);
        v.push(112);
        v.push(108);
        v.push(101);
        v.push(109);
        v.push(101);
        v.push(110);
        v.push(116);
        v.push(101);
        v.push(100);
    } else if status == 503 {
        v.push(83);
        v.push(101);
        v.push(114);
        v.push(118);
        v.push(105);
        v.push(99);
        v.push(101);
        v.push(32);
        v.push(85);
        v.push(110);
        v.push(97);
        v.push(118);
        v.push(97);
        v.push(105);
        v.push(108);
        v.push(97);
        v.push(98);
        v.push(108);
        v.push(101);
    }
    proof {
        assert(v@ =~= spec_canonical_reason(status));
    }
    v
}

} // verus!