use may_http::decode::{decode, decode_response};
use may_http::error::HttpError;
use may_http::head::{Header, Version};
use may_http::num::{parse_dec, to_dec, to_hex};
use may_http::policy::{request_body_policy, response_body_policy, response_write_policy, BodyPolicy};
use may_http::server::{expect_action, should_keep_alive, ExpectAction};

fn header(name: &[u8], value: &[u8]) -> Header {
    Header { name: name.to_vec(), value: value.to_vec() }
}

#[test]
fn decode_simple_get() {
    let input = b"GET / HTTP/1.1\r\nHost: x\r\n\r\n";
    let (head, used) = decode(input).unwrap().unwrap();
    assert_eq!(used, 27);
    assert_eq!(used, input.len());
    assert_eq!(head.method.as_slice(), b"GET");
    assert_eq!(head.target.as_slice(), b"/");
    assert!(matches!(head.version, Version::Http11));
    assert_eq!(head.headers.len(), 1);
    assert_eq!(head.headers[0].name.as_slice(), b"Host");
    assert_eq!(head.headers[0].value.as_slice(), b"x");
}

#[test]
fn decode_fragmented_head_agrees_with_one_shot() {
    // feeding a valid head in arbitrary prefixes yields "need more data"
    // until the head is complete, then the same head and count
    let input = b"POST /p HTTP/1.0\r\nA: 1\r\nB: two\r\n\r\n";
    for cut in 0..input.len() {
        let r = decode(&input[..cut]).unwrap();
        assert!(r.is_none());
    }
    let (head, used) = decode(input).unwrap().unwrap();
    assert_eq!(used, input.len());
    assert_eq!(head.method.as_slice(), b"POST");
    assert!(matches!(head.version, Version::Http10));
    assert_eq!(head.headers.len(), 2);
    // bytes after the head change nothing
    let mut extended = input.to_vec();
    extended.extend_from_slice(b"trailing body bytes");
    let (head2, used2) = decode(&extended).unwrap().unwrap();
    assert_eq!(used2, used);
    assert_eq!(head2.method.as_slice(), head.method.as_slice());
    assert_eq!(head2.headers.len(), head.headers.len());
}

#[test]
fn decode_rejects_unknown_version() {
    let e = decode(b"GET / HTTP/2.0\r\n\r\n").unwrap_err();
    assert!(matches!(e, HttpError::Parse));
}

#[test]
fn decode_rejects_garbled_request_line() {
    let e = decode(b"NOSPACES\r\nHost: x\r\n\r\n").unwrap_err();
    assert!(matches!(e, HttpError::Parse));
}

#[test]
fn decode_rejects_space_in_header_name() {
    let e = decode(b"GET / HTTP/1.1\r\nBad Name: x\r\n\r\n").unwrap_err();
    assert!(matches!(e, HttpError::Parse));
}

#[test]
fn decode_skips_leading_value_whitespace() {
    let input = b"GET / HTTP/1.1\r\nHost:   \t spaced\r\n\r\n";
    let (head, _) = decode(input).unwrap().unwrap();
    assert_eq!(head.headers[0].value.as_slice(), b"spaced");
}

#[test]
fn decode_response_status_line() {
    let input = b"HTTP/1.1 200 OK\r\nContent-Length: 5\r\n\r\n";
    let (head, used) = decode_response(input).unwrap().unwrap();
    assert_eq!(used, input.len());
    assert_eq!(head.status, 200);
    assert_eq!(head.reason.as_slice(), b"OK");
    assert!(matches!(head.version, Version::Http11));
}

#[test]
fn decode_response_empty_reason() {
    let input = b"HTTP/1.0 404\r\n\r\n";
    let (head, _) = decode_response(input).unwrap().unwrap();
    assert_eq!(head.status, 404);
    assert_eq!(head.reason.as_slice(), b"");
    assert!(matches!(head.version, Version::Http10));
}

#[test]
fn keep_alive_table() {
    let none: Vec<Header> = Vec::new();
    let ka = vec![header(b"connection", b"keep-alive")];
    let close = vec![header(b"connection", b"close")];
    assert_eq!(should_keep_alive(Version::Http10, &ka), true);
    assert_eq!(should_keep_alive(Version::Http10, &none), false);
    assert_eq!(should_keep_alive(Version::Http10, &close), false);
    assert_eq!(should_keep_alive(Version::Http11, &close), false);
    assert_eq!(should_keep_alive(Version::Http11, &none), true);
    assert_eq!(should_keep_alive(Version::Http11, &ka), true);
}

#[test]
fn keep_alive_header_name_is_case_insensitive() {
    let ka = vec![header(b"Connection", b"keep-alive")];
    assert_eq!(should_keep_alive(Version::Http10, &ka), true);
    // but the value is compared byte for byte
    let ka_caps = vec![header(b"connection", b"Keep-Alive")];
    assert_eq!(should_keep_alive(Version::Http10, &ka_caps), false);
}

#[test]
fn request_policy_get_head_have_no_body() {
    let mk = |method: &[u8]| may_http::head::RequestHead {
        method: method.to_vec(),
        target: b"/".to_vec(),
        version: Version::Http11,
        headers: vec![header(b"content-length", b"9")],
    };
    assert!(matches!(request_body_policy(&mk(b"GET")).unwrap(), BodyPolicy::NoBody));
    assert!(matches!(request_body_policy(&mk(b"HEAD")).unwrap(), BodyPolicy::NoBody));
    match request_body_policy(&mk(b"POST")).unwrap() {
        BodyPolicy::SizedBody(n) => assert_eq!(n, 9),
        _ => panic!("expected a sized policy"),
    }
}

#[test]
fn request_policy_without_length_is_chunked() {
    let head = may_http::head::RequestHead {
        method: b"POST".to_vec(),
        target: b"/".to_vec(),
        version: Version::Http11,
        headers: Vec::new(),
    };
    assert!(matches!(request_body_policy(&head).unwrap(), BodyPolicy::ChunkedBody));
}

#[test]
fn request_policy_rejects_bad_content_length() {
    let head = may_http::head::RequestHead {
        method: b"POST".to_vec(),
        target: b"/".to_vec(),
        version: Version::Http11,
        headers: vec![header(b"content-length", b"12x")],
    };
    assert!(matches!(request_body_policy(&head).unwrap_err(), HttpError::Parse));
}

#[test]
fn response_write_policy_204_is_empty_despite_length() {
    assert!(matches!(response_write_policy(204, Some(10)), BodyPolicy::NoBody));
    assert!(matches!(response_write_policy(304, Some(3)), BodyPolicy::NoBody));
    assert!(matches!(response_write_policy(100, None), BodyPolicy::NoBody));
    assert!(matches!(response_write_policy(200, Some(10)), BodyPolicy::SizedBody(10)));
    assert!(matches!(response_write_policy(200, None), BodyPolicy::ChunkedBody));
}

#[test]
fn response_read_policy_follows_content_length() {
    let with = vec![header(b"Content-Length", b"7")];
    match response_body_policy(200, &with).unwrap() {
        BodyPolicy::SizedBody(n) => assert_eq!(n, 7),
        _ => panic!("expected a sized policy"),
    }
    let without: Vec<Header> = Vec::new();
    assert!(matches!(response_body_policy(200, &without).unwrap(), BodyPolicy::ChunkedBody));
}

#[test]
fn response_read_policy_204_is_empty_despite_length() {
    // a 204, 304 or informational response never carries a body, even when
    // a Content-Length header is present
    let with = vec![header(b"Content-Length", b"7")];
    assert!(matches!(response_body_policy(204, &with).unwrap(), BodyPolicy::NoBody));
    assert!(matches!(response_body_policy(304, &with).unwrap(), BodyPolicy::NoBody));
    assert!(matches!(response_body_policy(100, &with).unwrap(), BodyPolicy::NoBody));
    let without: Vec<Header> = Vec::new();
    assert!(matches!(response_body_policy(204, &without).unwrap(), BodyPolicy::NoBody));
}

#[test]
fn expect_rules() {
    let mk = |version: Version, headers: Vec<Header>| may_http::head::RequestHead {
        method: b"POST".to_vec(),
        target: b"/".to_vec(),
        version,
        headers,
    };
    let plain = mk(Version::Http11, Vec::new());
    assert!(matches!(expect_action(&plain), ExpectAction::Proceed));
    let cont = mk(Version::Http11, vec![header(b"expect", b"100-continue")]);
    assert!(matches!(expect_action(&cont), ExpectAction::SendContinue));
    let old = mk(Version::Http10, vec![header(b"expect", b"100-continue")]);
    assert!(matches!(expect_action(&old), ExpectAction::Refuse));
    let other = mk(Version::Http11, vec![header(b"Expect", b"something-else")]);
    assert!(matches!(expect_action(&other), ExpectAction::Refuse));
}

#[test]
fn numbers_render_and_parse() {
    assert_eq!(to_hex(0).as_slice(), b"0");
    assert_eq!(to_hex(26).as_slice(), b"1A");
    assert_eq!(to_hex(255).as_slice(), b"FF");
    assert_eq!(to_dec(0).as_slice(), b"0");
    assert_eq!(to_dec(204).as_slice(), b"204");
    assert_eq!(parse_dec(b"12345").unwrap(), 12345);
    assert!(matches!(parse_dec(b"").unwrap_err(), HttpError::Parse));
    assert!(matches!(parse_dec(b"12x").unwrap_err(), HttpError::Parse));
    assert!(matches!(
        parse_dec(b"99999999999999999999999999999").unwrap_err(),
        HttpError::Parse
    ));
}

#[test]
fn error_messages_are_stable() {
    assert_eq!(HttpError::Parse.message(), "malformed head or chunk syntax");
    assert_eq!(HttpError::PrematureEof.message(), "early eof");
    assert_eq!(HttpError::Transport.message(), "transport error");
    assert_eq!(
        HttpError::InvalidMethod { name: b"FOO".to_vec() }.message(),
        "invalid method name"
    );
}
