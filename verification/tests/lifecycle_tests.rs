use std::cell::RefCell;
use std::rc::Rc;

use may_http::body_reader::BodyReader;
use may_http::body_writer::BodyWriter;
use may_http::buffer::BufferIo;
use may_http::client;
use may_http::error::HttpError;
use may_http::server::{serve_connection, HttpServer, HttpService, Request, Response};
use may_http::transport::{MutIo, Transport};

/// Serves scripted input and records everything written, in shared storage
/// the test keeps after the connection is done with the transport.
struct SharedIo {
    input: Vec<u8>,
    pos: usize,
    out: Rc<RefCell<Vec<u8>>>,
}

impl SharedIo {
    fn new(input: &[u8], out: &Rc<RefCell<Vec<u8>>>) -> SharedIo {
        SharedIo { input: input.to_vec(), pos: 0, out: Rc::clone(out) }
    }
}

impl Transport for SharedIo {
    fn read_some(&mut self, max: usize) -> Result<Vec<u8>, HttpError> {
        let left = self.input.len() - self.pos;
        let n = if max < left { max } else { left };
        let v = self.input[self.pos..self.pos + n].to_vec();
        self.pos += n;
        Ok(v)
    }

    fn write_some(&mut self, data: &[u8]) -> Result<usize, HttpError> {
        self.out.borrow_mut().extend_from_slice(data);
        Ok(data.len())
    }
}

/// Fails every transport call.
struct Broken;

impl Transport for Broken {
    fn read_some(&mut self, _max: usize) -> Result<Vec<u8>, HttpError> {
        Err(HttpError::Transport)
    }

    fn write_some(&mut self, _data: &[u8]) -> Result<usize, HttpError> {
        Err(HttpError::Transport)
    }
}

/// Replies `hi` to every request without touching the body.
struct HiService;

impl HttpService<SharedIo> for HiService {
    fn handle(&self, _req: &mut Request<SharedIo>, rsp: &mut Response) {
        rsp.send(b"hi").unwrap();
    }
}

/// Echoes the request body back with a declared length.
struct EchoService;

impl HttpService<SharedIo> for EchoService {
    fn handle(&self, req: &mut Request<SharedIo>, rsp: &mut Response) {
        let mut got: Vec<u8> = Vec::new();
        loop {
            let v = req.body.read(16).unwrap();
            if v.is_empty() {
                break;
            }
            got.extend_from_slice(&v);
        }
        rsp.send(&got).unwrap();
    }
}

/// Streams a body with no declared length, so the response goes chunked.
struct StreamService;

impl HttpService<SharedIo> for StreamService {
    fn handle(&self, _req: &mut Request<SharedIo>, rsp: &mut Response) {
        rsp.write(b"xyz");
    }
}

fn run_dated(
    service: impl HttpService<SharedIo>,
    name: &[u8],
    date: &[u8],
    input: &[u8],
) -> (Result<BufferIo<SharedIo>, HttpError>, Vec<u8>) {
    let out = Rc::new(RefCell::new(Vec::new()));
    let chan = BufferIo::new(SharedIo::new(input, &out));
    let r = serve_connection(&service, &name.to_vec(), &date.to_vec(), chan);
    let bytes = out.borrow().clone();
    (r, bytes)
}

fn run(
    service: impl HttpService<SharedIo>,
    name: &[u8],
    input: &[u8],
) -> (Result<BufferIo<SharedIo>, HttpError>, Vec<u8>) {
    run_dated(service, name, b"", input)
}

#[test]
fn serves_one_request_then_closes_on_connection_close() {
    let (r, out) = run(HiService, b"", b"GET / HTTP/1.1\r\nConnection: close\r\n\r\n");
    assert!(r.is_ok());
    assert_eq!(
        out.as_slice(),
        &b"HTTP/1.1 200 OK\r\nContent-Length: 2\r\nconnection: close\r\n\r\nhi"[..]
    );
}

#[test]
fn serves_two_keep_alive_requests() {
    let (r, out) = run(
        HiService,
        b"",
        b"GET / HTTP/1.1\r\nHost: a\r\n\r\nGET / HTTP/1.1\r\nHost: b\r\n\r\n",
    );
    assert!(r.is_ok());
    let one = b"HTTP/1.1 200 OK\r\nContent-Length: 2\r\n\r\nhi";
    let mut both = one.to_vec();
    both.extend_from_slice(one);
    assert_eq!(out, both);
}

#[test]
fn http10_without_keep_alive_closes_after_one_request() {
    // two pipelined 1.0 requests; only the first is answered
    let (r, out) = run(
        HiService,
        b"",
        b"GET / HTTP/1.0\r\n\r\nGET / HTTP/1.0\r\n\r\n",
    );
    assert!(r.is_ok());
    assert_eq!(
        out.as_slice(),
        &b"HTTP/1.1 200 OK\r\nContent-Length: 2\r\nconnection: close\r\n\r\nhi"[..]
    );
}

/// Replies `hi` and opts into keep-alive explicitly, as an HTTP/1.0
/// response must to keep the connection open.
struct KeepAliveHi;

impl HttpService<SharedIo> for KeepAliveHi {
    fn handle(&self, _req: &mut Request<SharedIo>, rsp: &mut Response) {
        rsp.append_header(b"connection".to_vec(), b"keep-alive".to_vec());
        rsp.send(b"hi").unwrap();
    }
}

#[test]
fn http10_with_keep_alive_header_stays_open() {
    // keep-alive is re-evaluated on the response: an HTTP/1.0 exchange
    // stays open only when both sides ask for it
    let (r, out) = run(
        KeepAliveHi,
        b"",
        b"GET / HTTP/1.0\r\nConnection: keep-alive\r\n\r\nGET / HTTP/1.0\r\nConnection: keep-alive\r\n\r\n",
    );
    assert!(r.is_ok());
    let one = b"HTTP/1.1 200 OK\r\nContent-Length: 2\r\nconnection: keep-alive\r\n\r\nhi";
    let mut both = one.to_vec();
    both.extend_from_slice(one);
    assert_eq!(out, both);
}

#[test]
fn expect_continue_gets_interim_response() {
    let (r, out) = run(
        EchoService,
        b"",
        b"POST / HTTP/1.1\r\nContent-Length: 3\r\nExpect: 100-continue\r\nConnection: close\r\n\r\nabc",
    );
    assert!(r.is_ok());
    assert_eq!(
        out.as_slice(),
        &b"HTTP/1.1 100 Continue\r\n\r\nHTTP/1.1 200 OK\r\nContent-Length: 3\r\nconnection: close\r\n\r\nabc"[..]
    );
}

#[test]
fn unknown_expectation_closes_without_response() {
    let (r, out) = run(HiService, b"", b"GET / HTTP/1.1\r\nExpect: nope\r\n\r\n");
    assert!(r.is_ok());
    assert_eq!(out.as_slice(), b"");
}

#[test]
fn chunked_request_body_is_read_and_echoed() {
    let (r, out) = run(
        EchoService,
        b"",
        b"POST / HTTP/1.1\r\nConnection: close\r\n\r\n3\r\nabc\r\n0\r\n\r\n",
    );
    assert!(r.is_ok());
    assert_eq!(
        out.as_slice(),
        &b"HTTP/1.1 200 OK\r\nContent-Length: 3\r\nconnection: close\r\n\r\nabc"[..]
    );
}

#[test]
fn undrained_request_body_is_discarded_before_next_head() {
    let (r, out) = run(
        HiService,
        b"",
        b"POST / HTTP/1.1\r\nContent-Length: 5\r\n\r\nhelloGET / HTTP/1.1\r\nHost: x\r\n\r\n",
    );
    assert!(r.is_ok());
    let one = b"HTTP/1.1 200 OK\r\nContent-Length: 2\r\n\r\nhi";
    let mut both = one.to_vec();
    both.extend_from_slice(one);
    assert_eq!(out, both);
}

#[test]
fn server_name_is_announced() {
    let (r, out) = run(HiService, b"demo", b"GET / HTTP/1.1\r\nConnection: close\r\n\r\n");
    assert!(r.is_ok());
    assert_eq!(
        out.as_slice(),
        &b"HTTP/1.1 200 OK\r\nContent-Length: 2\r\nconnection: close\r\nserver: demo\r\n\r\nhi"[..]
    );
}

#[test]
fn undeclared_response_body_goes_chunked() {
    let (r, out) = run(StreamService, b"", b"GET / HTTP/1.1\r\nConnection: close\r\n\r\n");
    assert!(r.is_ok());
    assert_eq!(
        out.as_slice(),
        &b"HTTP/1.1 200 OK\r\nconnection: close\r\ntransfer-encoding: chunked\r\n\r\n3\r\nxyz\r\n0\r\n\r\n"[..]
    );
}

#[test]
fn malformed_head_is_a_parse_error() {
    let (r, _) = run(HiService, b"", b"NOT HTTP AT ALL\r\n\r\n");
    match r {
        Ok(_) => panic!("a malformed head must close the connection with an error"),
        Err(e) => assert!(matches!(e, HttpError::Parse)),
    }
}

#[test]
fn date_is_announced_when_supplied() {
    let (r, out) = run_dated(
        HiService,
        b"",
        b"Sun, 06 Nov 1994 08:37:26 GMT",
        b"GET / HTTP/1.1\r\nConnection: close\r\n\r\n",
    );
    assert!(r.is_ok());
    assert_eq!(
        out.as_slice(),
        &b"HTTP/1.1 200 OK\r\nDate: Sun, 06 Nov 1994 08:37:26 GMT\r\nContent-Length: 2\r\nconnection: close\r\n\r\nhi"[..]
    );
}

#[test]
fn server_configuration_defaults_and_setters() {
    let mut srv = HttpServer::new(HiService);
    assert_eq!(srv.server_name().len(), 0);
    assert!(srv.read_timeout().is_none());
    assert!(srv.write_timeout().is_none());
    srv.set_server_name(b"demo".to_vec());
    srv.set_read_timeout(Some(5000));
    srv.set_write_timeout(Some(7000));
    srv.set_keep_alive_timeout(Some(9000));
    assert_eq!(srv.server_name().as_slice(), b"demo");
    assert_eq!(srv.read_timeout(), Some(5000));
    assert_eq!(srv.write_timeout(), Some(7000));
    assert_eq!(srv.keep_alive_timeout(), Some(9000));
    let _svc = srv.service();
}

#[test]
fn client_get_request_bytes() {
    let out = Rc::new(RefCell::new(Vec::new()));
    let chan = BufferIo::new(SharedIo::new(b"", &out));
    let req = client::Request::new();
    client::write_request(chan, &req).unwrap();
    assert_eq!(
        out.borrow().as_slice(),
        &b"GET / HTTP/1.1\r\nUser-Agent: may_http\r\nAccept: */*\r\n\r\n"[..]
    );
}

#[test]
fn client_post_with_declared_length() {
    let out = Rc::new(RefCell::new(Vec::new()));
    let chan = BufferIo::new(SharedIo::new(b"", &out));
    let mut req = client::Request::new();
    req.method = b"POST".to_vec();
    req.send(b"abc").unwrap();
    client::write_request(chan, &req).unwrap();
    assert_eq!(
        out.borrow().as_slice(),
        &b"POST / HTTP/1.1\r\nUser-Agent: may_http\r\nAccept: */*\r\nContent-Length: 3\r\n\r\nabc"[..]
    );
}

#[test]
fn client_post_without_length_goes_chunked() {
    let out = Rc::new(RefCell::new(Vec::new()));
    let chan = BufferIo::new(SharedIo::new(b"", &out));
    let mut req = client::Request::new();
    req.method = b"POST".to_vec();
    req.write(b"xyz");
    client::write_request(chan, &req).unwrap();
    assert_eq!(
        out.borrow().as_slice(),
        &b"POST / HTTP/1.1\r\nUser-Agent: may_http\r\nAccept: */*\r\ntransfer-encoding: chunked\r\n\r\n3\r\nxyz\r\n0\r\n\r\n"[..]
    );
}

#[test]
fn client_rejects_unknown_method() {
    let out = Rc::new(RefCell::new(Vec::new()));
    let chan = BufferIo::new(SharedIo::new(b"", &out));
    let mut req = client::Request::new();
    req.method = b"BREW".to_vec();
    match client::write_request(chan, &req) {
        Ok(_) => panic!("an unknown method must be refused"),
        Err(HttpError::InvalidMethod { name }) => assert_eq!(name.as_slice(), b"BREW"),
        Err(_) => panic!("expected an invalid-method error"),
    }
}

#[test]
fn client_reads_sized_response() {
    let out = Rc::new(RefCell::new(Vec::new()));
    let chan = BufferIo::new(SharedIo::new(
        b"HTTP/1.1 200 OK\r\nContent-Length: 5\r\n\r\nhello",
        &out,
    ));
    let (head, mut body) = client::read_response(chan).unwrap();
    assert_eq!(head.status, 200);
    assert_eq!(head.reason.as_slice(), b"OK");
    let v = body.read(16).unwrap();
    assert_eq!(v.as_slice(), b"hello");
    let v = body.read(16).unwrap();
    assert_eq!(v.as_slice(), b"");
}

#[test]
fn client_reads_chunked_response() {
    let out = Rc::new(RefCell::new(Vec::new()));
    let chan = BufferIo::new(SharedIo::new(
        b"HTTP/1.1 200 OK\r\n\r\n5\r\nhello\r\n0\r\n\r\n",
        &out,
    ));
    let (head, mut body) = client::read_response(chan).unwrap();
    assert_eq!(head.status, 200);
    let v = body.read(16).unwrap();
    assert_eq!(v.as_slice(), b"hello");
    let v = body.read(16).unwrap();
    assert_eq!(v.as_slice(), b"");
}

#[test]
fn client_204_attaches_empty_body_despite_length() {
    // a 204 response never carries a body, even with a Content-Length
    let out = Rc::new(RefCell::new(Vec::new()));
    let chan = BufferIo::new(SharedIo::new(
        b"HTTP/1.1 204 No Content\r\nContent-Length: 5\r\n\r\n",
        &out,
    ));
    let (head, mut body) = client::read_response(chan).unwrap();
    assert_eq!(head.status, 204);
    assert_eq!(body.name(), "EmptyReader");
    let v = body.read(16).unwrap();
    assert_eq!(v.as_slice(), b"");
}

#[test]
fn client_eof_before_head_is_premature() {
    let out = Rc::new(RefCell::new(Vec::new()));
    let chan = BufferIo::new(SharedIo::new(b"HTTP/1.1 20", &out));
    let e = client::read_response(chan).err().unwrap();
    assert!(matches!(e, HttpError::PrematureEof));
}

#[test]
fn client_get_roundtrip() {
    let out = Rc::new(RefCell::new(Vec::new()));
    let io = SharedIo::new(b"HTTP/1.1 200 OK\r\nContent-Length: 5\r\n\r\nhello", &out);
    let cli = client::HttpClient::new(io);
    let mut rsp = cli.get(b"/here".to_vec()).unwrap();
    assert_eq!(rsp.head.status, 200);
    let v = rsp.body.read(64).unwrap();
    assert_eq!(v.as_slice(), b"hello");
    assert_eq!(
        out.borrow().as_slice(),
        &b"GET /here HTTP/1.1\r\nUser-Agent: may_http\r\nAccept: */*\r\n\r\n"[..]
    );
}

#[test]
fn client_post_roundtrip() {
    let out = Rc::new(RefCell::new(Vec::new()));
    let io = SharedIo::new(b"HTTP/1.1 204 No Content\r\nContent-Length: 0\r\n\r\n", &out);
    let cli = client::HttpClient::new(io);
    let rsp = cli.post(b"/submit".to_vec(), b"abc").unwrap();
    assert_eq!(rsp.head.status, 204);
    assert_eq!(
        out.borrow().as_slice(),
        &b"POST /submit HTTP/1.1\r\nUser-Agent: may_http\r\nAccept: */*\r\nContent-Length: 3\r\n\r\nabc"[..]
    );
}

#[test]
fn client_send_request_rejects_unknown_method() {
    let out = Rc::new(RefCell::new(Vec::new()));
    let io = SharedIo::new(b"", &out);
    let cli = client::HttpClient::new(io);
    let req = client::new_request(b"BREW".to_vec(), b"/pot".to_vec());
    match cli.send_request(&req) {
        Ok(_) => panic!("an unknown method must be refused"),
        Err(HttpError::InvalidMethod { name }) => assert_eq!(name.as_slice(), b"BREW"),
        Err(_) => panic!("expected an invalid-method error"),
    }
}

#[test]
fn body_variant_names() {
    let out = Rc::new(RefCell::new(Vec::new()));
    let r = BodyReader::SizedReader(BufferIo::new(SharedIo::new(b"", &out)), 3);
    assert_eq!(r.name(), "SizedReader");
    let w: BodyWriter<SharedIo> = BodyWriter::InvalidWriter;
    assert_eq!(w.name(), "InvalidWriter");
}

#[test]
fn transport_failure_surfaces_as_error() {
    let mut chan = BufferIo::new(Broken);
    chan.write_all(b"data").unwrap();
    let e = chan.flush().unwrap_err();
    assert!(matches!(e, HttpError::Transport));
}

#[test]
fn mut_io_passes_calls_through() {
    let out = Rc::new(RefCell::new(Vec::new()));
    let io = SharedIo::new(b"payload", &out);
    let mut wrapped = MutIo::new(io);
    let v = wrapped.read_some(3).unwrap();
    assert_eq!(v.as_slice(), b"pay");
    wrapped.write_some(b"back").unwrap();
    let inner = wrapped.into_inner();
    assert_eq!(inner.input.len(), 7);
    assert_eq!(out.borrow().as_slice(), b"back");
}
