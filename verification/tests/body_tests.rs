use may_http::body_reader::{eat, read_chunk_size, BodyReader};
use may_http::body_writer::BodyWriter;
use may_http::buffer::BufferIo;
use may_http::error::HttpError;
use may_http::transport::Transport;

/// Serves a fixed byte string, as much as asked per read.
struct Script {
    input: Vec<u8>,
    pos: usize,
    out: Vec<u8>,
}

impl Script {
    fn new(input: &[u8]) -> Script {
        Script { input: input.to_vec(), pos: 0, out: Vec::new() }
    }
}

impl Transport for Script {
    fn read_some(&mut self, max: usize) -> Result<Vec<u8>, HttpError> {
        let left = self.input.len() - self.pos;
        let n = if max < left { max } else { left };
        let out = self.input[self.pos..self.pos + n].to_vec();
        self.pos += n;
        Ok(out)
    }

    fn write_some(&mut self, data: &[u8]) -> Result<usize, HttpError> {
        self.out.extend_from_slice(data);
        Ok(data.len())
    }
}

/// Fails the test if the reader ever touches the transport.
struct PanicIo;

impl Transport for PanicIo {
    fn read_some(&mut self, _max: usize) -> Result<Vec<u8>, HttpError> {
        panic!("transport touched after terminal state");
    }

    fn write_some(&mut self, _data: &[u8]) -> Result<usize, HttpError> {
        panic!("transport touched after terminal state");
    }
}

fn chan(input: &[u8]) -> BufferIo<Script> {
    BufferIo::new(Script::new(input))
}

#[test]
fn chunked_stream_yields_wiki_then_eof() {
    let mut r = BodyReader::ChunkReader(chan(b"4\r\nWiki\r\n0\r\n\r\n"), None);
    let v = r.read(1024).unwrap();
    assert_eq!(v.as_slice(), b"Wiki");
    let v = r.read(1024).unwrap();
    assert_eq!(v.as_slice(), b"");
    let v = r.read(1024).unwrap();
    assert_eq!(v.as_slice(), b"");
}

#[test]
fn chunk_writer_emits_exact_framing() {
    let mut w = BodyWriter::ChunkWriter(BufferIo::new(Script::new(b"")));
    assert_eq!(w.write(b"foo").unwrap(), 3);
    assert_eq!(w.write(b"bar").unwrap(), 3);
    let c = w.finish().unwrap();
    let io = c.into_inner();
    assert_eq!(io.out.as_slice(), b"3\r\nfoo\r\n3\r\nbar\r\n0\r\n\r\n");
}

#[test]
fn chunked_round_trip() {
    // encode a payload as one chunk plus the terminal framing
    let payload = b"any payload at all \x00\xff";
    let mut w = BodyWriter::ChunkWriter(BufferIo::new(Script::new(b"")));
    w.write(payload).unwrap();
    let wire = w.finish().unwrap().into_inner().out;
    // decode it back
    let mut r = BodyReader::ChunkReader(chan(&wire), None);
    let mut got: Vec<u8> = Vec::new();
    loop {
        let v = r.read(7).unwrap();
        if v.is_empty() {
            break;
        }
        got.extend_from_slice(&v);
    }
    assert_eq!(got.as_slice(), payload);
}

#[test]
fn sized_round_trip() {
    let payload = b"hello sized world";
    let mut w = BodyWriter::SizedWriter(BufferIo::new(Script::new(b"")), payload.len());
    let mut done = 0;
    while done < payload.len() {
        done += w.write(&payload[done..]).unwrap();
    }
    let wire = w.finish().unwrap().into_inner().out;
    assert_eq!(wire.as_slice(), payload);
    let mut r = BodyReader::SizedReader(chan(&wire), payload.len());
    let mut got: Vec<u8> = Vec::new();
    loop {
        let v = r.read(5).unwrap();
        if v.is_empty() {
            break;
        }
        got.extend_from_slice(&v);
    }
    assert_eq!(got.as_slice(), payload);
}

#[test]
fn sized_reader_eof_without_transport_io() {
    let mut r = BodyReader::SizedReader(BufferIo::new(PanicIo), 0);
    let v = r.read(100).unwrap();
    assert_eq!(v.as_slice(), b"");
    let v = r.read(100).unwrap();
    assert_eq!(v.as_slice(), b"");
}

#[test]
fn chunked_reader_eof_without_transport_io() {
    let mut r = BodyReader::ChunkReader(BufferIo::new(PanicIo), Some(0));
    let v = r.read(100).unwrap();
    assert_eq!(v.as_slice(), b"");
}

#[test]
fn empty_reader_reads_nothing() {
    let mut r = BodyReader::EmptyReader(BufferIo::new(PanicIo));
    let v = r.read(100).unwrap();
    assert_eq!(v.as_slice(), b"");
}

#[test]
fn sized_reader_early_eof_is_fatal() {
    let mut r = BodyReader::SizedReader(chan(b"abc"), 5);
    let v = r.read(1024).unwrap();
    assert_eq!(v.as_slice(), b"abc");
    let e = r.read(1024).unwrap_err();
    assert!(matches!(e, HttpError::PrematureEof));
}

#[test]
fn chunked_reader_early_eof_is_fatal() {
    let mut r = BodyReader::ChunkReader(chan(b"4\r\nWi"), None);
    let v = r.read(1024).unwrap();
    assert_eq!(v.as_slice(), b"Wi");
    let e = r.read(1024).unwrap_err();
    assert!(matches!(e, HttpError::PrematureEof));
}

#[test]
fn chunked_reader_partial_reads_cross_boundaries() {
    let mut r = BodyReader::ChunkReader(chan(b"3\r\nabc\r\n3\r\ndef\r\n0\r\n\r\n"), None);
    let v = r.read(2).unwrap();
    assert_eq!(v.as_slice(), b"ab");
    let v = r.read(2).unwrap();
    assert_eq!(v.as_slice(), b"c");
    let v = r.read(10).unwrap();
    assert_eq!(v.as_slice(), b"def");
    let v = r.read(10).unwrap();
    assert_eq!(v.as_slice(), b"");
}

#[test]
fn read_chunk_size_plain() {
    let mut c = chan(b"1A\r\n");
    assert_eq!(read_chunk_size(&mut c).unwrap(), 26);
}

#[test]
fn read_chunk_size_lowercase_and_extension() {
    let mut c = chan(b"ff;name=value\r\n");
    assert_eq!(read_chunk_size(&mut c).unwrap(), 255);
}

#[test]
fn read_chunk_size_whitespace_after_digits() {
    let mut c = chan(b"4 \t\r\n");
    assert_eq!(read_chunk_size(&mut c).unwrap(), 4);
}

#[test]
fn read_chunk_size_rejects_stray_byte() {
    let mut c = chan(b"4x\r\n");
    assert!(matches!(read_chunk_size(&mut c).unwrap_err(), HttpError::Parse));
}

#[test]
fn read_chunk_size_rejects_empty_digits() {
    let mut c = chan(b"\r\n");
    assert!(matches!(read_chunk_size(&mut c).unwrap_err(), HttpError::Parse));
}

#[test]
fn read_chunk_size_rejects_digit_after_whitespace() {
    let mut c = chan(b"4 4\r\n");
    assert!(matches!(read_chunk_size(&mut c).unwrap_err(), HttpError::Parse));
}

#[test]
fn eat_consumes_exact_bytes() {
    let mut c = chan(b"\r\nrest");
    eat(&mut c, b"\r\n").unwrap();
    let v = c.read(10).unwrap();
    assert_eq!(v.as_slice(), b"rest");
}

#[test]
fn eat_rejects_mismatch() {
    let mut c = chan(b"\rX");
    assert!(matches!(eat(&mut c, b"\r\n").unwrap_err(), HttpError::Parse));
}

#[test]
fn eat_reports_eof() {
    let mut c = chan(b"\r");
    assert!(matches!(eat(&mut c, b"\r\n").unwrap_err(), HttpError::PrematureEof));
}

#[test]
fn finish_drains_unread_sized_body() {
    let c = chan(b"0123456789tail");
    // consume nothing; the reader owes 10 bytes
    let r = BodyReader::SizedReader(c, 10);
    let mut c = r.finish().unwrap();
    let v = c.read(10).unwrap();
    assert_eq!(v.as_slice(), b"tail");
}

#[test]
fn finish_drains_unread_chunked_body() {
    let r = BodyReader::ChunkReader(chan(b"4\r\nWiki\r\n0\r\n\r\ntail"), None);
    let mut c = r.finish().unwrap();
    let v = c.read(10).unwrap();
    assert_eq!(v.as_slice(), b"tail");
}

#[test]
fn finish_fails_on_truncated_body() {
    let r = BodyReader::SizedReader(chan(b"abc"), 5);
    match r.finish() {
        Ok(_) => panic!("a truncated body must not drain cleanly"),
        Err(e) => assert!(matches!(e, HttpError::PrematureEof)),
    }
}

#[test]
fn sized_writer_truncates_at_declared_length() {
    let mut w = BodyWriter::SizedWriter(BufferIo::new(Script::new(b"")), 3);
    let n = w.write(b"abcdef").unwrap();
    assert_eq!(n, 3);
    let n = w.write(b"xyz").unwrap();
    assert_eq!(n, 0);
    let wire = w.finish().unwrap().into_inner().out;
    assert_eq!(wire.as_slice(), b"abc");
}

#[test]
fn sized_writer_underwritten_cannot_finish() {
    let mut w = BodyWriter::SizedWriter(BufferIo::new(Script::new(b"")), 5);
    w.write(b"ab").unwrap();
    assert!(w.finish().is_err());
}

#[test]
fn empty_writer_discards() {
    let mut w = BodyWriter::EmptyWriter(BufferIo::new(Script::new(b"")));
    assert_eq!(w.write(b"ignored").unwrap(), 0);
    let wire = w.finish().unwrap().into_inner().out;
    assert_eq!(wire.as_slice(), b"");
}

#[test]
fn chunk_writer_empty_write_ends_body() {
    // a zero-length chunk is the terminal framing: writing an empty buffer
    // ends the body early, so the round trip holds only up to that point
    let mut w = BodyWriter::ChunkWriter(BufferIo::new(Script::new(b"")));
    assert_eq!(w.write(b"").unwrap(), 0);
    let wire = w.finish().unwrap().into_inner().out;
    assert_eq!(wire.as_slice(), b"0\r\n\r\n0\r\n\r\n");
}
