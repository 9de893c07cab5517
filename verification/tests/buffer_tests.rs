use may_http::buffer::BufferIo;
use may_http::error::HttpError;
use may_http::transport::Transport;

/// Serves "foo", "bar", "baz" in turn, one word per read.
struct SlowRead {
    state: u8,
}

impl Transport for SlowRead {
    fn read_some(&mut self, max: usize) -> Result<Vec<u8>, HttpError> {
        let word: &[u8] = match self.state % 3 {
            0 => b"foo",
            1 => b"bar",
            _ => b"baz",
        };
        self.state += 1;
        let n = if max < word.len() { max } else { word.len() };
        Ok(word[..n].to_vec())
    }

    fn write_some(&mut self, _data: &[u8]) -> Result<usize, HttpError> {
        Err(HttpError::Transport)
    }
}

/// Serves a fixed byte string, as much as asked per read.
struct SliceReader {
    data: Vec<u8>,
    pos: usize,
}

impl Transport for SliceReader {
    fn read_some(&mut self, max: usize) -> Result<Vec<u8>, HttpError> {
        let left = self.data.len() - self.pos;
        let n = if max < left { max } else { left };
        let out = self.data[self.pos..self.pos + n].to_vec();
        self.pos += n;
        Ok(out)
    }

    fn write_some(&mut self, _data: &[u8]) -> Result<usize, HttpError> {
        Err(HttpError::Transport)
    }
}

/// Accepts every write, remembers nothing.
struct Sink;

impl Transport for Sink {
    fn read_some(&mut self, _max: usize) -> Result<Vec<u8>, HttpError> {
        Ok(Vec::new())
    }

    fn write_some(&mut self, data: &[u8]) -> Result<usize, HttpError> {
        Ok(data.len())
    }
}

#[test]
fn test_consume_and_get_buf() {
    let mut rdr = BufferIo::new(SlowRead { state: 0 });
    rdr.bump_read().unwrap();
    rdr.consume(1);
    assert_eq!(rdr.get_reader_buf().as_slice(), b"oo");
    rdr.bump_read().unwrap();
    rdr.bump_read().unwrap();
    assert_eq!(rdr.get_reader_buf().as_slice(), b"oobarbaz");
    rdr.consume(5);
    assert_eq!(rdr.get_reader_buf().as_slice(), b"baz");
    rdr.consume(3);
    assert_eq!(rdr.get_reader_buf().as_slice(), b"");
}

#[test]
fn test_resize() {
    let raw = vec![1u8; 100];
    let mut rdr = BufferIo::with_capacity(SliceReader { data: raw, pos: 0 }, 65);
    rdr.bump_read().unwrap();
    assert_eq!(rdr.get_reader_buf().len(), 65);
    rdr.bump_read().unwrap();
    assert_eq!(rdr.get_reader_buf().len(), 100);
}

#[test]
fn test_write() {
    let data = vec![0u8; 100];
    let mut wrt = BufferIo::with_capacity(Sink, 40);
    let n = wrt.write(&data).unwrap();
    assert_eq!(n, 40);
    let n = wrt.write(&[0u8; 6]).unwrap();
    assert_eq!(n, 6);
    let n = wrt.write(&data).unwrap();
    assert_eq!(n, 34);
    let n = wrt.write(&data).unwrap();
    assert_eq!(n, 40);
}

#[test]
fn test_read_serves_buffered_bytes() {
    let mut rdr = BufferIo::new(SliceReader { data: b"abcdef".to_vec(), pos: 0 });
    let v = rdr.read(4).unwrap();
    assert_eq!(v.as_slice(), b"abcd");
    let v = rdr.read(4).unwrap();
    assert_eq!(v.as_slice(), b"ef");
    let v = rdr.read(4).unwrap();
    assert_eq!(v.as_slice(), b"");
}

/// Accepts every write and keeps the bytes.
struct Keep {
    out: Vec<u8>,
}

impl Transport for Keep {
    fn read_some(&mut self, _max: usize) -> Result<Vec<u8>, HttpError> {
        Ok(Vec::new())
    }

    fn write_some(&mut self, data: &[u8]) -> Result<usize, HttpError> {
        self.out.extend_from_slice(data);
        Ok(data.len())
    }
}

#[test]
fn test_flush_hands_pending_to_transport() {
    let mut ch = BufferIo::new(Keep { out: Vec::new() });
    ch.write_all(b"hello ").unwrap();
    ch.write_all(b"world").unwrap();
    ch.flush().unwrap();
    let inner = ch.into_inner();
    assert_eq!(inner.out.as_slice(), b"hello world");
}
