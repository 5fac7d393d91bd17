use std::cmp;
use std::io;
use std::io::Cursor;

use rssh::bufreader::AsyncBufReader;
use rssh::bufwriter::AsyncBufWriter;
use rssh::{Async, IoErrorKind};

pub struct MockAsyncReader {
    buf: Vec<u8>,
    pos: usize,
}

impl io::Read for MockAsyncReader {
    fn read(&mut self, buf: &mut [u8]) -> io::Result<usize> {
        let datasize = cmp::min(buf.len(), self.buf.len() - self.pos);
        if datasize == 0 {
            return Err(io::Error::new(io::ErrorKind::WouldBlock, "data not ready"));
        }
        let new_pos = self.pos + datasize;
        buf[..datasize].copy_from_slice(&self.buf[self.pos..new_pos]);
        self.pos = new_pos;
        Ok(datasize)
    }
}

fn mock_async_reader(data: &[u8]) -> MockAsyncReader {
    MockAsyncReader { buf: data.to_vec(), pos: 0 }
}

#[test]
fn read_exact() {
    let reader = Cursor::new(b"Hello, world!");
    let mut bufreader = AsyncBufReader::with_capacity(16, reader);

    assert_eq!(Async::Ready(b"Hello".to_vec()), bufreader.nb_read_exact(5).expect("error!"));
}

#[test]
fn read_exact_larger_than_buffer() {
    let reader = Cursor::new(b"Hello, world!");
    let mut bufreader = AsyncBufReader::with_capacity(4, reader);

    assert_eq!(Async::Ready(b"Hello".to_vec()), bufreader.nb_read_exact(5).expect("error!"));
}

#[test]
fn read_exact_with_small_buffer() {
    let reader = Cursor::new(b"Hello, world!");
    let mut bufreader = AsyncBufReader::with_capacity(4, reader);

    assert_eq!(Async::Ready(b"Hell".to_vec()), bufreader.nb_read_exact(4).expect("error!"));
    assert_eq!(Async::Ready(b"o".to_vec()), bufreader.nb_read_exact(1).expect("error!"));
    assert_eq!(Async::Ready(b", ".to_vec()), bufreader.nb_read_exact(2).expect("error!"));
    assert_eq!(Async::Ready(b"world!".to_vec()), bufreader.nb_read_exact(6).expect("error!"));
}

#[test]
fn read_exact_unexpected_eof() {
    let reader = Cursor::new(b"Hello, world!");
    let mut bufreader = AsyncBufReader::with_capacity(4, reader);

    assert_eq!(Async::Ready(b"Hell".to_vec()), bufreader.nb_read_exact(4).expect("error!"));
    assert_eq!(Async::Ready(b"o".to_vec()), bufreader.nb_read_exact(1).expect("error!"));
    assert_eq!(Async::Ready(b", ".to_vec()), bufreader.nb_read_exact(2).expect("error!"));
    // The first call returns `NotReady`, then the second call returns `UnexpectedEof`
    assert_eq!(Async::NotReady, bufreader.nb_read_exact(7).expect("error!"));
    match bufreader.nb_read_exact(7) {
        Ok(x) => panic!("Expected EOF, but got {:?}", x),
        Err(e) => assert_eq!(IoErrorKind::UnexpectedEof, e),
    }
}

#[test]
fn read_exact_async() {
    let reader = mock_async_reader(b"Hello, world!");
    let mut bufreader = AsyncBufReader::with_capacity(4, reader);

    assert_eq!(Async::Ready(b"Hell".to_vec()), bufreader.nb_read_exact(4).expect("error!"));
    assert_eq!(Async::Ready(b"o".to_vec()), bufreader.nb_read_exact(1).expect("error!"));
    assert_eq!(Async::Ready(b", ".to_vec()), bufreader.nb_read_exact(2).expect("error!"));

    // The call returns `NotReady` indefinitely if the data is too short
    assert_eq!(Async::NotReady, bufreader.nb_read_exact(7).expect("error!"));
    assert_eq!(Async::NotReady, bufreader.nb_read_exact(7).expect("error!"));

    assert_eq!(Async::Ready(b"world!".to_vec()), bufreader.nb_read_exact(6).expect("error!"));
}

#[test]
fn read_until_line() {
    let reader = Cursor::new(b"SSH-2.0-OpenSSH_7.4\r\nrest");
    let mut bufreader = AsyncBufReader::with_capacity(16, reader);

    let line = loop {
        match bufreader.nb_read_until(b'\n', 256).expect("error!") {
            Async::Ready(line) => break line,
            Async::NotReady => continue,
        }
    };
    assert_eq!(b"SSH-2.0-OpenSSH_7.4\r".to_vec(), line);
    // the delimiter itself was consumed: the rest follows directly
    assert_eq!(Async::Ready(b"rest".to_vec()), bufreader.nb_read_exact(4).expect("error!"));
}

#[test]
fn read_until_limit_exceeded() {
    let reader = Cursor::new(b"no newline anywhere in this rather long line of text");
    let mut bufreader = AsyncBufReader::with_capacity(8, reader);

    let r = loop {
        match bufreader.nb_read_until(b'\n', 8) {
            Ok(Async::NotReady) => continue,
            other => break other,
        }
    };
    assert_eq!(Err(IoErrorKind::InvalidData), r);
}

#[test]
fn read_until_limit_with_blocked_source() {
    // ten delimiter-free bytes get buffered, then the source blocks: the
    // limit is exceeded, so the call must fail rather than suspend forever
    let reader = mock_async_reader(b"0123456789");
    let mut bufreader = AsyncBufReader::with_capacity(16, reader);
    assert_eq!(Err(IoErrorKind::InvalidData), bufreader.nb_read_until(b'\n', 4));
    assert_eq!(Err(IoErrorKind::InvalidData), bufreader.nb_read_until(b'\n', 4));
    // the buffered bytes were not lost
    assert_eq!(
        Async::Ready(b"0123456789".to_vec()),
        bufreader.nb_read_exact(10).expect("error!")
    );
}

#[test]
fn nb_write_exact() {
    let writer = {
        let buf = vec![0u8; 16];
        let writer = Cursor::new(buf);
        let mut bufwriter = AsyncBufWriter::with_capacity(4, writer);

        assert_eq!(Async::Ready(()), bufwriter.nb_write_exact(b"Hell").expect("error!"));
        assert_eq!(Async::Ready(()), bufwriter.nb_write_exact(b"o, ").expect("error!"));
        assert_eq!(Async::Ready(()), bufwriter.nb_write_exact(b"wor").expect("error!"));
        assert_eq!(Async::Ready(()), bufwriter.nb_write_exact(b"ld!").expect("error!"));
        assert_eq!(Async::Ready(()), bufwriter.nb_flush().expect("error!"));

        if let Async::Ready(w) = bufwriter.nb_into_inner().expect("error!") {
            w
        } else {
            panic!("not ready");
        }
    };

    let wsize = writer.position() as usize;
    assert_eq!(b"Hello, world!".len(), wsize);

    let buf = writer.into_inner();
    assert_eq!(b"Hello, world!".as_ref(), &buf[..wsize]);
}

#[test]
fn nb_write_exact_larger_than_buf() {
    let writer = {
        let buf = vec![0u8; 16];
        let writer = Cursor::new(buf);
        let mut bufwriter = AsyncBufWriter::with_capacity(4, writer);

        assert_eq!(Async::Ready(()), bufwriter.nb_write_exact(b"Hello, ").expect("error!"));
        assert_eq!(Async::Ready(()), bufwriter.nb_write_exact(b"world!").expect("error!"));
        assert_eq!(Async::Ready(()), bufwriter.nb_flush().expect("error!"));

        if let Async::Ready(w) = bufwriter.nb_into_inner().expect("error!") {
            w
        } else {
            panic!("not ready");
        }
    };

    let wsize = writer.position() as usize;
    assert_eq!(b"Hello, world!".len(), wsize);

    let buf = writer.into_inner();
    assert_eq!(b"Hello, world!".as_ref(), &buf[..wsize]);
}
