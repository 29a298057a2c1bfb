use genio::bufio::{BufReadRequire, BufReaderRequire};
use genio::buffer::init::Uninit;
use genio::buffer::new_uninit;
use genio::error::{BufError, ExtendError, IOError, ReadExactError};
use genio::util::{copy, Chain};
use genio::{ExtendFromReader, OutBuf, Read, ReadExt, Write};

/// A reader that hands out one byte and then fails.
struct Flaky {
    calls: u32,
}

impl Read for Flaky {
    type ReadError = u8;
    type BufInit = Uninit;

    fn read(&mut self, buf: &mut OutBuf<Uninit>) -> Result<usize, u8> {
        self.calls += 1;
        if self.calls == 1 {
            buf.write_byte(42);
            Ok(1)
        } else {
            Err(7)
        }
    }
}

#[test]
fn read_exact_reports_reader_error() {
    let mut reader = Flaky { calls: 0 };
    let mut buffer = new_uninit::<2>();
    match reader.read_exact(buffer.as_out()) {
        Err(ReadExactError::Other(e)) => assert_eq!(e, 7),
        _ => panic!("expected the reader's error"),
    }
    assert_eq!(buffer.written(), &[42]);
}

#[test]
fn read_exact_error_conversion() {
    let e: ReadExactError<u8> = ReadExactError::from(3u8);
    assert!(matches!(e, ReadExactError::Other(3)));
}

#[test]
fn copy_reports_read_error() {
    let mut reader = Flaky { calls: 0 };
    let mut out = Vec::new();
    assert!(matches!(copy(&mut reader, &mut out), Err(IOError::Read(7))));
    assert_eq!(out, vec![42]);
}

#[test]
fn extend_reports_read_error() {
    let mut reader = Flaky { calls: 0 };
    let mut out = Vec::new();
    assert!(matches!(out.extend_from_reader_to_end(&mut reader), Err(ExtendError::ReadErr(7))));
    assert_eq!(out, vec![42]);
}

#[test]
fn buffered_reader_reports_error() {
    let mut reader = BufReaderRequire::new(Flaky { calls: 0 });
    assert!(matches!(reader.require_bytes(2), Err(BufError::OtherErr(7))));
}

#[test]
fn map_read_err_maps_errors() {
    let reader = Flaky { calls: 1 };
    let mut mapped = reader.map_read_err(|e| u32::from(e) * 10);
    let mut buffer = new_uninit::<2>();
    assert_eq!(mapped.read(buffer.as_out()).unwrap_err(), 70);
}

#[test]
fn chain_reports_which_reader_failed() {
    let first: &[u8] = &[];
    let mut chain: Chain<&[u8], Flaky> = first.chain(Flaky { calls: 1 });
    let mut buffer = new_uninit::<2>();
    match chain.read(buffer.as_out()) {
        Err(genio::error::ChainError::Second(e)) => assert_eq!(e, 7),
        _ => panic!("expected the second reader's error"),
    }
}

/// A writer that accepts nothing.
struct Broken;

impl Write for Broken {
    type WriteError = u8;
    type FlushError = u8;

    fn write(&mut self, _buf: &[u8]) -> Result<usize, u8> {
        Err(1)
    }

    fn flush(&mut self) -> Result<(), u8> {
        Err(2)
    }

    fn size_hint(&mut self, _min_bytes: usize, _max_bytes: Option<usize>) {}
}

#[test]
fn write_all_reports_progress() {
    let mut w = Broken;
    let e = w.write_all(&[1, 2, 3]).unwrap_err();
    assert_eq!(e.bytes_written, 0);
    assert_eq!(e.bytes_missing, 3);
    assert_eq!(e.into_inner(), 1);
    assert!(w.write_all(&[]).is_ok());
    assert!(!w.uses_size_hint());
}

#[test]
fn buffer_overflow_message() {
    assert_eq!(genio::error::BufferOverflow.to_string(), "provided buffer was too small");
}
