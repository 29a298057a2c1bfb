use genio::bufio::{BufRead, BufReadProgress, BufReadRequire, BufReaderRequire, BufWrite, BufWriter};
use genio::buffer::new_uninit;
use genio::error::BufError;
use genio::{Read, Write};

#[test]
fn slice_bufread() {
    let mut reader: &[u8] = &[1, 2, 3, 4];
    assert_eq!(reader.fill_buf().unwrap(), &[1, 2, 3, 4]);
    reader.consume(3);
    assert_eq!(reader.fill_buf().unwrap(), &[4]);
    reader.consume(10);
    assert_eq!(reader.fill_buf().unwrap(), &[]);
    let mut other: &[u8] = &[1, 2];
    assert_eq!(other.require_bytes(2).unwrap(), &[1, 2]);
    assert!(matches!(other.require_bytes(3), Err(BufError::End)));
}

#[test]
fn buf_reader_require_collects() {
    let data: &[u8] = &[1, 2, 3, 4, 5];
    let mut reader = BufReaderRequire::new(data);
    assert_eq!(reader.require_bytes(3).unwrap(), &[1, 2, 3, 4, 5]);
    reader.consume(2);
    assert_eq!(reader.fill_buf().unwrap(), &[3, 4, 5]);
    assert!(matches!(reader.require_bytes(4), Err(BufError::End)));
    let mut buffer = new_uninit::<2>();
    assert_eq!(reader.read(buffer.as_out()).unwrap(), 2);
    assert_eq!(buffer.written(), &[3, 4]);
    assert!(matches!(reader.fill_progress(), Err(BufError::End)));
    assert_eq!(reader.fill_buf().unwrap(), &[5]);
    let inner = reader.into_inner();
    assert!(inner.is_empty());
}

#[test]
fn buf_reader_fill_progress_grows() {
    let data: &[u8] = &[1, 2, 3];
    let mut reader = BufReaderRequire::new(data);
    assert_eq!(reader.fill_progress().unwrap(), &[1, 2, 3]);
}

#[test]
fn buf_reader_require_large_request() {
    let data: Vec<u8> = (0..20000u32).map(|i| (i % 13) as u8).collect();
    let mut reader = BufReaderRequire::new(&data[..]);
    let got = reader.require_bytes(10000).unwrap();
    assert!(got.len() >= 10000);
    assert_eq!(&got[..10000], &data[..10000]);
}

#[test]
fn buf_writer_buffers_until_flush() {
    let mut writer = BufWriter::new(Vec::new(), vec![0; 4]);
    assert_eq!(writer.write(&[1, 2, 3]).unwrap(), 3);
    assert_eq!(writer.write(&[4, 5]).unwrap(), 1);
    assert_eq!(writer.write(&[5, 6]).unwrap(), 2);
    writer.flush().unwrap();
    writer.write_all(&[7, 8, 9, 10, 11]).unwrap();
    writer.flush().unwrap();
    writer.size_hint(1, Some(2));
    assert!(writer.uses_size_hint());
}

#[test]
fn buf_writer_request_and_submit() {
    let mut writer = BufWriter::new(Vec::new(), vec![0; 4]);
    {
        let space = writer.request_buffer().unwrap();
        assert_eq!(space.len(), 4);
        space[0] = 8;
        space[1] = 9;
    }
    writer.submit_buffer(2);
    writer.write_byte(10).unwrap();
    writer.flush().unwrap();
}

#[test]
fn slice_bufwrite() {
    let mut data = [0u8; 3];
    {
        let mut writer: &mut [u8] = &mut data;
        {
            let space = writer.request_buffer().unwrap();
            space[0] = 1;
        }
        writer.submit_buffer(1);
        writer.write_byte(2).unwrap();
        assert_eq!(writer.len(), 1);
    }
    assert_eq!(data, [1, 2, 0]);
}

#[test]
fn buf_reader_require_reports_end() {
    let mut reader = BufReaderRequire::new(&b"hello"[..]);
    assert!(matches!(reader.require_bytes(6), Err(BufError::End)));
    assert_eq!(reader.fill_buf().unwrap(), b"hello");
}

#[test]
fn buf_reader_require_returns_all_buffered() {
    let mut reader = BufReaderRequire::new(&b"hello"[..]);
    assert_eq!(reader.require_bytes(3).unwrap(), b"hello");
    assert_eq!(reader.require_bytes(2).unwrap(), b"hello");
}

#[test]
fn buf_reader_require_reads_in_order() {
    let mut reader = BufReaderRequire::new(&b"hello"[..]);
    let mut first = new_uninit::<2>();
    assert_eq!(reader.read(first.as_out()).unwrap(), 2);
    assert_eq!(first.written(), b"he");
    let mut second = new_uninit::<3>();
    assert_eq!(reader.read(second.as_out()).unwrap(), 3);
    assert_eq!(second.written(), b"llo");
    let mut third = new_uninit::<3>();
    assert_eq!(reader.read(third.as_out()).unwrap(), 0);
}

#[test]
fn buf_reader_progress_keeps_buffered_prefix() {
    let mut reader = BufReaderRequire::new(&b"abc"[..]);
    assert_eq!(reader.fill_buf().unwrap(), b"abc");
    assert!(matches!(reader.fill_progress(), Err(BufError::End)));
    reader.consume(1);
    assert_eq!(reader.fill_buf().unwrap(), b"bc");
}

/// A writer that counts how often it was flushed.
struct Counting {
    data: Vec<u8>,
    flushes: u32,
}

impl Write for Counting {
    type WriteError = core::convert::Infallible;
    type FlushError = core::convert::Infallible;

    fn write(&mut self, buf: &[u8]) -> Result<usize, Self::WriteError> {
        self.data.extend_from_slice(buf);
        Ok(buf.len())
    }

    fn flush(&mut self) -> Result<(), Self::FlushError> {
        self.flushes += 1;
        Ok(())
    }

    fn size_hint(&mut self, _min_bytes: usize, _max_bytes: Option<usize>) {}
}

#[test]
fn buf_writer_flush_reaches_wrapped_writer() {
    let mut inner = Counting { data: Vec::new(), flushes: 0 };
    {
        let mut writer = BufWriter::new(&mut inner, vec![0; 8]);
        writer.write_all(&[1, 2, 3]).unwrap();
        writer.flush().unwrap();
    }
    assert_eq!(inner.data, vec![1, 2, 3]);
    assert_eq!(inner.flushes, 1);
}
