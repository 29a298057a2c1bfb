use genio::buffer::new_uninit;
use genio::error::{ChainError, IOError, IntrError};
use genio::util::{copy, Bytes, Empty, Repeat, RepeatBytes, Restarting, Sink, WriteOnly, WriteTrunc};
use genio::{Read, ReadExt, Write};

#[test]
fn chain_reads_first_then_second() {
    let first: &[u8] = &[1, 2];
    let second: &[u8] = &[3];
    let mut chain = first.chain(second);
    let mut buffer = new_uninit::<8>();
    assert_eq!(chain.read(buffer.as_out()).unwrap(), 2);
    assert_eq!(chain.read(buffer.as_out()).unwrap(), 1);
    assert_eq!(chain.read(buffer.as_out()).unwrap(), 0);
    assert_eq!(buffer.written(), &[1, 2, 3]);
}

#[test]
fn chain_empty_buffer_does_not_switch() {
    let first: &[u8] = &[1, 2, 3];
    let second: &[u8] = &[4];
    let mut chain = first.chain(second);
    let mut small = new_uninit::<2>();
    assert_eq!(chain.read(small.as_out()).unwrap(), 2);
    assert_eq!(chain.read(small.as_out()).unwrap(), 0);
    let mut rest = new_uninit::<8>();
    assert_eq!(chain.read(rest.as_out()).unwrap(), 1);
    assert_eq!(chain.read(rest.as_out()).unwrap(), 1);
    assert_eq!(chain.read(rest.as_out()).unwrap(), 0);
    assert_eq!(rest.written(), &[3, 4]);
}

#[test]
fn chain_read_to_end() {
    let first: &[u8] = &[1, 2];
    let second: &[u8] = &[3, 4];
    let mut chain = first.chain(second);
    let mut out = Vec::new();
    assert_eq!(chain.read_to_end(&mut out).unwrap(), 4);
    assert_eq!(out, vec![1, 2, 3, 4]);
}

#[test]
fn chain_error_merge_and_refs() {
    let e: ChainError<u8, u8> = ChainError::Second(4);
    assert!(matches!(e.as_ref(), ChainError::Second(&4)));
    let merged: u32 = e.merge();
    assert_eq!(merged, 4);
    let mut f: ChainError<u8, u16> = ChainError::First(1);
    if let ChainError::First(x) = f.as_ref_mut() {
        *x = 2;
    }
    assert!(matches!(f, ChainError::First(2)));
    let io: IOError<u8, u16> = IOError::Write(300);
    assert!(matches!(io.as_ref(), IOError::Write(&300)));
    let merged: u32 = IOError::merge(io);
    assert_eq!(merged, 300);
    let mut io2: IOError<u8, u16> = IOError::Read(1);
    if let IOError::Read(x) = io2.as_ref_mut() {
        *x = 3;
    }
    assert!(matches!(io2, IOError::Read(3)));
}

#[test]
fn empty_and_repeat() {
    let mut buffer = new_uninit::<3>();
    let mut empty = Empty;
    assert_eq!(empty.read(buffer.as_out()).unwrap(), 0);
    assert!(empty.available_bytes(0));
    assert!(!empty.available_bytes(1));
    assert_eq!(empty.retrieve_available_bytes(), Some(0));
    let mut repeat = Repeat::new(7);
    assert_eq!(repeat.read(buffer.as_out()).unwrap(), 3);
    assert_eq!(buffer.written(), &[7, 7, 7]);
    assert_eq!(repeat.retrieve_available_bytes(), Some(usize::MAX));
}

#[test]
fn repeat_bytes_cycles() {
    let mut reader = RepeatBytes::new(vec![1, 2, 3]);
    let mut buffer = new_uninit::<5>();
    assert_eq!(reader.read(buffer.as_out()).unwrap(), 5);
    assert_eq!(buffer.written(), &[1, 2, 3, 1, 2]);
    buffer.reset();
    assert_eq!(reader.read(buffer.as_out()).unwrap(), 5);
    assert_eq!(buffer.written(), &[3, 1, 2, 3, 1]);
}

#[test]
fn bytes_one_at_a_time() {
    let reader: &[u8] = &[4, 5];
    let mut bytes = Bytes::new(reader);
    assert_eq!(bytes.next().unwrap().unwrap(), 4);
    assert_eq!(bytes.next().unwrap().unwrap(), 5);
    assert!(bytes.next().is_none());
}

#[test]
fn sink_accepts_everything() {
    let mut sink = Sink;
    assert_eq!(sink.write(&[1, 2, 3]).unwrap(), 3);
    assert!(sink.flush().is_ok());
    assert!(!sink.uses_size_hint());
}

#[test]
fn write_trunc_drops_excess() {
    let mut trunc = WriteTrunc::new(Vec::new(), 4);
    assert_eq!(trunc.write(&[1, 2, 3]).unwrap(), 3);
    assert_eq!(trunc.remaining_bytes(), 1);
    assert_eq!(trunc.write(&[4, 5, 6]).unwrap(), 3);
    assert_eq!(trunc.remaining_bytes(), 0);
    assert_eq!(trunc.write(&[7]).unwrap(), 1);
    trunc.write_all(&[8, 9]).unwrap();
    assert!(trunc.flush().is_ok());
    trunc.size_hint(10, Some(20));
    assert!(trunc.uses_size_hint());

    let mut other = WriteTrunc::new(Vec::new(), 3);
    other.write_all(&[1, 2, 3, 4, 5]).unwrap();
    assert_eq!(other.remaining_bytes(), 0);
}

#[test]
fn write_trunc_contents() {
    let mut out = Vec::new();
    {
        let mut trunc = WriteTrunc::new(&mut out, 4);
        trunc.write_all(&[1, 2, 3]).unwrap();
        trunc.write_all(&[4, 5, 6]).unwrap();
    }
    assert_eq!(out, vec![1, 2, 3, 4]);
}

#[test]
fn write_only_forwards() {
    let mut w = WriteOnly::new(Vec::new());
    w.write_all(&[1, 2]).unwrap();
    assert!(w.flush().is_ok());
    let from: WriteOnly<Vec<u8>> = WriteOnly::from(Vec::new());
    let _ = from;
}

#[test]
fn copy_moves_everything() {
    let data: Vec<u8> = (0..20000u32).map(|i| (i % 7) as u8).collect();
    let mut reader: &[u8] = &data;
    let mut out = Vec::new();
    assert_eq!(copy(&mut reader, &mut out).unwrap(), 20000);
    assert_eq!(out, data);
}

#[test]
fn copy_reports_write_error() {
    let mut reader: &[u8] = &[1, 2, 3];
    let mut space = [0u8; 2];
    let mut writer: &mut [u8] = &mut space;
    assert!(matches!(copy(&mut reader, &mut writer), Err(IOError::Write(_))));
}

#[test]
fn restarting_settles() {
    let done: Result<u8, IntrError<u8>> = Ok(3);
    assert!(matches!(Restarting::<()>::settle(done), Some(Ok(3))));
    let failed: Result<u8, IntrError<u8>> = Err(IntrError::Other(4));
    assert!(matches!(Restarting::<()>::settle(failed), Some(Err(4))));
    let interrupted: Result<u8, IntrError<u8>> = Err(IntrError::Interrupted);
    assert!(Restarting::<()>::settle(interrupted).is_none());
    let r = Restarting::new(5u8);
    assert_eq!(r.into_inner(), 5);
}

#[test]
fn map_read_err_keeps_data() {
    let reader: &[u8] = &[1, 2];
    let mut mapped = reader.map_read_err(|_e| 0u8);
    let mut buffer = new_uninit::<4>();
    assert_eq!(mapped.read(buffer.as_out()).unwrap(), 2);
    assert_eq!(buffer.written(), &[1, 2]);
}

#[test]
fn write_trunc_limit_reached_in_one_write() {
    let mut out: Vec<u8> = Vec::new();
    {
        let mut trunc = WriteTrunc::new(&mut out, 3);
        assert_eq!(trunc.write(b"hello").unwrap(), 5);
        assert_eq!(trunc.remaining_bytes(), 0);
        assert_eq!(trunc.write(b"xyz").unwrap(), 3);
    }
    assert_eq!(out, b"hel".to_vec());
}

#[test]
fn write_trunc_keeps_limit_on_partial_write() {
    let mut space = [0u8; 2];
    {
        let mut slice: &mut [u8] = &mut space;
        let mut trunc = WriteTrunc::new(&mut slice, 5);
        assert_eq!(trunc.write(&[1, 2, 3]).unwrap(), 2);
        assert_eq!(trunc.remaining_bytes(), 3);
        assert!(trunc.write(&[4]).is_err());
        assert_eq!(trunc.remaining_bytes(), 3);
    }
    assert_eq!(space, [1, 2]);
}

#[test]
fn copy_counts_and_forwards_everything() {
    let mut reader: &[u8] = &[1, 2, 3, 4, 5];
    let mut out: Vec<u8> = Vec::new();
    assert_eq!(copy(&mut reader, &mut out).unwrap(), 5);
    assert_eq!(out, vec![1, 2, 3, 4, 5]);
    assert!(reader.is_empty());
}

#[test]
fn chain_second_read_comes_from_second_reader() {
    let first: &[u8] = b"ab";
    let second: &[u8] = b"cd";
    let mut chain = first.chain(second);
    let mut b1 = new_uninit::<4>();
    assert_eq!(chain.read(b1.as_out()).unwrap(), 2);
    assert_eq!(b1.written(), b"ab");
    let mut b2 = new_uninit::<4>();
    assert_eq!(chain.read(b2.as_out()).unwrap(), 2);
    assert_eq!(b2.written(), b"cd");
}

#[test]
fn write_trunc_remaining_after_writes() {
    let mut out: Vec<u8> = Vec::new();
    {
        let mut trunc = WriteTrunc::new(&mut out, 10);
        assert_eq!(trunc.write(b"hello").unwrap(), 5);
        assert_eq!(trunc.remaining_bytes(), 5);
        assert_eq!(trunc.write(b"world!").unwrap(), 6);
        assert_eq!(trunc.remaining_bytes(), 0);
    }
    assert_eq!(out, b"helloworld".to_vec());
}
