use byteorder::{BigEndian, LittleEndian};
use genio::error::{BufferOverflow, ReadExactError};
use genio::ext::ReadResult;
use genio::buffer::new_uninit;
use genio::{ExtendFromReader, Read, ReadExt, Write};

#[test]
fn slice_reader_reads_what_fits() {
    let mut reader: &[u8] = &[1, 2, 3, 4, 5];
    let mut buffer = new_uninit::<3>();
    assert_eq!(reader.read(buffer.as_out()).unwrap(), 3);
    assert_eq!(buffer.written(), &[1, 2, 3]);
    assert_eq!(reader, &[4, 5]);
    assert_eq!(reader.read(buffer.as_out()).unwrap(), 0);
    buffer.reset();
    assert_eq!(reader.read(buffer.as_out()).unwrap(), 2);
    assert_eq!(buffer.written(), &[4, 5]);
    assert_eq!(reader.read(buffer.as_out()).unwrap(), 0);
}

#[test]
fn slice_reader_available_bytes() {
    let reader: &[u8] = &[1, 2];
    assert!(reader.available_bytes(2));
    assert!(!reader.available_bytes(3));
    assert_eq!(reader.retrieve_available_bytes(), None);
}

#[test]
fn read_exact_fills_or_ends() {
    let mut reader: &[u8] = &[1, 2, 3];
    let mut buffer = new_uninit::<2>();
    assert!(reader.read_exact(buffer.as_out()).is_ok());
    assert_eq!(buffer.written(), &[1, 2]);
    let mut second = new_uninit::<2>();
    match reader.read_exact(second.as_out()) {
        Err(ReadExactError::UnexpectedEnd) => {}
        _ => panic!("expected the end"),
    }
}

#[test]
fn mut_slice_reader_advances() {
    let mut data = [5u8, 6, 7];
    let mut reader: &mut [u8] = &mut data;
    let mut buffer = new_uninit::<2>();
    assert_eq!(reader.read(buffer.as_out()).unwrap(), 2);
    assert_eq!(buffer.written(), &[5, 6]);
    assert_eq!(reader, &[7]);
}

#[test]
fn mut_slice_writer_overflows() {
    let mut data = [0u8; 4];
    {
        let mut writer: &mut [u8] = &mut data;
        assert_eq!(writer.write(&[1, 2]).unwrap(), 2);
        assert_eq!(writer.len(), 2);
        assert_eq!(writer.write(&[3, 4, 5]).unwrap(), 2);
        assert_eq!(writer.len(), 0);
        assert!(writer.flush().is_ok());
        assert!(matches!(writer.write(&[6]), Err(BufferOverflow)));
        assert_eq!(writer.write(&[]).unwrap(), 0);
    }
    assert_eq!(data, [1, 2, 3, 4]);
}

#[test]
fn vec_writer_appends() {
    let mut v = vec![9u8];
    assert_eq!(v.write(&[1, 2]).unwrap(), 2);
    v.write_all(&[3, 4, 5]).unwrap();
    assert_eq!(v, vec![9, 1, 2, 3, 4, 5]);
    v.size_hint(10, Some(100));
    v.size_hint(10, None);
    v.size_hint(0, Some(1));
    assert_eq!(v, vec![9, 1, 2, 3, 4, 5]);
    assert!(v.uses_size_hint());
}

#[test]
fn read_to_end_into_vec() {
    let data: Vec<u8> = (0..5000u32).map(|i| (i % 251) as u8).collect();
    let mut reader: &[u8] = &data;
    let mut out = vec![1u8, 2];
    let n = reader.read_to_end(&mut out).unwrap();
    assert_eq!(n, 5000);
    assert_eq!(&out[..2], &[1, 2]);
    assert_eq!(&out[2..], &data[..]);
    assert!(reader.is_empty());
}

#[test]
fn extend_from_reader_to_end_counts() {
    let mut reader: &[u8] = &[1, 2, 3];
    let mut out = Vec::new();
    assert_eq!(out.extend_from_reader_to_end(&mut reader).unwrap(), 3);
    assert_eq!(out, vec![1, 2, 3]);
}

#[test]
fn read_ext_hands_out_bytes() {
    let mut reader: &[u8] = &[1, 2, 3];
    let mut buffer = new_uninit::<2>();
    match reader.read_ext(&mut buffer).unwrap() {
        ReadResult::Bytes(b) => assert_eq!(b, &[1, 2]),
        ReadResult::End => panic!("expected bytes"),
    }
    buffer.reset();
    match reader.read_ext(&mut buffer).unwrap() {
        ReadResult::Bytes(b) => assert_eq!(b, &[3]),
        ReadResult::End => panic!("expected bytes"),
    }
    assert!(matches!(reader.read_ext(&mut buffer).unwrap(), ReadResult::End));
    assert!(matches!(ReadResult::End.require_bytes::<()>(), Err(ReadExactError::UnexpectedEnd)));
    assert_eq!(ReadResult::Bytes(&[4]).require_bytes::<()>().unwrap(), &[4]);
}

#[test]
fn numbers_big_and_little_endian() {
    let mut reader: &[u8] = &[0x12, 0x34, 0x12, 0x34, 0xff, 0xfe, 1, 2, 3, 4, 5, 6, 7, 8];
    assert_eq!(reader.read_u16::<BigEndian>().unwrap(), 0x1234);
    assert_eq!(reader.read_u16::<LittleEndian>().unwrap(), 0x3412);
    assert_eq!(reader.read_i16::<BigEndian>().unwrap(), -2);
    assert_eq!(reader.read_u64::<BigEndian>().unwrap(), 0x0102030405060708);
    assert!(matches!(reader.read_u32::<BigEndian>(), Err(ReadExactError::UnexpectedEnd)));

    let mut out = Vec::new();
    out.write_u32::<BigEndian>(0x01020304).unwrap();
    out.write_u32::<LittleEndian>(0x01020304).unwrap();
    out.write_i16::<BigEndian>(-2).unwrap();
    out.write_uint::<BigEndian>(0x010203, 3).unwrap();
    out.write_int::<LittleEndian>(-1, 2).unwrap();
    out.write_u16::<BigEndian>(7).unwrap();
    out.write_u64::<LittleEndian>(1).unwrap();
    out.write_i32::<BigEndian>(-1).unwrap();
    out.write_i64::<BigEndian>(5).unwrap();
    assert_eq!(
        out,
        vec![1, 2, 3, 4, 4, 3, 2, 1, 0xff, 0xfe, 1, 2, 3, 0xff, 0xff, 0, 7, 1, 0, 0, 0, 0, 0, 0, 0, 0xff, 0xff, 0xff, 0xff, 0, 0, 0, 0, 0, 0, 0, 5]
    );
    let mut back: &[u8] = &out;
    assert_eq!(back.read_u32::<BigEndian>().unwrap(), 0x01020304);
    assert_eq!(back.read_u32::<LittleEndian>().unwrap(), 0x01020304);
    assert_eq!(back.read_i16::<BigEndian>().unwrap(), -2);
}

#[test]
fn signed_reads() {
    let mut reader: &[u8] = &[0xff, 0xff, 0xff, 0xfe, 0x80, 0, 0, 0, 0, 0, 0, 0];
    assert_eq!(reader.read_i32::<BigEndian>().unwrap(), -2);
    assert_eq!(reader.read_i64::<BigEndian>().unwrap(), i64::MIN);
}

#[test]
fn vec_size_hint_tolerates_huge_hints() {
    let mut vec: Vec<u8> = Vec::new();
    vec.size_hint(usize::MAX, None);
    vec.size_hint(usize::MAX / 2, Some(usize::MAX));
    vec.size_hint(3, Some(usize::MAX));
    assert!(vec.is_empty());
    vec.write_all(&[1, 2]).unwrap();
    assert_eq!(vec, vec![1, 2]);
}

#[test]
fn read_exact_refuses_without_reading() {
    let mut reader: &[u8] = b"hello";
    let mut buffer = new_uninit::<6>();
    assert!(matches!(reader.read_exact(buffer.as_out()), Err(ReadExactError::UnexpectedEnd)));
    assert_eq!(reader, b"hello");
    assert!(buffer.written().is_empty());
}
