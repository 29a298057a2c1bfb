use genio::buffer::init::{Dynamic, Init, Uninit};
use genio::buffer::{new_maybe_init, new_uninit, new_uninit_boxed_slice, Buffer};

#[test]
fn new_uninit_basic_ops() {
    let mut buffer = new_uninit::<32>();
    assert_eq!(buffer.written(), &[]);
    assert_eq!(buffer.as_out().remaining(), 32);
    buffer.as_out().write_slice(&[]);
    assert_eq!(buffer.written(), &[]);
    assert_eq!(buffer.as_out().remaining(), 32);
    buffer.as_out().write_slice(&[42]);
    assert_eq!(buffer.as_out().remaining(), 31);
    assert_eq!(buffer.written(), &[42]);
    buffer.as_out().write_slice(&[1, 2, 3, 4, 5]);
    assert_eq!(buffer.as_out().remaining(), 26);
    assert_eq!(buffer.written(), &[42, 1, 2, 3, 4, 5]);
    buffer.as_out().write_byte(47);
    assert_eq!(buffer.as_out().remaining(), 25);
    assert_eq!(buffer.written(), &[42, 1, 2, 3, 4, 5, 47]);
    for i in 0..25 {
        buffer.as_out().write_byte(255 - i);
        assert_eq!(buffer.as_out().remaining(), usize::from(24 - i));
        assert_eq!(*buffer.written().last().unwrap(), 255 - i);
    }
    assert!(buffer.as_out().is_full());
}

#[test]
fn write_slice_min_truncates() {
    let mut buffer = new_uninit::<4>();
    assert_eq!(buffer.as_out().write_slice_min(&[1, 2, 3]), 3);
    assert_eq!(buffer.as_out().write_slice_min(&[4, 5, 6]), 1);
    assert_eq!(buffer.written(), &[1, 2, 3, 4]);
    assert_eq!(buffer.as_out().write_slice_min(&[7]), 0);
    assert!(buffer.as_out().is_full());
}

#[test]
fn reset_and_rewind() {
    let mut buffer = new_uninit_boxed_slice(8);
    buffer.as_out().write_slice(&[1, 2, 3, 4]);
    buffer.rewind(1);
    assert_eq!(buffer.written(), &[1, 2, 3]);
    buffer.as_out().write_byte(9);
    assert_eq!(buffer.written(), &[1, 2, 3, 9]);
    buffer.reset();
    assert_eq!(buffer.written(), &[]);
    assert_eq!(buffer.capacity(), 8);
    assert_eq!(buffer.as_out().remaining(), 8);
}

#[test]
fn into_parts_and_slice() {
    let mut buffer: Buffer<Uninit> = Buffer::new(vec![7, 7, 7]);
    buffer.as_out().write_slice(&[1, 2]);
    buffer.written_mut()[0] = 5;
    assert_eq!(buffer.written(), &[5, 2]);
    let (storage, position) = buffer.into_parts();
    assert_eq!(storage, vec![5, 2, 7]);
    assert_eq!(position, 2);
    let mut other: Buffer<Init> = Buffer::new_from_init(vec![0; 3]);
    other.as_out().write_byte(8);
    assert_eq!(other.into_init_slice(), vec![8]);
}

#[test]
fn zeroing_into_init_clears_unwritten_part() {
    let mut buffer: Buffer<Uninit> = Buffer::new(vec![9, 9, 9, 9]);
    buffer.as_out().write_slice(&[1]);
    let mut init = buffer.into_init();
    assert_eq!(init.written(), &[1]);
    assert_eq!(init.as_out().bytes_mut(), &[0, 0, 0]);
    init.as_out().bytes_mut()[0] = 4;
    init.as_out().advance(1);
    assert_eq!(init.written(), &[1, 4]);
}

#[test]
fn dynamic_buffer_keeps_storage() {
    let mut buffer: Buffer<Dynamic> = new_maybe_init::<3, Dynamic>();
    buffer.as_out().write_slice(&[1, 2]);
    let mut init = buffer.into_init();
    assert_eq!(init.written(), &[1, 2]);
    assert_eq!(init.as_out().bytes_mut(), &[0]);
    let dynamic: Buffer<Dynamic> = Buffer::<Uninit>::new(vec![3, 3]).into_dynamic();
    assert_eq!(dynamic.written(), &[]);
}

#[test]
fn out_bytes_and_advance_unchecked() {
    let mut buffer = new_uninit::<4>();
    {
        let out = buffer.as_out();
        out.out_bytes()[0] = 6;
        out.out_bytes()[1] = 7;
        out.advance_unchecked(2);
    }
    assert_eq!(buffer.written(), &[6, 7]);
    assert_eq!(buffer.out_bytes().len(), 2);
}

#[test]
fn vec_lends_spare_bytes() {
    let mut vec: Vec<u8> = Vec::with_capacity(8);
    vec.push(9);
    let capacity = vec.capacity();
    let result = genio::buffer::with_vec_as_out_buf(&mut vec, |mut out: genio::OutBuf<Uninit>| {
        assert_eq!(out.remaining(), capacity - 1);
        out.write_slice(&[1, 2]);
        (out, 5)
    });
    assert_eq!(result, 5);
    assert_eq!(vec, vec![9, 1, 2]);
    assert_eq!(vec.capacity(), capacity);
}

#[test]
fn out_buf_scoped_returns_appended() {
    let mut buffer = new_uninit::<8>();
    buffer.as_out().write_slice(&[1]);
    let (appended, result) = buffer.as_out().scoped(|mut out: genio::OutBuf<Uninit>| {
        out.write_slice(&[2, 3]);
        (out, 7)
    });
    assert_eq!(appended, vec![2, 3]);
    assert_eq!(result, 7);
    assert_eq!(buffer.written(), &[1, 2, 3]);
}

#[test]
fn out_buf_uncombine_keeps_contents() {
    let mut vec: Vec<u8> = Vec::with_capacity(3);
    genio::buffer::with_vec_as_out_buf(&mut vec, |mut out: genio::OutBuf<Uninit>| {
        out.write_byte(5);
        let mut same = out.uncombine_left::<Uninit, Uninit>();
        assert!(same.remaining() >= 2);
        same.write_byte(6);
        (same.uncombine_right::<Uninit, Uninit>(), ())
    });
    assert_eq!(vec, vec![5, 6]);

    let mut init_vec: Vec<u8> = Vec::with_capacity(2);
    genio::buffer::with_vec_as_out_buf(&mut init_vec, |mut out: genio::OutBuf<Init>| {
        out.write_byte(1);
        let mut same = out.uncombine_left::<Init, Init>();
        same.bytes_mut()[0] = 2;
        same.advance(1);
        (same, ())
    });
    assert_eq!(init_vec, vec![1, 2]);
}
