//! Byte orders for reading and writing numbers, backed by the `byteorder` crate.
//!
//! [`ByteOrder`] is implemented for `byteorder::BigEndian` and `byteorder::LittleEndian`; the
//! readers' and writers' number methods take one of them as a type parameter.
use vstd::prelude::*;
use byteorder::{BigEndian, LittleEndian};

verus! {

/// The big-endian `byteorder` marker type.
#[verifier::external_type_specification]
#[verifier::external_body]
pub struct ExBigEndian(BigEndian);

/// The little-endian `byteorder` marker type.
#[verifier::external_type_specification]
#[verifier::external_body]
pub struct ExLittleEndian(LittleEndian);

/// The unsigned number whose big-endian bytes are `s`.
pub open spec fn be_value(s: Seq<u8>) -> nat
    decreases s.len(),
{
    if s.len() == 0 {
        0
    } else {
        be_value(s.drop_last()) * 256 + s.last() as nat
    }
}

/// The unsigned number whose little-endian bytes are `s`.
pub open spec fn le_value(s: Seq<u8>) -> nat
    decreases s.len(),
{
    if s.len() == 0 {
        0
    } else {
        s[0] as nat + 256 * le_value(s.drop_first())
    }
}

/// `256` to the power `k`: the number of values `k` bytes can hold.
pub open spec fn byte_range(k: nat) -> nat
    decreases k,
{
    if k == 0 {
        1
    } else {
        256 * byte_range((k - 1) as nat)
    }
}

/// The unsigned number that stands for the signed `n` in `k` bytes (two's complement).
pub open spec fn twos_complement(n: int, k: nat) -> nat {
    if n >= 0 {
        n as nat
    } else {
        (n + byte_range(k)) as nat
    }
}

/// `buf` after writing a number into its first `k` bytes: the length and the bytes after the
/// first `k` are kept, and the first `k` bytes encode `value`.
pub open spec fn number_written(before: Seq<u8>, after: Seq<u8>, k: nat, value: nat, enc: spec_fn(Seq<u8>) -> nat) -> bool {
    &&& after.len() == before.len()
    &&& after.skip(k as int) == before.skip(k as int)
    &&& enc(after.take(k as int)) == value
}

/// A byte order: how numbers are laid out in bytes.
pub trait ByteOrder {
    /// The unsigned number whose bytes, in this order, are `bytes`.
    spec fn value(bytes: Seq<u8>) -> nat;

    /// Reads an unsigned 16 bit integer from the first 2 bytes of `buf`.
    fn read_u16(buf: &[u8]) -> (r: u16)
        requires buf@.len() >= 2,
        ensures r == Self::value(buf@.take(2)),
    ;

    /// Reads an unsigned 32 bit integer from the first 4 bytes of `buf`.
    fn read_u32(buf: &[u8]) -> (r: u32)
        requires buf@.len() >= 4,
        ensures r == Self::value(buf@.take(4)),
    ;

    /// Reads an unsigned 64 bit integer from the first 8 bytes of `buf`.
    fn read_u64(buf: &[u8]) -> (r: u64)
        requires buf@.len() >= 8,
        ensures r == Self::value(buf@.take(8)),
    ;

    /// Reads a signed 16 bit integer from the first 2 bytes of `buf`.
    fn read_i16(buf: &[u8]) -> (r: i16)
        requires buf@.len() >= 2,
        ensures r == (Self::value(buf@.take(2)) as u16) as i16,
    ;

    /// Reads a signed 32 bit integer from the first 4 bytes of `buf`.
    fn read_i32(buf: &[u8]) -> (r: i32)
        requires buf@.len() >= 4,
        ensures r == (Self::value(buf@.take(4)) as u32) as i32,
    ;

    /// Reads a signed 64 bit integer from the first 8 bytes of `buf`.
    fn read_i64(buf: &[u8]) -> (r: i64)
        requires buf@.len() >= 8,
        ensures r == (Self::value(buf@.take(8)) as u64) as i64,
    ;

    /// Writes an unsigned 16 bit integer into the first 2 bytes of `buf`.
    fn write_u16(buf: &mut [u8], n: u16)
        requires old(buf)@.len() >= 2,
        ensures number_written(old(buf)@, final(buf)@, 2, n as nat, |b: Seq<u8>| Self::value(b)),
    ;

    /// Writes an unsigned 32 bit integer into the first 4 bytes of `buf`.
    fn write_u32(buf: &mut [u8], n: u32)
        requires old(buf)@.len() >= 4,
        ensures number_written(old(buf)@, final(buf)@, 4, n as nat, |b: Seq<u8>| Self::value(b)),
    ;

    /// Writes an unsigned 64 bit integer into the first 8 bytes of `buf`.
    fn write_u64(buf: &mut [u8], n: u64)
        requires old(buf)@.len() >= 8,
        ensures number_written(old(buf)@, final(buf)@, 8, n as nat, |b: Seq<u8>| Self::value(b)),
    ;

    /// Writes a signed 16 bit integer into the first 2 bytes of `buf`.
    fn write_i16(buf: &mut [u8], n: i16)
        requires old(buf)@.len() >= 2,
        ensures number_written(old(buf)@, final(buf)@, 2, twos_complement(n as int, 2), |b: Seq<u8>| Self::value(b)),
    ;

    /// Writes a signed 32 bit integer into the first 4 bytes of `buf`.
    fn write_i32(buf: &mut [u8], n: i32)
        requires old(buf)@.len() >= 4,
        ensures number_written(old(buf)@, final(buf)@, 4, twos_complement(n as int, 4), |b: Seq<u8>| Self::value(b)),
    ;

    /// Writes a signed 64 bit integer into the first 8 bytes of `buf`.
    fn write_i64(buf: &mut [u8], n: i64)
        requires old(buf)@.len() >= 8,
        ensures number_written(old(buf)@, final(buf)@, 8, twos_complement(n as int, 8), |b: Seq<u8>| Self::value(b)),
    ;

    /// Writes an unsigned integer into the first `nbytes` bytes of `buf`.
    ///
    /// `n` must be representable in `nbytes` bytes, and `nbytes` at most 8.
    fn write_uint(buf: &mut [u8], n: u64, nbytes: usize)
        requires
            1 <= nbytes <= 8,
            nbytes <= old(buf)@.len(),
            n < byte_range(nbytes as nat),
        ensures number_written(old(buf)@, final(buf)@, nbytes as nat, n as nat, |b: Seq<u8>| Self::value(b)),
    ;

    /// Writes a signed integer into the first `nbytes` bytes of `buf`.
    ///
    /// `n` must be representable in `nbytes` bytes, and `nbytes` at most 8.
    fn write_int(buf: &mut [u8], n: i64, nbytes: usize)
        requires
            1 <= nbytes <= 8,
            nbytes <= old(buf)@.len(),
            -(byte_range(nbytes as nat) / 2) <= n < byte_range(nbytes as nat) / 2,
        ensures number_written(old(buf)@, final(buf)@, nbytes as nat, twos_complement(n as int, nbytes as nat), |b: Seq<u8>| Self::value(b)),
    ;
}

/// `<BigEndian as byteorder::ByteOrder>::read_u16`: the number whose big-endian bytes are the first 2
/// of `buf`.
#[verifier::external_body]
fn be_read_u16(buf: &[u8]) -> (r: u16)
    requires buf@.len() >= 2,
    ensures r == be_value(buf@.take(2)),
{
    <BigEndian as byteorder::ByteOrder>::read_u16(buf)
}

/// `<BigEndian as byteorder::ByteOrder>::read_i16`: the unsigned number read from the first 2
/// bytes, reinterpreted as signed.
#[verifier::external_body]
fn be_read_i16(buf: &[u8]) -> (r: i16)
    requires buf@.len() >= 2,
    ensures r == (be_value(buf@.take(2)) as u16) as i16,
{
    <BigEndian as byteorder::ByteOrder>::read_i16(buf)
}

/// `<BigEndian as byteorder::ByteOrder>::write_u16`: the first 2 bytes of `buf` become the
/// big-endian bytes of `n`; the rest is kept.
#[verifier::external_body]
fn be_write_u16(buf: &mut [u8], n: u16)
    requires old(buf)@.len() >= 2,
    ensures number_written(old(buf)@, final(buf)@, 2, n as nat, |b: Seq<u8>| be_value(b)),
{
    <BigEndian as byteorder::ByteOrder>::write_u16(buf, n)
}

/// `<BigEndian as byteorder::ByteOrder>::write_i16`: the first 2 bytes of `buf` become the
/// big-endian two's complement bytes of `n`; the rest is kept.
#[verifier::external_body]
fn be_write_i16(buf: &mut [u8], n: i16)
    requires old(buf)@.len() >= 2,
    ensures number_written(old(buf)@, final(buf)@, 2, twos_complement(n as int, 2), |b: Seq<u8>| be_value(b)),
{
    <BigEndian as byteorder::ByteOrder>::write_i16(buf, n)
}

/// `<BigEndian as byteorder::ByteOrder>::read_u32`: the number whose big-endian bytes are the first 4
/// of `buf`.
#[verifier::external_body]
fn be_read_u32(buf: &[u8]) -> (r: u32)
    requires buf@.len() >= 4,
    ensures r == be_value(buf@.take(4)),
{
    <BigEndian as byteorder::ByteOrder>::read_u32(buf)
}

/// `<BigEndian as byteorder::ByteOrder>::read_i32`: the unsigned number read from the first 4
/// bytes, reinterpreted as signed.
#[verifier::external_body]
fn be_read_i32(buf: &[u8]) -> (r: i32)
    requires buf@.len() >= 4,
    ensures r == (be_value(buf@.take(4)) as u32) as i32,
{
    <BigEndian as byteorder::ByteOrder>::read_i32(buf)
}

/// `<BigEndian as byteorder::ByteOrder>::write_u32`: the first 4 bytes of `buf` become the
/// big-endian bytes of `n`; the rest is kept.
#[verifier::external_body]
fn be_write_u32(buf: &mut [u8], n: u32)
    requires old(buf)@.len() >= 4,
    ensures number_written(old(buf)@, final(buf)@, 4, n as nat, |b: Seq<u8>| be_value(b)),
{
    <BigEndian as byteorder::ByteOrder>::write_u32(buf, n)
}

/// `<BigEndian as byteorder::ByteOrder>::write_i32`: the first 4 bytes of `buf` become the
/// big-endian two's complement bytes of `n`; the rest is kept.
#[verifier::external_body]
fn be_write_i32(buf: &mut [u8], n: i32)
    requires old(buf)@.len() >= 4,
    ensures number_written(old(buf)@, final(buf)@, 4, twos_complement(n as int, 4), |b: Seq<u8>| be_value(b)),
{
    <BigEndian as byteorder::ByteOrder>::write_i32(buf, n)
}

/// `<BigEndian as byteorder::ByteOrder>::read_u64`: the number whose big-endian bytes are the first 8
/// of `buf`.
#[verifier::external_body]
fn be_read_u64(buf: &[u8]) -> (r: u64)
    requires buf@.len() >= 8,
    ensures r == be_value(buf@.take(8)),
{
    <BigEndian as byteorder::ByteOrder>::read_u64(buf)
}

/// `<BigEndian as byteorder::ByteOrder>::read_i64`: the unsigned number read from the first 8
/// bytes, reinterpreted as signed.
#[verifier::external_body]
fn be_read_i64(buf: &[u8]) -> (r: i64)
    requires buf@.len() >= 8,
    ensures r == (be_value(buf@.take(8)) as u64) as i64,
{
    <BigEndian as byteorder::ByteOrder>::read_i64(buf)
}

/// `<BigEndian as byteorder::ByteOrder>::write_u64`: the first 8 bytes of `buf` become the
/// big-endian bytes of `n`; the rest is kept.
#[verifier::external_body]
fn be_write_u64(buf: &mut [u8], n: u64)
    requires old(buf)@.len() >= 8,
    ensures number_written(old(buf)@, final(buf)@, 8, n as nat, |b: Seq<u8>| be_value(b)),
{
    <BigEndian as byteorder::ByteOrder>::write_u64(buf, n)
}

/// `<BigEndian as byteorder::ByteOrder>::write_i64`: the first 8 bytes of `buf` become the
/// big-endian two's complement bytes of `n`; the rest is kept.
#[verifier::external_body]
fn be_write_i64(buf: &mut [u8], n: i64)
    requires old(buf)@.len() >= 8,
    ensures number_written(old(buf)@, final(buf)@, 8, twos_complement(n as int, 8), |b: Seq<u8>| be_value(b)),
{
    <BigEndian as byteorder::ByteOrder>::write_i64(buf, n)
}

/// `<BigEndian as byteorder::ByteOrder>::write_uint`: the first `nbytes` bytes of `buf` become the
/// big-endian bytes of `n`; the rest is kept. It panics unless `n` fits in `nbytes` bytes and
/// `nbytes` is between 1 and 8, which `requires` excludes.
#[verifier::external_body]
fn be_write_uint(buf: &mut [u8], n: u64, nbytes: usize)
    requires
        1 <= nbytes <= 8,
        nbytes <= old(buf)@.len(),
        n < byte_range(nbytes as nat),
    ensures number_written(old(buf)@, final(buf)@, nbytes as nat, n as nat, |b: Seq<u8>| be_value(b)),
{
    <BigEndian as byteorder::ByteOrder>::write_uint(buf, n, nbytes)
}

/// `<BigEndian as byteorder::ByteOrder>::write_int`: the first `nbytes` bytes of `buf` become the
/// big-endian two's complement bytes of `n`; the rest is kept. `requires` keeps `n` representable
/// in `nbytes` bytes, and `nbytes` between 1 and 8, as its documentation demands.
#[verifier::external_body]
fn be_write_int(buf: &mut [u8], n: i64, nbytes: usize)
    requires
        1 <= nbytes <= 8,
        nbytes <= old(buf)@.len(),
        -(byte_range(nbytes as nat) / 2) <= n < byte_range(nbytes as nat) / 2,
    ensures number_written(old(buf)@, final(buf)@, nbytes as nat, twos_complement(n as int, nbytes as nat), |b: Seq<u8>| be_value(b)),
{
    <BigEndian as byteorder::ByteOrder>::write_int(buf, n, nbytes)
}

impl ByteOrder for BigEndian {
    open spec fn value(bytes: Seq<u8>) -> nat {
        be_value(bytes)
    }

    fn read_u16(buf: &[u8]) -> (r: u16) {
        be_read_u16(buf)
    }

    fn read_i16(buf: &[u8]) -> (r: i16) {
        be_read_i16(buf)
    }

    fn write_u16(buf: &mut [u8], n: u16) {
        be_write_u16(buf, n)
    }

    fn write_i16(buf: &mut [u8], n: i16) {
        be_write_i16(buf, n)
    }

    fn read_u32(buf: &[u8]) -> (r: u32) {
        be_read_u32(buf)
    }

    fn read_i32(buf: &[u8]) -> (r: i32) {
        be_read_i32(buf)
    }

    fn write_u32(buf: &mut [u8], n: u32) {
        be_write_u32(buf, n)
    }

    fn write_i32(buf: &mut [u8], n: i32) {
        be_write_i32(buf, n)
    }

    fn read_u64(buf: &[u8]) -> (r: u64) {
        be_read_u64(buf)
    }

    fn read_i64(buf: &[u8]) -> (r: i64) {
        be_read_i64(buf)
    }

    fn write_u64(buf: &mut [u8], n: u64) {
        be_write_u64(buf, n)
    }

    fn write_i64(buf: &mut [u8], n: i64) {
        be_write_i64(buf, n)
    }

    fn write_uint(buf: &mut [u8], n: u64, nbytes: usize) {
        be_write_uint(buf, n, nbytes)
    }

    fn write_int(buf: &mut [u8], n: i64, nbytes: usize) {
        be_write_int(buf, n, nbytes)
    }
}

/// `<LittleEndian as byteorder::ByteOrder>::read_u16`: the number whose little-endian bytes are the first 2
/// of `buf`.
#[verifier::external_body]
fn le_read_u16(buf: &[u8]) -> (r: u16)
    requires buf@.len() >= 2,
    ensures r == le_value(buf@.take(2)),
{
    <LittleEndian as byteorder::ByteOrder>::read_u16(buf)
}

/// `<LittleEndian as byteorder::ByteOrder>::read_i16`: the unsigned number read from the first 2
/// bytes, reinterpreted as signed.
#[verifier::external_body]
fn le_read_i16(buf: &[u8]) -> (r: i16)
    requires buf@.len() >= 2,
    ensures r == (le_value(buf@.take(2)) as u16) as i16,
{
    <LittleEndian as byteorder::ByteOrder>::read_i16(buf)
}

/// `<LittleEndian as byteorder::ByteOrder>::write_u16`: the first 2 bytes of `buf` become the
/// little-endian bytes of `n`; the rest is kept.
#[verifier::external_body]
fn le_write_u16(buf: &mut [u8], n: u16)
    requires old(buf)@.len() >= 2,
    ensures number_written(old(buf)@, final(buf)@, 2, n as nat, |b: Seq<u8>| le_value(b)),
{
    <LittleEndian as byteorder::ByteOrder>::write_u16(buf, n)
}

/// `<LittleEndian as byteorder::ByteOrder>::write_i16`: the first 2 bytes of `buf` become the
/// little-endian two's complement bytes of `n`; the rest is kept.
#[verifier::external_body]
fn le_write_i16(buf: &mut [u8], n: i16)
    requires old(buf)@.len() >= 2,
    ensures number_written(old(buf)@, final(buf)@, 2, twos_complement(n as int, 2), |b: Seq<u8>| le_value(b)),
{
    <LittleEndian as byteorder::ByteOrder>::write_i16(buf, n)
}

/// `<LittleEndian as byteorder::ByteOrder>::read_u32`: the number whose little-endian bytes are the first 4
/// of `buf`.
#[verifier::external_body]
fn le_read_u32(buf: &[u8]) -> (r: u32)
    requires buf@.len() >= 4,
    ensures r == le_value(buf@.take(4)),
{
    <LittleEndian as byteorder::ByteOrder>::read_u32(buf)
}

/// `<LittleEndian as byteorder::ByteOrder>::read_i32`: the unsigned number read from the first 4
/// bytes, reinterpreted as signed.
#[verifier::external_body]
fn le_read_i32(buf: &[u8]) -> (r: i32)
    requires buf@.len() >= 4,
    ensures r == (le_value(buf@.take(4)) as u32) as i32,
{
    <LittleEndian as byteorder::ByteOrder>::read_i32(buf)
}

/// `<LittleEndian as byteorder::ByteOrder>::write_u32`: the first 4 bytes of `buf` become the
/// little-endian bytes of `n`; the rest is kept.
#[verifier::external_body]
fn le_write_u32(buf: &mut [u8], n: u32)
    requires old(buf)@.len() >= 4,
    ensures number_written(old(buf)@, final(buf)@, 4, n as nat, |b: Seq<u8>| le_value(b)),
{
    <LittleEndian as byteorder::ByteOrder>::write_u32(buf, n)
}

/// `<LittleEndian as byteorder::ByteOrder>::write_i32`: the first 4 bytes of `buf` become the
/// little-endian two's complement bytes of `n`; the rest is kept.
#[verifier::external_body]
fn le_write_i32(buf: &mut [u8], n: i32)
    requires old(buf)@.len() >= 4,
    ensures number_written(old(buf)@, final(buf)@, 4, twos_complement(n as int, 4), |b: Seq<u8>| le_value(b)),
{
    <LittleEndian as byteorder::ByteOrder>::write_i32(buf, n)
}

/// `<LittleEndian as byteorder::ByteOrder>::read_u64`: the number whose little-endian bytes are the first 8
/// of `buf`.
#[verifier::external_body]
fn le_read_u64(buf: &[u8]) -> (r: u64)
    requires buf@.len() >= 8,
    ensures r == le_value(buf@.take(8)),
{
    <LittleEndian as byteorder::ByteOrder>::read_u64(buf)
}

/// `<LittleEndian as byteorder::ByteOrder>::read_i64`: the unsigned number read from the first 8
/// bytes, reinterpreted as signed.
#[verifier::external_body]
fn le_read_i64(buf: &[u8]) -> (r: i64)
    requires buf@.len() >= 8,
    ensures r == (le_value(buf@.take(8)) as u64) as i64,
{
    <LittleEndian as byteorder::ByteOrder>::read_i64(buf)
}

/// `<LittleEndian as byteorder::ByteOrder>::write_u64`: the first 8 bytes of `buf` become the
/// little-endian bytes of `n`; the rest is kept.
#[verifier::external_body]
fn le_write_u64(buf: &mut [u8], n: u64)
    requires old(buf)@.len() >= 8,
    ensures number_written(old(buf)@, final(buf)@, 8, n as nat, |b: Seq<u8>| le_value(b)),
{
    <LittleEndian as byteorder::ByteOrder>::write_u64(buf, n)
}

/// `<LittleEndian as byteorder::ByteOrder>::write_i64`: the first 8 bytes of `buf` become the
/// little-endian two's complement bytes of `n`; the rest is kept.
#[verifier::external_body]
fn le_write_i64(buf: &mut [u8], n: i64)
    requires old(buf)@.len() >= 8,
    ensures number_written(old(buf)@, final(buf)@, 8, twos_complement(n as int, 8), |b: Seq<u8>| le_value(b)),
{
    <LittleEndian as byteorder::ByteOrder>::write_i64(buf, n)
}

/// `<LittleEndian as byteorder::ByteOrder>::write_uint`: the first `nbytes` bytes of `buf` become the
/// little-endian bytes of `n`; the rest is kept. It panics unless `n` fits in `nbytes` bytes and
/// `nbytes` is between 1 and 8, which `requires` excludes.
#[verifier::external_body]
fn le_write_uint(buf: &mut [u8], n: u64, nbytes: usize)
    requires
        1 <= nbytes <= 8,
        nbytes <= old(buf)@.len(),
        n < byte_range(nbytes as nat),
    ensures number_written(old(buf)@, final(buf)@, nbytes as nat, n as nat, |b: Seq<u8>| le_value(b)),
{
    <LittleEndian as byteorder::ByteOrder>::write_uint(buf, n, nbytes)
}

/// `<LittleEndian as byteorder::ByteOrder>::write_int`: the first `nbytes` bytes of `buf` become the
/// little-endian two's complement bytes of `n`; the rest is kept. `requires` keeps `n` representable
/// in `nbytes` bytes, and `nbytes` between 1 and 8, as its documentation demands.
#[verifier::external_body]
fn le_write_int(buf: &mut [u8], n: i64, nbytes: usize)
    requires
        1 <= nbytes <= 8,
        nbytes <= old(buf)@.len(),
        -(byte_range(nbytes as nat) / 2) <= n < byte_range(nbytes as nat) / 2,
    ensures number_written(old(buf)@, final(buf)@, nbytes as nat, twos_complement(n as int, nbytes as nat), |b: Seq<u8>| le_value(b)),
{
    <LittleEndian as byteorder::ByteOrder>::write_int(buf, n, nbytes)
}

impl ByteOrder for LittleEndian {
    open spec fn value(bytes: Seq<u8>) -> nat {
        le_value(bytes)
    }

    fn read_u16(buf: &[u8]) -> (r: u16) {
        le_read_u16(buf)
    }

    fn read_i16(buf: &[u8]) -> (r: i16) {
        le_read_i16(buf)
    }

    fn write_u16(buf: &mut [u8], n: u16) {
        le_write_u16(buf, n)
    }

    fn write_i16(buf: &mut [u8], n: i16) {
        le_write_i16(buf, n)
    }

    fn read_u32(buf: &[u8]) -> (r: u32) {
        le_read_u32(buf)
    }

    fn read_i32(buf: &[u8]) -> (r: i32) {
        le_read_i32(buf)
    }

    fn write_u32(buf: &mut [u8], n: u32) {
        le_write_u32(buf, n)
    }

    fn write_i32(buf: &mut [u8], n: i32) {
        le_write_i32(buf, n)
    }

    fn read_u64(buf: &[u8]) -> (r: u64) {
        le_read_u64(buf)
    }

    fn read_i64(buf: &[u8]) -> (r: i64) {
        le_read_i64(buf)
    }

    fn write_u64(buf: &mut [u8], n: u64) {
        le_write_u64(buf, n)
    }

    fn write_i64(buf: &mut [u8], n: i64) {
        le_write_i64(buf, n)
    }

    fn write_uint(buf: &mut [u8], n: u64, nbytes: usize) {
        le_write_uint(buf, n, nbytes)
    }

    fn write_int(buf: &mut [u8], n: i64, nbytes: usize) {
        le_write_int(buf, n, nbytes)
    }
}

/// What writing a `k`-byte number appends, reading a `k`-byte number in the same byte order
/// gives back: the value decoded from the appended bytes is the value written.
pub proof fn number_roundtrip<BO: ByteOrder>(before: Seq<u8>, after: Seq<u8>, k: nat, value: nat)
    requires
        crate::number_appended::<BO>(before, after, k, value),
    ensures
        after.skip(before.len() as int).len() == k,
        BO::value(after.skip(before.len() as int).take(k as int)) == value,
{
    let appended = after.skip(before.len() as int);
    assert(appended.take(k as int) =~= appended);
}

} // verus!
