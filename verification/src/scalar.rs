//! Little-endian scalars, the atoms of the capture format.
//!
//! Every integer of the file goes through binrw's `BinRead` and `BinWrite`
//! impls for the primitive types. Those calls are the only unverified code
//! of the crate; each one sits in a small function of its own whose contract
//! says, over the spec functions below, which bytes it consumes or produces.
use vstd::prelude::*;
use vstd::slice::slice_subrange;
use crate::error::FormatError;

verus! {

/// binrw's error type, carried opaquely from a failed read to the place
/// where it is turned into a [`FormatError`].
#[verifier::external_type_specification]
#[verifier::external_body]
pub struct ExBinrwError(binrw::Error);

/// The value of four bytes read as a little-endian `u32`: the first byte
/// counts least.
pub open spec fn u32_from_le_bytes(s: Seq<u8>) -> u32
    recommends
        s.len() == 4,
{
    (s[0] + 0x100 * s[1] + 0x1_0000 * s[2] + 0x100_0000 * s[3]) as u32
}

/// The four bytes of a `u32`, least significant first.
pub open spec fn u32_to_le_bytes(v: u32) -> Seq<u8> {
    seq![
        (v % 0x100) as u8,
        (v / 0x100 % 0x100) as u8,
        (v / 0x1_0000 % 0x100) as u8,
        (v / 0x100_0000 % 0x100) as u8,
    ]
}

/// The value of four bytes read as a little-endian `i32`, in two's
/// complement.
pub open spec fn i32_from_le_bytes(s: Seq<u8>) -> i32
    recommends
        s.len() == 4,
{
    let u = u32_from_le_bytes(s);
    if u < 0x8000_0000 {
        u as i32
    } else {
        (u - 0x1_0000_0000) as i32
    }
}

/// The four bytes of the two's complement of an `i32`, least significant
/// first.
pub open spec fn i32_to_le_bytes(v: i32) -> Seq<u8> {
    if v >= 0 {
        u32_to_le_bytes(v as u32)
    } else {
        u32_to_le_bytes((v + 0x1_0000_0000) as u32)
    }
}

/// The value of eight bytes read as a little-endian `u64`: the first byte
/// counts least.
pub open spec fn u64_from_le_bytes(s: Seq<u8>) -> u64
    recommends
        s.len() == 8,
{
    (s[0] + 0x100 * s[1] + 0x1_0000 * s[2] + 0x100_0000 * s[3] + 0x1_0000_0000 * s[4]
        + 0x100_0000_0000 * s[5] + 0x1_0000_0000_0000 * s[6] + 0x100_0000_0000_0000 * s[7]) as u64
}

/// The eight bytes of a `u64`, least significant first.
pub open spec fn u64_to_le_bytes(v: u64) -> Seq<u8> {
    seq![
        (v % 0x100) as u8,
        (v / 0x100 % 0x100) as u8,
        (v / 0x1_0000 % 0x100) as u8,
        (v / 0x100_0000 % 0x100) as u8,
        (v / 0x1_0000_0000 % 0x100) as u8,
        (v / 0x100_0000_0000 % 0x100) as u8,
        (v / 0x1_0000_0000_0000 % 0x100) as u8,
        (v / 0x100_0000_0000_0000 % 0x100) as u8,
    ]
}

/// The `u32` stored at offset `at` of `b`.
pub open spec fn u32_at(b: Seq<u8>, at: int) -> u32
    recommends
        0 <= at,
        at + 4 <= b.len(),
{
    u32_from_le_bytes(b.subrange(at, at + 4))
}

/// The `i32` stored at offset `at` of `b`.
pub open spec fn i32_at(b: Seq<u8>, at: int) -> i32
    recommends
        0 <= at,
        at + 4 <= b.len(),
{
    i32_from_le_bytes(b.subrange(at, at + 4))
}

/// The `u64` stored at offset `at` of `b`.
pub open spec fn u64_at(b: Seq<u8>, at: int) -> u64
    recommends
        0 <= at,
        at + 8 <= b.len(),
{
    u64_from_le_bytes(b.subrange(at, at + 8))
}

/// The bytes of a `u32` read back give the `u32`.
pub proof fn lemma_u32_round_trip(v: u32)
    ensures
        u32_to_le_bytes(v).len() == 4,
        u32_from_le_bytes(u32_to_le_bytes(v)) == v,
{
}

/// The bytes of an `i32` read back give the `i32`.
pub proof fn lemma_i32_round_trip(v: i32)
    ensures
        i32_to_le_bytes(v).len() == 4,
        i32_from_le_bytes(i32_to_le_bytes(v)) == v,
{
    if v >= 0 {
        lemma_u32_round_trip(v as u32);
    } else {
        lemma_u32_round_trip((v + 0x1_0000_0000) as u32);
    }
}

/// The bytes of a `u64` read back give the `u64`.
pub proof fn lemma_u64_round_trip(v: u64)
    ensures
        u64_to_le_bytes(v).len() == 8,
        u64_from_le_bytes(u64_to_le_bytes(v)) == v,
{
    let q1 = v / 0x100;
    let q2 = q1 / 0x100;
    let q3 = q2 / 0x100;
    let q4 = q3 / 0x100;
    let q5 = q4 / 0x100;
    let q6 = q5 / 0x100;
    let q7 = q6 / 0x100;
    assert(q2 == v / 0x1_0000);
    assert(q3 == v / 0x100_0000);
    assert(q4 == v / 0x1_0000_0000);
    assert(q5 == v / 0x100_0000_0000);
    assert(q6 == v / 0x1_0000_0000_0000);
    assert(q7 == v / 0x100_0000_0000_0000);
    assert(q7 < 0x100);
}

/// Calls binrw's `BinReaderExt::read_le` for `u32` on a cursor over `src`.
///
/// Trusted: the read succeeds exactly when `src` holds at least four bytes,
/// and then yields the little-endian value of the first four.
#[verifier::external_body]
fn read_u32_le(src: &[u8]) -> (r: Result<u32, binrw::Error>)
    ensures
        r is Ok <==> src@.len() >= 4,
        r is Ok ==> r->Ok_0 == u32_from_le_bytes(src@.subrange(0, 4)),
{
    binrw::BinReaderExt::read_le(&mut binrw::io::Cursor::new(src))
}

/// Calls binrw's `BinReaderExt::read_le` for `i32` on a cursor over `src`.
///
/// Trusted: the read succeeds exactly when `src` holds at least four bytes,
/// and then yields the first four read as a little-endian two's complement
/// number.
#[verifier::external_body]
fn read_i32_le(src: &[u8]) -> (r: Result<i32, binrw::Error>)
    ensures
        r is Ok <==> src@.len() >= 4,
        r is Ok ==> r->Ok_0 == i32_from_le_bytes(src@.subrange(0, 4)),
{
    binrw::BinReaderExt::read_le(&mut binrw::io::Cursor::new(src))
}

/// Calls binrw's `BinReaderExt::read_le` for `u64` on a cursor over `src`.
///
/// Trusted: the read succeeds exactly when `src` holds at least eight
/// bytes, and then yields the little-endian value of the first eight.
#[verifier::external_body]
fn read_u64_le(src: &[u8]) -> (r: Result<u64, binrw::Error>)
    ensures
        r is Ok <==> src@.len() >= 8,
        r is Ok ==> r->Ok_0 == u64_from_le_bytes(src@.subrange(0, 8)),
{
    binrw::BinReaderExt::read_le(&mut binrw::io::Cursor::new(src))
}

/// Calls binrw's `BinWriterExt::write_le` for `u32` on `out`, which binrw
/// reaches through its `NoSeek` adapter.
///
/// Trusted: the four little-endian bytes of `v` are appended to `out`, and
/// the write reports success, appending to a vector being infallible.
#[verifier::external_body]
fn write_u32_le(out: &mut Vec<u8>, v: u32) -> (r: Result<(), binrw::Error>)
    ensures
        r is Ok,
        final(out)@ == old(out)@ + u32_to_le_bytes(v),
{
    binrw::BinWriterExt::write_le(&mut binrw::io::NoSeek::new(out), &v)
}

/// Calls binrw's `BinWriterExt::write_le` for `i32` on `out`, which binrw
/// reaches through its `NoSeek` adapter.
///
/// Trusted: the four bytes of the two's complement of `v`, least
/// significant first, are appended to `out`, and the write reports success.
#[verifier::external_body]
fn write_i32_le(out: &mut Vec<u8>, v: i32) -> (r: Result<(), binrw::Error>)
    ensures
        r is Ok,
        final(out)@ == old(out)@ + i32_to_le_bytes(v),
{
    binrw::BinWriterExt::write_le(&mut binrw::io::NoSeek::new(out), &v)
}

/// Calls binrw's `BinWriterExt::write_le` for `u64` on `out`, which binrw
/// reaches through its `NoSeek` adapter.
///
/// Trusted: the eight little-endian bytes of `v` are appended to `out`, and
/// the write reports success.
#[verifier::external_body]
fn write_u64_le(out: &mut Vec<u8>, v: u64) -> (r: Result<(), binrw::Error>)
    ensures
        r is Ok,
        final(out)@ == old(out)@ + u64_to_le_bytes(v),
{
    binrw::BinWriterExt::write_le(&mut binrw::io::NoSeek::new(out), &v)
}

/// Reads the `u32` at offset `at` of `bytes`, or reports that the buffer
/// ends too early.
pub fn get_u32(bytes: &[u8], at: usize) -> (r: Result<u32, FormatError>)
    ensures
        at + 4 <= bytes@.len() ==> r == Ok::<u32, FormatError>(u32_at(bytes@, at as int)),
        at + 4 > bytes@.len() ==> r == Err::<u32, FormatError>(FormatError::Truncated),
{
    if at > bytes.len() {
        return Err(FormatError::Truncated);
    }
    let rest = slice_subrange(bytes, at, bytes.len());
    match read_u32_le(rest) {
        Ok(v) => {
            assert(rest@.subrange(0, 4) =~= bytes@.subrange(at as int, at + 4));
            Ok(v)
        },
        Err(_) => Err(FormatError::Truncated),
    }
}

/// Reads the `i32` at offset `at` of `bytes`, or reports that the buffer
/// ends too early.
pub fn get_i32(bytes: &[u8], at: usize) -> (r: Result<i32, FormatError>)
    ensures
        at + 4 <= bytes@.len() ==> r == Ok::<i32, FormatError>(i32_at(bytes@, at as int)),
        at + 4 > bytes@.len() ==> r == Err::<i32, FormatError>(FormatError::Truncated),
{
    if at > bytes.len() {
        return Err(FormatError::Truncated);
    }
    let rest = slice_subrange(bytes, at, bytes.len());
    match read_i32_le(rest) {
        Ok(v) => {
            assert(rest@.subrange(0, 4) =~= bytes@.subrange(at as int, at + 4));
            Ok(v)
        },
        Err(_) => Err(FormatError::Truncated),
    }
}

/// Reads the `u64` at offset `at` of `bytes`, or reports that the buffer
/// ends too early.
pub fn get_u64(bytes: &[u8], at: usize) -> (r: Result<u64, FormatError>)
    ensures
        at + 8 <= bytes@.len() ==> r == Ok::<u64, FormatError>(u64_at(bytes@, at as int)),
        at + 8 > bytes@.len() ==> r == Err::<u64, FormatError>(FormatError::Truncated),
{
    if at > bytes.len() {
        return Err(FormatError::Truncated);
    }
    let rest = slice_subrange(bytes, at, bytes.len());
    match read_u64_le(rest) {
        Ok(v) => {
            assert(rest@.subrange(0, 8) =~= bytes@.subrange(at as int, at + 8));
            Ok(v)
        },
        Err(_) => Err(FormatError::Truncated),
    }
}

/// Appends the four little-endian bytes of `v` to `out`.
pub fn put_u32(out: &mut Vec<u8>, v: u32)
    ensures
        final(out)@ == old(out)@ + u32_to_le_bytes(v),
{
    // Never an error: the write appends to a vector.
    let _ = write_u32_le(out, v);
}

/// Appends the four little-endian bytes of `v` to `out`.
pub fn put_i32(out: &mut Vec<u8>, v: i32)
    ensures
        final(out)@ == old(out)@ + i32_to_le_bytes(v),
{
    // Never an error: the write appends to a vector.
    let _ = write_i32_le(out, v);
}

/// Appends the eight little-endian bytes of `v` to `out`.
pub fn put_u64(out: &mut Vec<u8>, v: u64)
    ensures
        final(out)@ == old(out)@ + u64_to_le_bytes(v),
{
    // Never an error: the write appends to a vector.
    let _ = write_u64_le(out, v);
}

} // verus!
