//! Double-precision numbers as their bit patterns, and the count-prefixed
//! sequences of them that end both capture kinds.
use vstd::prelude::*;
use crate::error::{result_view, FormatError};
use crate::scalar::{get_u64, put_u64, u64_at, u64_to_le_bytes};

verus! {

/// An IEEE 754 double-precision number, held as its 64 bits.
///
/// The codec never computes with the timestamps and voltages of a capture;
/// it only moves them between memory and the file. Holding the bits keeps
/// every value, each NaN payload and the sign of zero included, exactly as
/// it was read. Two values are equal when their bits are.
#[derive(Debug, Clone, Copy, PartialEq, Eq, Hash, Structural)]
pub struct Binary64 {
    pub bits: u64,
}

impl Binary64 {
    /// The number with the given bit pattern.
    pub fn from_bits(bits: u64) -> (x: Binary64)
        ensures
            x.bits == bits,
    {
        Binary64 { bits }
    }

    /// The bit pattern of this number.
    pub fn to_bits(self) -> (bits: u64)
        ensures
            bits == self.bits,
    {
        self.bits
    }

    /// Positive zero, whose bits are all clear.
    pub open spec fn spec_zero() -> Binary64 {
        Binary64 { bits: 0 }
    }

    /// Positive zero, whose bits are all clear.
    #[verifier::when_used_as_spec(spec_zero)]
    pub fn zero() -> (x: Binary64)
        ensures
            x == Binary64::spec_zero(),
    {
        Binary64 { bits: 0 }
    }
}

/// The numbers of `s` laid end to end, eight little-endian bytes each.
pub open spec fn items_wire(s: Seq<Binary64>) -> Seq<u8>
    decreases s.len(),
{
    if s.len() == 0 {
        Seq::empty()
    } else {
        items_wire(s.drop_last()) + u64_to_le_bytes(s.last().bits)
    }
}

/// A sequence as the file stores it: its length as a `u64`, then its items.
/// The length is taken from the sequence itself, so the two cannot disagree.
pub open spec fn counted_wire(s: Seq<Binary64>) -> Seq<u8> {
    u64_to_le_bytes(s.len() as u64) + items_wire(s)
}

/// The `n` numbers stored from offset `at` of `b` on.
pub open spec fn items_at(b: Seq<u8>, at: int, n: nat) -> Seq<Binary64> {
    Seq::new(n, |i: int| Binary64 { bits: u64_at(b, at + 8 * i) })
}

/// The count-prefixed sequence stored at offset `at` of `b`: the count, then
/// exactly that many numbers. A buffer that ends before the count or before
/// the last number is truncated.
pub open spec fn decode_counted(b: Seq<u8>, at: int) -> Result<Seq<Binary64>, FormatError> {
    if at + 8 > b.len() {
        Err(FormatError::Truncated)
    } else if at + 8 + 8 * u64_at(b, at) > b.len() {
        Err(FormatError::Truncated)
    } else {
        Ok(items_at(b, at + 8, u64_at(b, at) as nat))
    }
}

/// Reads the count-prefixed sequence at offset `at` of `bytes`.
pub fn read_counted(bytes: &[u8], at: usize) -> (r: Result<Vec<Binary64>, FormatError>)
    ensures
        result_view(r) == decode_counted(bytes@, at as int),
{
    let n = get_u64(bytes, at)?;
    let len: usize = bytes.len();
    let start: usize = at + 8;
    let room: usize = (len - start) / 8;
    if n > room as u64 {
        return Err(FormatError::Truncated);
    }
    let count: usize = n as usize;
    let mut items: Vec<Binary64> = Vec::with_capacity(count);
    let mut i: usize = 0;
    while i < count
        invariant
            i <= count,
            count == n,
            start == at + 8,
            start + 8 * count <= len,
            len == bytes@.len(),
            items@ == items_at(bytes@, start as int, i as nat),
        decreases count - i,
    {
        let bits = get_u64(bytes, start + 8 * i)?;
        items.push(Binary64 { bits });
        assert(items@ =~= items_at(bytes@, start as int, (i + 1) as nat));
        i += 1;
    }
    Ok(items)
}

/// Appends `s` to `out` as the file stores it: its length, then its items.
pub fn write_counted(out: &mut Vec<u8>, s: &Vec<Binary64>)
    ensures
        final(out)@ == old(out)@ + counted_wire(s@),
{
    put_u64(out, s.len() as u64);
    let mut i: usize = 0;
    while i < s.len()
        invariant
            i <= s@.len(),
            out@ == old(out)@ + u64_to_le_bytes(s@.len() as u64) + items_wire(s@.take(i as int)),
        decreases s@.len() - i,
    {
        put_u64(out, s[i].bits);
        proof {
            let next = s@.take(i + 1);
            assert(next.drop_last() =~= s@.take(i as int));
            assert(next.last() == s@[i as int]);
        }
        i += 1;
    }
    assert(s@.take(i as int) =~= s@);
}

} // verus!
