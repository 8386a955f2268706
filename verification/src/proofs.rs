//! What encoding and decoding have to do with each other.
//!
//! The lemmas climb the layout from the bottom: a part of a buffer, a
//! sequence of numbers, each capture kind, the tagged capture, and at last
//! the file, for which they state that decoding undoes encoding and that
//! the count fields always tell the truth.
use vstd::prelude::*;
use crate::analog::AnalogDataView;
use crate::binary64::{counted_wire, decode_counted, items_at, items_wire, Binary64};
use crate::digital::DigitalDataView;
use crate::error::FormatError;
use crate::export::{Data, DataView, SaleaeExport, SaleaeExportView, MAGIC};
use crate::state::State;
use crate::scalar::{
    i32_to_le_bytes, lemma_i32_round_trip, lemma_u32_round_trip, lemma_u64_round_trip, u32_at,
    u32_to_le_bytes, u64_at, u64_to_le_bytes,
};

verus! {

/// A buffer that holds `whole` at `at` holds each part of `whole` at the
/// part's offset from `at`.
pub proof fn lemma_part_in_place(b: Seq<u8>, at: int, whole: Seq<u8>, off: int, part: Seq<u8>)
    requires
        0 <= at,
        at + whole.len() <= b.len(),
        b.subrange(at, at + whole.len()) == whole,
        0 <= off,
        off + part.len() <= whole.len(),
        whole.subrange(off, off + part.len()) == part,
    ensures
        b.subrange(at + off, at + off + part.len()) == part,
{
    let got = b.subrange(at + off, at + off + part.len());
    assert forall|k: int| 0 <= k < part.len() implies got[k] == part[k] by {
        assert(b.subrange(at, at + whole.len())[off + k] == b[at + off + k]);
        assert(whole.subrange(off, off + part.len())[k] == whole[off + k]);
    }
    assert(got =~= part);
}

/// `n` numbers take `8 * n` bytes.
pub proof fn lemma_items_wire_len(s: Seq<Binary64>)
    ensures
        items_wire(s).len() == 8 * s.len(),
    decreases s.len(),
{
    if s.len() > 0 {
        lemma_items_wire_len(s.drop_last());
    }
}

/// The `i`-th number of a sequence is stored in its `i`-th group of eight
/// bytes.
pub proof fn lemma_items_wire_chunk(s: Seq<Binary64>, i: int)
    requires
        0 <= i < s.len(),
    ensures
        items_wire(s).len() == 8 * s.len(),
        items_wire(s).subrange(8 * i, 8 * i + 8) == u64_to_le_bytes(s[i].bits),
    decreases s.len(),
{
    let front = s.drop_last();
    lemma_items_wire_len(s);
    lemma_items_wire_len(front);
    let chunk = items_wire(s).subrange(8 * i, 8 * i + 8);
    if i == s.len() - 1 {
        assert(chunk =~= u64_to_le_bytes(s.last().bits));
    } else {
        lemma_items_wire_chunk(front, i);
        assert(chunk =~= items_wire(front).subrange(8 * i, 8 * i + 8));
    }
}

/// A count-prefixed sequence takes eight bytes and eight more for each
/// number, and its first eight bytes hold the number of its items.
pub proof fn lemma_counted_wire_count(s: Seq<Binary64>)
    requires
        s.len() <= u64::MAX,
    ensures
        counted_wire(s).len() == 8 + 8 * s.len(),
        u64_at(counted_wire(s), 0) == s.len(),
{
    lemma_items_wire_len(s);
    lemma_u64_round_trip(s.len() as u64);
    assert(counted_wire(s).subrange(0, 8) =~= u64_to_le_bytes(s.len() as u64));
}

/// A buffer that holds the encoding of `s` at `at` decodes there to `s`.
pub proof fn lemma_counted_round_trip(b: Seq<u8>, at: int, s: Seq<Binary64>)
    requires
        s.len() <= u64::MAX,
        0 <= at,
        at + counted_wire(s).len() <= b.len(),
        b.subrange(at, at + counted_wire(s).len()) == counted_wire(s),
    ensures
        decode_counted(b, at) == Ok::<Seq<Binary64>, FormatError>(s),
{
    let whole = counted_wire(s);
    lemma_counted_wire_count(s);
    lemma_items_wire_len(s);
    assert(whole.subrange(0, 8) =~= u64_to_le_bytes(s.len() as u64));
    lemma_part_in_place(b, at, whole, 0, u64_to_le_bytes(s.len() as u64));
    lemma_u64_round_trip(s.len() as u64);
    assert(u64_at(b, at) == s.len());
    let got = items_at(b, at + 8, s.len());
    assert forall|i: int| 0 <= i < s.len() implies got[i] == s[i] by {
        let bytes = u64_to_le_bytes(s[i].bits);
        lemma_items_wire_chunk(s, i);
        lemma_u64_round_trip(s[i].bits);
        assert(whole.subrange(8 + 8 * i, 8 + 8 * i + 8) =~= items_wire(s).subrange(
            8 * i,
            8 * i + 8,
        ));
        lemma_part_in_place(b, at, whole, 8 + 8 * i, bytes);
        assert(b.subrange(at + 8 + 8 * i, at + 8 + 8 * i + 8) == bytes);
    }
    assert(got =~= s);
}

/// A digital capture takes 28 bytes and eight more for each transition.
pub proof fn lemma_digital_wire_len(d: DigitalDataView)
    requires
        d.transition_times.len() <= u64::MAX,
    ensures
        d.wire().len() == 28 + 8 * d.transition_times.len(),
{
    lemma_counted_wire_count(d.transition_times);
}

/// A buffer that holds the encoding of `d` at `at` decodes there to `d`.
pub proof fn lemma_digital_round_trip(b: Seq<u8>, at: int, d: DigitalDataView)
    requires
        d.transition_times.len() <= u64::MAX,
        0 <= at,
        at + d.wire().len() <= b.len(),
        b.subrange(at, at + d.wire().len()) == d.wire(),
    ensures
        DigitalDataView::decode(b, at) == Ok::<DigitalDataView, FormatError>(d),
{
    let whole = d.wire();
    let level = u32_to_le_bytes(d.initial_state.spec_to_wire());
    let begin = u64_to_le_bytes(d.begin_time.bits);
    let end = u64_to_le_bytes(d.end_time.bits);
    let times = counted_wire(d.transition_times);
    lemma_digital_wire_len(d);
    lemma_counted_wire_count(d.transition_times);
    lemma_u32_round_trip(d.initial_state.spec_to_wire());
    lemma_u64_round_trip(d.begin_time.bits);
    lemma_u64_round_trip(d.end_time.bits);
    assert(whole.subrange(0, 4) =~= level);
    assert(whole.subrange(4, 12) =~= begin);
    assert(whole.subrange(12, 20) =~= end);
    assert(whole.subrange(20, 20 + times.len() as int) =~= times);
    lemma_part_in_place(b, at, whole, 0, level);
    lemma_part_in_place(b, at, whole, 4, begin);
    lemma_part_in_place(b, at, whole, 12, end);
    lemma_part_in_place(b, at, whole, 20, times);
    lemma_counted_round_trip(b, at + 20, d.transition_times);
    d.initial_state.lemma_wire_round_trip();
}

/// Reading a level is lenient.
///
/// Whatever the four bytes of the level hold, they are read as a level:
/// as low when they hold `0`, as high when they hold anything else. A
/// digital capture is turned down only for ending too early.
pub proof fn lemma_level_is_never_rejected(b: Seq<u8>, at: int)
    ensures
        match DigitalDataView::decode(b, at) {
            Ok(d) => d.initial_state == (if u32_at(b, at) == 0 {
                State::Low
            } else {
                State::High
            }),
            Err(e) => e == FormatError::Truncated,
        },
{
}

/// An analog capture takes 32 bytes and eight more for each sample.
pub proof fn lemma_analog_wire_len(a: AnalogDataView)
    requires
        a.samples.len() <= u64::MAX,
    ensures
        a.wire().len() == 32 + 8 * a.samples.len(),
{
    lemma_counted_wire_count(a.samples);
}

/// A buffer that holds the encoding of `a` at `at` decodes there to `a`.
pub proof fn lemma_analog_round_trip(b: Seq<u8>, at: int, a: AnalogDataView)
    requires
        a.samples.len() <= u64::MAX,
        0 <= at,
        at + a.wire().len() <= b.len(),
        b.subrange(at, at + a.wire().len()) == a.wire(),
    ensures
        AnalogDataView::decode(b, at) == Ok::<AnalogDataView, FormatError>(a),
{
    let whole = a.wire();
    let begin = u64_to_le_bytes(a.begin_time.bits);
    let rate = u64_to_le_bytes(a.sample_rate);
    let downsample = u64_to_le_bytes(a.downsample);
    let samples = counted_wire(a.samples);
    lemma_analog_wire_len(a);
    lemma_counted_wire_count(a.samples);
    lemma_u64_round_trip(a.begin_time.bits);
    lemma_u64_round_trip(a.sample_rate);
    lemma_u64_round_trip(a.downsample);
    assert(whole.subrange(0, 8) =~= begin);
    assert(whole.subrange(8, 16) =~= rate);
    assert(whole.subrange(16, 24) =~= downsample);
    assert(whole.subrange(24, 24 + samples.len() as int) =~= samples);
    lemma_part_in_place(b, at, whole, 0, begin);
    lemma_part_in_place(b, at, whole, 8, rate);
    lemma_part_in_place(b, at, whole, 16, downsample);
    lemma_part_in_place(b, at, whole, 24, samples);
    lemma_counted_round_trip(b, at + 24, a.samples);
}

/// A tagged capture takes four bytes for the tag, then what the capture
/// takes.
pub proof fn lemma_data_wire_len(v: DataView)
    requires
        v.fits(),
    ensures
        v.wire().len() == v.count_offset() + 8 + 8 * v.sequence().len(),
{
    match v {
        DataView::Digital(d) => {
            lemma_digital_wire_len(d);
        },
        DataView::Analog(a) => {
            lemma_analog_wire_len(a);
        },
    }
}

/// A buffer that holds the encoding of `v` at `at` decodes there to `v`.
pub proof fn lemma_data_round_trip(b: Seq<u8>, at: int, v: DataView)
    requires
        v.fits(),
        0 <= at,
        at + v.wire().len() <= b.len(),
        b.subrange(at, at + v.wire().len()) == v.wire(),
    ensures
        DataView::decode(b, at) == Ok::<DataView, FormatError>(v),
{
    let whole = v.wire();
    let tag = u32_to_le_bytes(v.tag());
    lemma_data_wire_len(v);
    lemma_u32_round_trip(v.tag());
    assert(whole.subrange(0, 4) =~= tag);
    lemma_part_in_place(b, at, whole, 0, tag);
    assert(u32_at(b, at) == v.tag());
    match v {
        DataView::Digital(d) => {
            assert(whole.subrange(4, 4 + d.wire().len() as int) =~= d.wire());
            lemma_part_in_place(b, at, whole, 4, d.wire());
            lemma_digital_round_trip(b, at + 4, d);
        },
        DataView::Analog(a) => {
            assert(whole.subrange(4, 4 + a.wire().len() as int) =~= a.wire());
            lemma_part_in_place(b, at, whole, 4, a.wire());
            lemma_analog_round_trip(b, at + 4, a);
        },
    }
}

/// Decoding undoes encoding.
///
/// A file of version `0`, whatever capture it holds, however long and
/// with whatever bits in its numbers, is decoded from its own encoding as
/// the very value that was encoded, and bytes that follow the encoding do
/// not change that. Of another version the same cannot hold: the encoder
/// writes it, and the decoder turns it down.
pub proof fn lemma_decode_encoded(x: SaleaeExport, rest: Seq<u8>)
    requires
        x.version == 0,
    ensures
        SaleaeExportView::decode(x@.wire() + rest) == Ok::<SaleaeExportView, FormatError>(x@),
{
    let v = x@;
    assert(v.file_data.fits()) by {
        match x.file_data {
            Data::Digital(d) => {
                assert(d.transition_times.len() == d@.transition_times.len());
            },
            Data::Analog(a) => {
                assert(a.samples.len() == a@.samples.len());
            },
        }
    }
    lemma_view_decode_encoded(v, rest);
}

/// Decoding undoes encoding, stated of the views: the sequence of `v` has
/// to be one that a vector can hold.
pub proof fn lemma_view_decode_encoded(v: SaleaeExportView, rest: Seq<u8>)
    requires
        v.version == 0,
        v.file_data.fits(),
    ensures
        SaleaeExportView::decode(v.wire() + rest) == Ok::<SaleaeExportView, FormatError>(v),
{
    let whole = v.wire();
    let b = whole + rest;
    let version = i32_to_le_bytes(v.version);
    let data = v.file_data.wire();
    lemma_data_wire_len(v.file_data);
    lemma_i32_round_trip(v.version);
    assert(b.subrange(0, whole.len() as int) =~= whole);
    assert(whole.subrange(0, 8) =~= MAGIC@);
    assert(whole.subrange(8, 12) =~= version);
    assert(whole.subrange(12, 12 + data.len() as int) =~= data);
    lemma_part_in_place(b, 0, whole, 0, MAGIC@);
    lemma_part_in_place(b, 0, whole, 8, version);
    lemma_part_in_place(b, 0, whole, 12, data);
    lemma_data_round_trip(b, 12, v.file_data);
}

/// The encoder writes the true count.
///
/// In the encoding of a file the count field holds the length of the
/// sequence that was encoded, and the numbers after it are as many: the
/// encoding ends eight bytes after the count for each of them.
pub proof fn lemma_encoded_count(x: SaleaeExport)
    ensures
        u64_at(x@.wire(), 12 + x@.file_data.count_offset()) == x@.file_data.sequence().len(),
        x@.wire().len() == 12 + x@.file_data.count_offset() + 8 + 8
            * x@.file_data.sequence().len(),
{
    let v = x@;
    let s = v.file_data.sequence();
    match x.file_data {
        Data::Digital(d) => {
            assert(d.transition_times.len() == d@.transition_times.len());
        },
        Data::Analog(a) => {
            assert(a.samples.len() == a@.samples.len());
        },
    }
    let whole = v.wire();
    let at = 12 + v.file_data.count_offset();
    lemma_data_wire_len(v.file_data);
    lemma_i32_round_trip(v.version);
    lemma_counted_wire_count(s);
    lemma_items_wire_len(s);
    lemma_u64_round_trip(s.len() as u64);
    assert(whole.subrange(at, at + 8) =~= u64_to_le_bytes(s.len() as u64));
}

/// The decoder believes the count.
///
/// A buffer that decodes to a file states, in its count field, the length
/// of the sequence that is decoded from it: no more numbers and no fewer.
pub proof fn lemma_decoded_count(b: Seq<u8>)
    requires
        SaleaeExportView::decode(b) is Ok,
    ensures
        ({
            let v = SaleaeExportView::decode(b)->Ok_0;
            v.file_data.sequence().len() == u64_at(b, 12 + v.file_data.count_offset())
        }),
{
}

} // verus!
