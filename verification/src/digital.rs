//! Digital captures: an initial level and the times at which it flips.
use vstd::prelude::*;
use crate::binary64::{counted_wire, decode_counted, read_counted, write_counted, Binary64};
use crate::error::{result_view, FormatError};
use crate::scalar::{get_u32, get_u64, put_u32, put_u64, u32_at, u32_to_le_bytes, u64_at, u64_to_le_bytes};
use crate::state::State;

verus! {

/// A digital capture.
///
/// The signal starts at `initial_state` and flips at each of
/// `transition_times`, in order: it holds the initial level up to the first
/// of them, the other level up to the second, and so on.
#[derive(Debug, Clone, PartialEq)]
pub struct DigitalData {
    /// The level at which the capture starts.
    pub initial_state: State,
    pub begin_time: Binary64,
    pub end_time: Binary64,
    /// The times at which the level flips.
    pub transition_times: Vec<Binary64>,
}

/// A digital capture as the specifications see it.
pub struct DigitalDataView {
    pub initial_state: State,
    pub begin_time: Binary64,
    pub end_time: Binary64,
    pub transition_times: Seq<Binary64>,
}

impl View for DigitalData {
    type V = DigitalDataView;

    open spec fn view(&self) -> DigitalDataView {
        DigitalDataView {
            initial_state: self.initial_state,
            begin_time: self.begin_time,
            end_time: self.end_time,
            transition_times: self.transition_times@,
        }
    }
}

/// One stretch of constant level: the level, and the two times between
/// which it holds. Its length is `end` less `begin`, a subtraction that is
/// left to the caller, who has the floating-point unit.
#[derive(Debug, Clone, Copy, PartialEq, Eq, Structural)]
pub struct Sample {
    pub is_high: bool,
    pub begin: Binary64,
    pub end: Binary64,
}

/// The `i`-th stretch of a signal that starts at level `initial` and flips
/// at each of `times`: it ends at `times[i]`, begins at the flip before, or
/// at zero if there is none, and is at the initial level when `i` is even.
pub open spec fn stretch(times: Seq<Binary64>, initial: bool, i: int) -> Sample
    recommends
        0 <= i < times.len(),
{
    Sample {
        is_high: initial != (i % 2 == 1),
        begin: if i == 0 {
            Binary64::spec_zero()
        } else {
            times[i - 1]
        },
        end: times[i],
    }
}

impl DigitalDataView {
    /// The stretches of the capture, one for each transition time.
    pub open spec fn samples(self) -> Seq<Sample> {
        Seq::new(
            self.transition_times.len(),
            |i: int| stretch(self.transition_times, self.initial_state.spec_as_bool(), i),
        )
    }

    /// The capture as the file stores it: the level, the two times, then
    /// the count-prefixed transition times.
    pub open spec fn wire(self) -> Seq<u8> {
        u32_to_le_bytes(self.initial_state.spec_to_wire()) + u64_to_le_bytes(
            self.begin_time.bits,
        ) + u64_to_le_bytes(self.end_time.bits) + counted_wire(self.transition_times)
    }

    /// The capture stored at offset `at` of `b`.
    pub open spec fn decode(b: Seq<u8>, at: int) -> Result<DigitalDataView, FormatError> {
        if at + 20 > b.len() {
            Err(FormatError::Truncated)
        } else {
            match decode_counted(b, at + 20) {
                Ok(times) => Ok(
                    DigitalDataView {
                        initial_state: State::spec_from_wire(u32_at(b, at)),
                        begin_time: Binary64 { bits: u64_at(b, at + 4) },
                        end_time: Binary64 { bits: u64_at(b, at + 12) },
                        transition_times: times,
                    },
                ),
                Err(e) => Err(e),
            }
        }
    }
}

/// A pass over the stretches of a digital capture, in order.
///
/// It borrows the transition times and leaves them as they are; each call
/// of [`DigitalData::iter_samples`] starts a new pass from the beginning.
pub struct SampleIter<'samples> {
    samples: &'samples [Binary64],
    current: usize,
    initial: bool,
}

impl<'samples> SampleIter<'samples> {
    /// The stretches that this pass has yet to yield.
    pub closed spec fn pending(&self) -> Seq<Sample> {
        if self.current <= self.samples@.len() {
            Seq::new(
                (self.samples@.len() - self.current) as nat,
                |k: int| stretch(self.samples@, self.initial, self.current + k),
            )
        } else {
            Seq::empty()
        }
    }

    /// Yields the next stretch, or `None` once all have been yielded.
    pub fn next(&mut self) -> (r: Option<Sample>)
        ensures
            old(self).pending().len() == 0 ==> r is None && final(self).pending() == old(
                self,
            ).pending(),
            old(self).pending().len() > 0 ==> r == Some(old(self).pending().first())
                && final(self).pending() == old(self).pending().drop_first(),
    {
        if self.current >= self.samples.len() {
            return None;
        }
        let begin = if self.current == 0 {
            Binary64::zero()
        } else {
            self.samples[self.current - 1]
        };
        let ret = Sample {
            is_high: self.initial != (self.current % 2 == 1),
            begin,
            end: self.samples[self.current],
        };
        self.current += 1;
        assert(self.pending() =~= old(self).pending().drop_first());
        Some(ret)
    }
}

impl DigitalData {
    /// Starts a pass over the stretches of this capture.
    pub fn iter_samples(&self) -> (it: SampleIter<'_>)
        ensures
            it.pending() == self@.samples(),
    {
        let it = SampleIter {
            samples: self.transition_times.as_slice(),
            current: 0,
            initial: self.initial_state.as_bool(),
        };
        assert(it.pending() =~= self@.samples());
        it
    }

    /// Reads the capture stored at offset `at` of `bytes`.
    pub fn read_at(bytes: &[u8], at: usize) -> (r: Result<DigitalData, FormatError>)
        ensures
            result_view(r) == DigitalDataView::decode(bytes@, at as int),
    {
        let len: usize = bytes.len();
        if at > len || len - at < 20 {
            return Err(FormatError::Truncated);
        }
        let level = get_u32(bytes, at)?;
        let begin = get_u64(bytes, at + 4)?;
        let end = get_u64(bytes, at + 12)?;
        let transition_times = read_counted(bytes, at + 20)?;
        Ok(
            DigitalData {
                initial_state: State::from_wire(level),
                begin_time: Binary64 { bits: begin },
                end_time: Binary64 { bits: end },
                transition_times,
            },
        )
    }

    /// Appends the capture to `out` as the file stores it.
    pub fn write_to(&self, out: &mut Vec<u8>)
        ensures
            final(out)@ == old(out)@ + self@.wire(),
    {
        put_u32(out, self.initial_state.to_wire());
        put_u64(out, self.begin_time.bits);
        put_u64(out, self.end_time.bits);
        write_counted(out, &self.transition_times);
        assert(out@ =~= old(out)@ + self@.wire());
    }
}

} // verus!
