//! Analog captures: voltages sampled at a fixed rate.
use vstd::prelude::*;
use crate::binary64::{counted_wire, decode_counted, read_counted, write_counted, Binary64};
use crate::error::{result_view, FormatError};
use crate::scalar::{get_u64, put_u64, u64_at, u64_to_le_bytes};

verus! {

/// An analog capture.
#[derive(Debug, Clone, PartialEq)]
pub struct AnalogData {
    /// The time at which the capture begins.
    pub begin_time: Binary64,
    /// The sample rate, in hertz.
    pub sample_rate: u64,
    /// How many raw samples stand behind each stored one.
    pub downsample: u64,
    /// The voltage of each sample.
    pub samples: Vec<Binary64>,
}

/// An analog capture as the specifications see it.
pub struct AnalogDataView {
    pub begin_time: Binary64,
    pub sample_rate: u64,
    pub downsample: u64,
    pub samples: Seq<Binary64>,
}

impl View for AnalogData {
    type V = AnalogDataView;

    open spec fn view(&self) -> AnalogDataView {
        AnalogDataView {
            begin_time: self.begin_time,
            sample_rate: self.sample_rate,
            downsample: self.downsample,
            samples: self.samples@,
        }
    }
}

impl AnalogDataView {
    /// The capture as the file stores it: the begin time, the rate, the
    /// downsampling factor, then the count-prefixed samples.
    pub open spec fn wire(self) -> Seq<u8> {
        u64_to_le_bytes(self.begin_time.bits) + u64_to_le_bytes(self.sample_rate)
            + u64_to_le_bytes(self.downsample) + counted_wire(self.samples)
    }

    /// The capture stored at offset `at` of `b`.
    pub open spec fn decode(b: Seq<u8>, at: int) -> Result<AnalogDataView, FormatError> {
        if at + 24 > b.len() {
            Err(FormatError::Truncated)
        } else {
            match decode_counted(b, at + 24) {
                Ok(samples) => Ok(
                    AnalogDataView {
                        begin_time: Binary64 { bits: u64_at(b, at) },
                        sample_rate: u64_at(b, at + 8),
                        downsample: u64_at(b, at + 16),
                        samples,
                    },
                ),
                Err(e) => Err(e),
            }
        }
    }
}

impl AnalogData {
    /// Reads the capture stored at offset `at` of `bytes`.
    pub fn read_at(bytes: &[u8], at: usize) -> (r: Result<AnalogData, FormatError>)
        ensures
            result_view(r) == AnalogDataView::decode(bytes@, at as int),
    {
        let len: usize = bytes.len();
        if at > len || len - at < 24 {
            return Err(FormatError::Truncated);
        }
        let begin = get_u64(bytes, at)?;
        let sample_rate = get_u64(bytes, at + 8)?;
        let downsample = get_u64(bytes, at + 16)?;
        let samples = read_counted(bytes, at + 24)?;
        Ok(AnalogData { begin_time: Binary64 { bits: begin }, sample_rate, downsample, samples })
    }

    /// Appends the capture to `out` as the file stores it.
    pub fn write_to(&self, out: &mut Vec<u8>)
        ensures
            final(out)@ == old(out)@ + self@.wire(),
    {
        put_u64(out, self.begin_time.bits);
        put_u64(out, self.sample_rate);
        put_u64(out, self.downsample);
        write_counted(out, &self.samples);
        assert(out@ =~= old(out)@ + self@.wire());
    }
}

} // verus!
