//! The capture file as a whole: signature, version, and one capture of
//! either kind.
use vstd::prelude::*;
use vstd::pervasive::unreached;
use crate::analog::{AnalogData, AnalogDataView};
use crate::binary64::Binary64;
use crate::digital::{DigitalData, DigitalDataView};
use crate::error::{result_view, FormatError};
use crate::scalar::{get_i32, get_u32, i32_at, i32_to_le_bytes, put_i32, put_u32, u32_at, u32_to_le_bytes};

verus! {

/// The signature that opens every capture file: the text `<SALEAE>`.
pub const MAGIC: [u8; 8] = [0x3c, 0x53, 0x41, 0x4c, 0x45, 0x41, 0x45, 0x3e];

/// The tag that announces a digital capture.
pub const DIGITAL_TAG: u32 = 0;

/// The tag that announces an analog capture.
pub const ANALOG_TAG: u32 = 1;

/// The capture that a file holds, digital or analog.
///
/// In the file a `u32` tag tells the two apart. In memory the variant does.
#[derive(Debug, Clone, PartialEq)]
pub enum Data {
    Digital(DigitalData),
    Analog(AnalogData),
}

/// A capture of either kind as the specifications see it.
pub enum DataView {
    Digital(DigitalDataView),
    Analog(AnalogDataView),
}

impl View for Data {
    type V = DataView;

    open spec fn view(&self) -> DataView {
        match self {
            Data::Digital(d) => DataView::Digital(d@),
            Data::Analog(a) => DataView::Analog(a@),
        }
    }
}

impl DataView {
    /// The tag that the file stores for this kind of capture.
    pub open spec fn tag(self) -> u32 {
        match self {
            DataView::Digital(_) => DIGITAL_TAG,
            DataView::Analog(_) => ANALOG_TAG,
        }
    }

    /// The sequence that the capture ends with: the transition times of a
    /// digital capture, the samples of an analog one.
    pub open spec fn sequence(self) -> Seq<Binary64> {
        match self {
            DataView::Digital(d) => d.transition_times,
            DataView::Analog(a) => a.samples,
        }
    }

    /// Where the count of that sequence stands, counted from the tag.
    pub open spec fn count_offset(self) -> int {
        match self {
            DataView::Digital(_) => 24,
            DataView::Analog(_) => 28,
        }
    }

    /// Whether the sequence is short enough for its length to be written
    /// as a `u64`, as that of every vector in memory is.
    pub open spec fn fits(self) -> bool {
        self.sequence().len() <= u64::MAX
    }

    /// The capture as the file stores it: the tag, then the capture.
    pub open spec fn wire(self) -> Seq<u8> {
        match self {
            DataView::Digital(d) => u32_to_le_bytes(DIGITAL_TAG) + d.wire(),
            DataView::Analog(a) => u32_to_le_bytes(ANALOG_TAG) + a.wire(),
        }
    }

    /// The capture stored at offset `at` of `b`, by the tag found there.
    pub open spec fn decode(b: Seq<u8>, at: int) -> Result<DataView, FormatError> {
        if at + 4 > b.len() {
            Err(FormatError::Truncated)
        } else if u32_at(b, at) == DIGITAL_TAG {
            match DigitalDataView::decode(b, at + 4) {
                Ok(d) => Ok(DataView::Digital(d)),
                Err(e) => Err(e),
            }
        } else if u32_at(b, at) == ANALOG_TAG {
            match AnalogDataView::decode(b, at + 4) {
                Ok(a) => Ok(DataView::Analog(a)),
                Err(e) => Err(e),
            }
        } else {
            Err(FormatError::UnknownVariant(u32_at(b, at)))
        }
    }
}

impl Data {
    /// Reads the tagged capture stored at offset `at` of `bytes`.
    pub fn read_at(bytes: &[u8], at: usize) -> (r: Result<Data, FormatError>)
        ensures
            result_view(r) == DataView::decode(bytes@, at as int),
    {
        let len: usize = bytes.len();
        if at > len || len - at < 4 {
            return Err(FormatError::Truncated);
        }
        let tag = get_u32(bytes, at)?;
        if tag == DIGITAL_TAG {
            Ok(Data::Digital(DigitalData::read_at(bytes, at + 4)?))
        } else if tag == ANALOG_TAG {
            Ok(Data::Analog(AnalogData::read_at(bytes, at + 4)?))
        } else {
            Err(FormatError::UnknownVariant(tag))
        }
    }

    /// Appends the tag and the capture to `out`.
    pub fn write_to(&self, out: &mut Vec<u8>)
        ensures
            final(out)@ == old(out)@ + self@.wire(),
    {
        match self {
            Data::Digital(d) => {
                put_u32(out, DIGITAL_TAG);
                d.write_to(out);
            },
            Data::Analog(a) => {
                put_u32(out, ANALOG_TAG);
                a.write_to(out);
            },
        }
        assert(out@ =~= old(out)@ + self@.wire());
    }
}

/// A capture file.
#[derive(Debug, Clone, PartialEq)]
pub struct SaleaeExport {
    /// The version of the file format. The decoder accepts only `0`.
    pub version: i32,
    /// The capture that the file holds.
    pub file_data: Data,
}

/// A capture file as the specifications see it.
pub struct SaleaeExportView {
    pub version: i32,
    pub file_data: DataView,
}

impl View for SaleaeExport {
    type V = SaleaeExportView;

    open spec fn view(&self) -> SaleaeExportView {
        SaleaeExportView { version: self.version, file_data: self.file_data@ }
    }
}

impl SaleaeExportView {
    /// The file: the signature, the version, then the tagged capture. The
    /// version is stored as it is, supported or not.
    pub open spec fn wire(self) -> Seq<u8> {
        MAGIC@ + i32_to_le_bytes(self.version) + self.file_data.wire()
    }

    /// The file that the bytes `b` hold. The signature is looked at first,
    /// then the version, then the capture; the first of them that is wrong
    /// or cut short decides the error. Bytes after the capture are ignored.
    pub open spec fn decode(b: Seq<u8>) -> Result<SaleaeExportView, FormatError> {
        if b.len() < 8 {
            Err(FormatError::Truncated)
        } else if b.subrange(0, 8) != MAGIC@ {
            Err(FormatError::BadMagic)
        } else if b.len() < 12 {
            Err(FormatError::Truncated)
        } else if i32_at(b, 8) != 0 {
            Err(FormatError::UnsupportedVersion)
        } else {
            match DataView::decode(b, 12) {
                Ok(d) => Ok(SaleaeExportView { version: 0, file_data: d }),
                Err(e) => Err(e),
            }
        }
    }
}

/// Whether `bytes` starts with the signature.
fn starts_with_magic(bytes: &[u8]) -> (found: bool)
    requires
        bytes@.len() >= 8,
    ensures
        found == (bytes@.subrange(0, 8) == MAGIC@),
{
    let mut i: usize = 0;
    while i < 8
        invariant
            i <= 8,
            bytes@.len() >= 8,
            forall|k: int| 0 <= k < i ==> bytes@[k] == MAGIC@[k],
        decreases 8 - i,
    {
        if bytes[i] != MAGIC[i] {
            assert(bytes@.subrange(0, 8)[i as int] != MAGIC@[i as int]);
            return false;
        }
        i += 1;
    }
    assert(bytes@.subrange(0, 8) =~= MAGIC@);
    true
}

impl SaleaeExport {
    /// Takes the file for an analog capture.
    ///
    /// The file must hold one: to ask this of a digital capture is a
    /// mistake of the caller, not a property of the data.
    pub fn assume_analog(self) -> (analog: AnalogData)
        requires
            self.file_data is Analog,
        ensures
            self.file_data == Data::Analog(analog),
    {
        match self.file_data {
            Data::Analog(analog) => analog,
            Data::Digital(_) => unreached(),
        }
    }

    /// Takes the file for a digital capture.
    ///
    /// The file must hold one: to ask this of an analog capture is a
    /// mistake of the caller, not a property of the data.
    pub fn assume_digital(self) -> (digital: DigitalData)
        requires
            self.file_data is Digital,
        ensures
            self.file_data == Data::Digital(digital),
    {
        match self.file_data {
            Data::Digital(digital) => digital,
            Data::Analog(_) => unreached(),
        }
    }

    /// Decodes a capture file from a buffer.
    ///
    /// The result is the file that the buffer holds, or the first error
    /// that its layout runs into. In particular a buffer of eight bytes or
    /// more that does not start with the signature is rejected for that,
    /// whatever follows, and one with the signature and another version
    /// than `0` for its version.
    pub fn read_from_bytes(bytes: &[u8]) -> (r: Result<SaleaeExport, FormatError>)
        ensures
            result_view(r) == SaleaeExportView::decode(bytes@),
            bytes@.len() >= 8 && bytes@.subrange(0, 8) != MAGIC@ ==> r == Err::<
                SaleaeExport,
                FormatError,
            >(FormatError::BadMagic),
            bytes@.len() >= 12 && bytes@.subrange(0, 8) == MAGIC@ && i32_at(bytes@, 8) != 0 ==> r
                == Err::<SaleaeExport, FormatError>(FormatError::UnsupportedVersion),
            r is Ok ==> r->Ok_0.version == 0,
    {
        if bytes.len() < 8 {
            return Err(FormatError::Truncated);
        }
        if !starts_with_magic(bytes) {
            return Err(FormatError::BadMagic);
        }
        let version = get_i32(bytes, 8)?;
        if version != 0 {
            return Err(FormatError::UnsupportedVersion);
        }
        let file_data = Data::read_at(bytes, 12)?;
        Ok(SaleaeExport { version, file_data })
    }

    /// Appends the file to `writer`: the signature, the version, the tag of
    /// the capture, and the capture. The version is written as it stands.
    pub fn write_to(&self, writer: &mut Vec<u8>)
        ensures
            final(writer)@ == old(writer)@ + self@.wire(),
    {
        let mut i: usize = 0;
        while i < 8
            invariant
                i <= 8,
                writer@ == old(writer)@ + MAGIC@.take(i as int),
            decreases 8 - i,
        {
            writer.push(MAGIC[i]);
            assert(MAGIC@.take(i + 1) =~= MAGIC@.take(i as int).push(MAGIC@[i as int]));
            i += 1;
        }
        assert(MAGIC@.take(8) =~= MAGIC@);
        put_i32(writer, self.version);
        self.file_data.write_to(writer);
        assert(writer@ =~= old(writer)@ + self@.wire());
    }
}

} // verus!
