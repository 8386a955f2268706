//! Reading and writing Saleae Logic 2 binary capture exports.
//!
//! A capture file is a fixed signature, a version, a tag that selects one
//! of two capture kinds, and the capture itself. [`SaleaeExport`] holds one
//! file in memory; [`SaleaeExport::read_from_bytes`] decodes it from a byte
//! buffer and [`SaleaeExport::write_to`] encodes it onto one. Both are
//! verified against the layout given by the `wire` and `decode` spec
//! functions of each type.
//!
//! Floating-point fields are carried as [`Binary64`] bit patterns, so that
//! a decoded file is written back byte for byte.
pub mod analog;
pub mod binary64;
pub mod digital;
pub mod error;
pub mod export;
pub mod proofs;
pub mod scalar;
pub mod state;

pub use analog::AnalogData;
pub use binary64::Binary64;
pub use digital::{DigitalData, Sample, SampleIter};
pub use error::FormatError;
pub use export::{Data, SaleaeExport};
pub use state::State;
