//! A streaming tokenizer for DICOM data sets.
//!
//! Given a byte source positioned at the start of a data set (after the File
//! Meta Information), the [`DataSetReader`] drives a state machine over the
//! stream and produces a sequence of semantic tokens (element headers,
//! sequence and item boundaries, primitive values) that form a well-nested
//! tree of the data set. A sibling surface, the [`LazyDataSetReader`], emits
//! element markers (header plus stream offset) without materializing values,
//! for sources that support random access.

pub mod dataset;
pub mod decode;
pub mod header;
pub mod lazy;
pub mod properties;
pub mod value;

pub use dataset::{DataSetReader, DataToken};
pub use decode::DicomParser;
pub use header::{DataElementHeader, Error, Length, SequenceItemHeader, Tag, VR};
pub use lazy::{DicomElementMarker, LazyDataSetReader};
pub use value::PrimitiveValue;
