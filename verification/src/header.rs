//! The basic data model of a DICOM data set: tags, lengths, value
//! representations, element and item headers, and the error kinds that the
//! tokenizer raises or propagates.

use vstd::prelude::*;

verus! {

/// The sentinel length value meaning "undefined": the scope is terminated by
/// a reserved delimiter tag rather than by a byte count.
pub const UNDEFINED_LEN: u32 = 0xFFFF_FFFF;

/// A DICOM tag: a pair of 16-bit group and element numbers.
#[derive(Clone, Copy, Debug, PartialEq, Eq, Structural, Hash)]
pub struct Tag(pub u16, pub u16);

impl Tag {
    /// The group number.
    pub fn group(&self) -> (r: u16)
        ensures
            r == self.0,
    {
        self.0
    }

    /// The element number.
    pub fn element(&self) -> (r: u16)
        ensures
            r == self.1,
    {
        self.1
    }
}

/// A 32-bit element length with a distinguished "undefined" sentinel.
#[derive(Clone, Copy, Debug, PartialEq, Eq, Structural, Hash)]
pub struct Length(pub u32);

impl Length {
    /// Whether this length is the undefined sentinel.
    pub open spec fn spec_is_undefined(self) -> bool {
        self.0 == UNDEFINED_LEN
    }

    /// The defined byte count, or `None` for the undefined sentinel.
    pub open spec fn spec_get(self) -> Option<u32> {
        if self.0 == UNDEFINED_LEN {
            None
        } else {
            Some(self.0)
        }
    }

    /// Returns the byte count, or `None` when the length is undefined.
    pub fn get(&self) -> (r: Option<u32>)
        ensures
            r == self.spec_get(),
    {
        if self.0 == UNDEFINED_LEN {
            None
        } else {
            Some(self.0)
        }
    }

    /// Whether this length is the undefined sentinel.
    pub fn is_undefined(&self) -> (r: bool)
        ensures
            r == self.spec_is_undefined(),
    {
        self.0 == UNDEFINED_LEN
    }

    /// Whether this length is a concrete byte count.
    pub fn is_defined(&self) -> (r: bool)
        ensures
            r == !self.spec_is_undefined(),
    {
        self.0 != UNDEFINED_LEN
    }
}

/// A DICOM value representation: the two-letter code indicating how an
/// element's value is encoded. Only `SQ` is structurally distinguished by the
/// tokenizer; all others are primitive from its point of view.
#[derive(Clone, Copy, Debug, PartialEq, Eq, Structural, Hash)]
pub enum VR {
    /// Application Entity
    AE,
    /// Age String
    AS,
    /// Attribute Tag
    AT,
    /// Code String
    CS,
    /// Date
    DA,
    /// Decimal String
    DS,
    /// Date Time
    DT,
    /// Floating Point Single
    FL,
    /// Floating Point Double
    FD,
    /// Integer String
    IS,
    /// Long String
    LO,
    /// Long Text
    LT,
    /// Other Byte
    OB,
    /// Other Double
    OD,
    /// Other Float
    OF,
    /// Other Long
    OL,
    /// Other Word
    OW,
    /// Person Name
    PN,
    /// Short String
    SH,
    /// Signed Long
    SL,
    /// Sequence of Items
    SQ,
    /// Signed Short
    SS,
    /// Short Text
    ST,
    /// Time
    TM,
    /// Unlimited Characters
    UC,
    /// Unique Identifier
    UI,
    /// Unsigned Long
    UL,
    /// Unknown
    UN,
    /// URI/URL
    UR,
    /// Unsigned Short
    US,
    /// Unlimited Text
    UT,
}

/// The header of one data element: its tag, value representation and the
/// declared length of its value.
#[derive(Clone, Copy, Debug, PartialEq, Eq, Structural, Hash)]
pub struct DataElementHeader {
    /// The element's tag.
    pub tag: Tag,
    /// The element's value representation.
    pub vr: VR,
    /// The declared length of the element's value.
    pub len: Length,
}

/// A header read while inside a sequence, awaiting items: either the start of
/// a new item or one of the two reserved closing delimiters.
#[derive(Clone, Copy, Debug, PartialEq, Eq, Structural, Hash)]
pub enum SequenceItemHeader {
    /// The start of a new item, with its declared (possibly undefined) length.
    Item { len: Length },
    /// The item delimiter `(FFFE,E00D)`, closing an undefined-length item.
    ItemDelimiter,
    /// The sequence delimiter `(FFFE,E0DD)`, closing an undefined-length
    /// sequence.
    SequenceDelimiter,
}

impl SequenceItemHeader {
    /// The element header equivalent of this item header: the reserved tag
    /// with the `UN` value representation and the item's length (zero for the
    /// delimiters).
    pub open spec fn spec_element_header(self) -> DataElementHeader {
        match self {
            SequenceItemHeader::Item { len } => DataElementHeader {
                tag: Tag(0xFFFE, 0xE000),
                vr: VR::UN,
                len,
            },
            SequenceItemHeader::ItemDelimiter => DataElementHeader {
                tag: Tag(0xFFFE, 0xE00D),
                vr: VR::UN,
                len: Length(0),
            },
            SequenceItemHeader::SequenceDelimiter => DataElementHeader {
                tag: Tag(0xFFFE, 0xE0DD),
                vr: VR::UN,
                len: Length(0),
            },
        }
    }

    /// Converts this item header into the equivalent element header, as used
    /// by the marker reader for items and delimiters.
    pub fn element_header(&self) -> (r: DataElementHeader)
        ensures
            r == self.spec_element_header(),
    {
        match self {
            SequenceItemHeader::Item { len } => DataElementHeader {
                tag: Tag(0xFFFE, 0xE000),
                vr: VR::UN,
                len: *len,
            },
            SequenceItemHeader::ItemDelimiter => DataElementHeader {
                tag: Tag(0xFFFE, 0xE00D),
                vr: VR::UN,
                len: Length(0),
            },
            SequenceItemHeader::SequenceDelimiter => DataElementHeader {
                tag: Tag(0xFFFE, 0xE0DD),
                vr: VR::UN,
                len: Length(0),
            },
        }
    }
}

/// The error kinds raised or propagated by the readers. Every error is
/// terminal: after surfacing one, a reader returns `None` forever.
#[derive(Clone, Copy, Debug, PartialEq, Eq, Structural, Hash)]
pub enum Error {
    /// Malformed header, item or value bytes.
    DecoderError,
    /// The stream ended where more bytes were owed. At a top-level header
    /// boundary this is the graceful end of the data set; anywhere else it is
    /// an error.
    UnexpectedEof,
    /// An explicit-length scope was overshot: the parser position (second
    /// field) has passed the computed end-of-scope offset (first field).
    InconsistentSequenceEnd(u64, u64),
    /// A marker with an undefined length was asked for its byte range.
    UnresolvedValueLength,
}

} // verus!
