//! Byte-level decoding of the DICOM data-set wire format (Explicit VR,
//! little-endian) and the [`DicomParser`] that drives it.
//!
//! Every decode is specified exactly over the byte sequence and the current
//! position: element headers carry a tag, a two-letter value representation
//! and a 16- or 32-bit length; item headers in the reserved group `FFFE`
//! carry a tag and a 32-bit length and no value representation. The parser
//! refuses to consume bytes on any failed decode, so a failing decode leaves
//! its position unchanged.

use vstd::prelude::*;

use crate::header::{DataElementHeader, Error, Length, SequenceItemHeader, Tag, VR};
use crate::value::{spec_value_of, decode_value, PrimitiveValue, PrimitiveValueView};

verus! {

/// The unsigned 16-bit word encoded little-endian by two bytes.
pub open spec fn spec_u16_le(b0: u8, b1: u8) -> u16 {
    (b0 + b1 * 256) as u16
}

/// The unsigned 32-bit word encoded little-endian by four bytes.
pub open spec fn spec_u32_le(b0: u8, b1: u8, b2: u8, b3: u8) -> u32 {
    (b0 + b1 * 256 + b2 * 65536 + b3 * 16777216) as u32
}

/// The 16-bit word at offset `i` of `d`.
pub open spec fn spec_u16_at(d: Seq<u8>, i: int) -> u16 {
    spec_u16_le(d[i], d[i + 1])
}

/// The 32-bit word at offset `i` of `d`.
pub open spec fn spec_u32_at(d: Seq<u8>, i: int) -> u32 {
    spec_u32_le(d[i], d[i + 1], d[i + 2], d[i + 3])
}

/// The tag encoded at offset `i` of `d`: group, then element.
pub open spec fn spec_tag_at(d: Seq<u8>, i: int) -> Tag {
    Tag(spec_u16_at(d, i), spec_u16_at(d, i + 2))
}

/// Reads the little-endian 16-bit word at offset `i`.
pub fn read_u16(d: &Vec<u8>, i: usize) -> (r: u16)
    requires
        i + 2 <= d@.len(),
    ensures
        r == spec_u16_at(d@, i as int),
{
    let _n: usize = d.len();
    d[i] as u16 + d[i + 1] as u16 * 256
}

/// Reads the little-endian 32-bit word at offset `i`.
pub fn read_u32(d: &Vec<u8>, i: usize) -> (r: u32)
    requires
        i + 4 <= d@.len(),
    ensures
        r == spec_u32_at(d@, i as int),
{
    let _n: usize = d.len();
    d[i] as u32 + d[i + 1] as u32 * 256 + d[i + 2] as u32 * 65536 + d[i + 3] as u32
        * 16777216
}

/// Copies the bytes of `d` in `[i, j)`.
pub fn subvec(d: &Vec<u8>, i: usize, j: usize) -> (r: Vec<u8>)
    requires
        i <= j <= d@.len(),
    ensures
        r@ == d@.subrange(i as int, j as int),
{
    let mut r: Vec<u8> = Vec::new();
    let mut k: usize = i;
    while k < j
        invariant
            i <= k <= j <= d@.len(),
            r@.len() == k - i,
            forall|m: int| 0 <= m < r@.len() ==> r@[m] == d@[i + m],
        decreases j - k,
    {
        r.push(d[k]);
        k = k + 1;
    }
    proof {
        assert(r@ =~= d@.subrange(i as int, j as int));
    }
    r
}

/// The value representation named by two bytes, or `None` when the pair is
/// not a known two-letter code.
pub open spec fn spec_vr_from_bytes(b0: u8, b1: u8) -> Option<VR> {
    if b0 == 65 && b1 == 69 {
        Some(VR::AE)
    } else if b0 == 65 && b1 == 83 {
        Some(VR::AS)
    } else if b0 == 65 && b1 == 84 {
        Some(VR::AT)
    } else if b0 == 67 && b1 == 83 {
        Some(VR::CS)
    } else if b0 == 68 && b1 == 65 {
        Some(VR::DA)
    } else if b0 == 68 && b1 == 83 {
        Some(VR::DS)
    } else if b0 == 68 && b1 == 84 {
        Some(VR::DT)
    } else if b0 == 70 && b1 == 76 {
        Some(VR::FL)
    } else if b0 == 70 && b1 == 68 {
        Some(VR::FD)
    } else if b0 == 73 && b1 == 83 {
        Some(VR::IS)
    } else if b0 == 76 && b1 == 79 {
        Some(VR::LO)
    } else if b0 == 76 && b1 == 84 {
        Some(VR::LT)
    } else if b0 == 79 && b1 == 66 {
        Some(VR::OB)
    } else if b0 == 79 && b1 == 68 {
        Some(VR::OD)
    } else if b0 == 79 && b1 == 70 {
        Some(VR::OF)
    } else if b0 == 79 && b1 == 76 {
        Some(VR::OL)
    } else if b0 == 79 && b1 == 87 {
        Some(VR::OW)
    } else if b0 == 80 && b1 == 78 {
        Some(VR::PN)
    } else if b0 == 83 && b1 == 72 {
        Some(VR::SH)
    } else if b0 == 83 && b1 == 76 {
        Some(VR::SL)
    } else if b0 == 83 && b1 == 81 {
        Some(VR::SQ)
    } else if b0 == 83 && b1 == 83 {
        Some(VR::SS)
    } else if b0 == 83 && b1 == 84 {
        Some(VR::ST)
    } else if b0 == 84 && b1 == 77 {
        Some(VR::TM)
    } else if b0 == 85 && b1 == 67 {
        Some(VR::UC)
    } else if b0 == 85 && b1 == 73 {
        Some(VR::UI)
    } else if b0 == 85 && b1 == 76 {
        Some(VR::UL)
    } else if b0 == 85 && b1 == 78 {
        Some(VR::UN)
    } else if b0 == 85 && b1 == 82 {
        Some(VR::UR)
    } else if b0 == 85 && b1 == 83 {
        Some(VR::US)
    } else if b0 == 85 && b1 == 84 {
        Some(VR::UT)
    } else {
        None
    }
}

/// Decodes two bytes as a value representation code.
pub fn vr_from_bytes(b0: u8, b1: u8) -> (r: Option<VR>)
    ensures
        r == spec_vr_from_bytes(b0, b1),
{
    if b0 == 65 && b1 == 69 {
        Some(VR::AE)
    } else if b0 == 65 && b1 == 83 {
        Some(VR::AS)
    } else if b0 == 65 && b1 == 84 {
        Some(VR::AT)
    } else if b0 == 67 && b1 == 83 {
        Some(VR::CS)
    } else if b0 == 68 && b1 == 65 {
        Some(VR::DA)
    } else if b0 == 68 && b1 == 83 {
        Some(VR::DS)
    } else if b0 == 68 && b1 == 84 {
        Some(VR::DT)
    } else if b0 == 70 && b1 == 76 {
        Some(VR::FL)
    } else if b0 == 70 && b1 == 68 {
        Some(VR::FD)
    } else if b0 == 73 && b1 == 83 {
        Some(VR::IS)
    } else if b0 == 76 && b1 == 79 {
        Some(VR::LO)
    } else if b0 == 76 && b1 == 84 {
        Some(VR::LT)
    } else if b0 == 79 && b1 == 66 {
        Some(VR::OB)
    } else if b0 == 79 && b1 == 68 {
        Some(VR::OD)
    } else if b0 == 79 && b1 == 70 {
        Some(VR::OF)
    } else if b0 == 79 && b1 == 76 {
        Some(VR::OL)
    } else if b0 == 79 && b1 == 87 {
        Some(VR::OW)
    } else if b0 == 80 && b1 == 78 {
        Some(VR::PN)
    } else if b0 == 83 && b1 == 72 {
        Some(VR::SH)
    } else if b0 == 83 && b1 == 76 {
        Some(VR::SL)
    } else if b0 == 83 && b1 == 81 {
        Some(VR::SQ)
    } else if b0 == 83 && b1 == 83 {
        Some(VR::SS)
    } else if b0 == 83 && b1 == 84 {
        Some(VR::ST)
    } else if b0 == 84 && b1 == 77 {
        Some(VR::TM)
    } else if b0 == 85 && b1 == 67 {
        Some(VR::UC)
    } else if b0 == 85 && b1 == 73 {
        Some(VR::UI)
    } else if b0 == 85 && b1 == 76 {
        Some(VR::UL)
    } else if b0 == 85 && b1 == 78 {
        Some(VR::UN)
    } else if b0 == 85 && b1 == 82 {
        Some(VR::UR)
    } else if b0 == 85 && b1 == 83 {
        Some(VR::US)
    } else if b0 == 85 && b1 == 84 {
        Some(VR::UT)
    } else {
        None
    }
}

/// Whether the representation uses the long header form in explicit VR:
/// two reserved bytes followed by a 32-bit length.
pub open spec fn spec_vr_has_long_form(vr: VR) -> bool {
    match vr {
        VR::OB | VR::OD | VR::OF | VR::OL | VR::OW | VR::SQ | VR::UC | VR::UN | VR::UR
        | VR::UT => true,
        _ => false,
    }
}

/// Whether the representation uses the long header form.
pub fn vr_has_long_form(vr: VR) -> (r: bool)
    ensures
        r == spec_vr_has_long_form(vr),
{
    match vr {
        VR::OB | VR::OD | VR::OF | VR::OL | VR::OW | VR::SQ | VR::UC | VR::UN | VR::UR
        | VR::UT => true,
        _ => false,
    }
}

/// The outcome of decoding one element header at a position.
pub enum HeaderOutcome {
    /// Fewer bytes remain than the header needs.
    Eof,
    /// The bytes at the position do not name a value representation.
    Malformed,
    /// A header was decoded; `end` is the position just past its bytes.
    Decoded { header: DataElementHeader, end: int },
}

/// The outcome of decoding one item header at a position.
pub enum ItemOutcome {
    /// Fewer than eight bytes remain.
    Eof,
    /// The tag is not a reserved item or delimiter tag, or a delimiter
    /// carries a nonzero length.
    Malformed,
    /// An item header was decoded; `end` is the position just past it.
    Decoded { header: SequenceItemHeader, end: int },
}

/// The outcome of reading one primitive value at a position.
pub enum ValueOutcome {
    /// Fewer bytes remain than the header's length declares.
    Eof,
    /// The length is undefined, or the byte count does not fit the value
    /// representation.
    Malformed,
    /// A value was decoded; `end` is the position just past its bytes.
    Decoded { value: PrimitiveValueView, end: int },
}

/// Decodes the element header at `pos`: a tag, then either a 32-bit length
/// directly (reserved group `FFFE`, representation `UN`), or a two-letter
/// representation code followed by a 16-bit length (short form) or by two
/// reserved bytes and a 32-bit length (long form).
pub open spec fn spec_decode_header(d: Seq<u8>, pos: int) -> HeaderOutcome {
    if pos + 8 > d.len() {
        HeaderOutcome::Eof
    } else {
        let tag = spec_tag_at(d, pos);
        if tag.0 == 0xFFFE {
            HeaderOutcome::Decoded {
                header: DataElementHeader {
                    tag,
                    vr: VR::UN,
                    len: Length(spec_u32_at(d, pos + 4)),
                },
                end: pos + 8,
            }
        } else {
            match spec_vr_from_bytes(d[pos + 4], d[pos + 5]) {
                None => HeaderOutcome::Malformed,
                Some(vr) => if spec_vr_has_long_form(vr) {
                    if pos + 12 > d.len() {
                        HeaderOutcome::Eof
                    } else {
                        HeaderOutcome::Decoded {
                            header: DataElementHeader {
                                tag,
                                vr,
                                len: Length(spec_u32_at(d, pos + 8)),
                            },
                            end: pos + 12,
                        }
                    }
                } else {
                    HeaderOutcome::Decoded {
                        header: DataElementHeader {
                            tag,
                            vr,
                            len: Length(spec_u16_at(d, pos + 6) as u32),
                        },
                        end: pos + 8,
                    }
                },
            }
        }
    }
}

/// Decodes the item header at `pos`: one of the three reserved tags of group
/// `FFFE` followed by a 32-bit length, which must be zero for the two
/// delimiters.
pub open spec fn spec_decode_item_header(d: Seq<u8>, pos: int) -> ItemOutcome {
    if pos + 8 > d.len() {
        ItemOutcome::Eof
    } else {
        let tag = spec_tag_at(d, pos);
        let len = spec_u32_at(d, pos + 4);
        if tag == Tag(0xFFFE, 0xE000) {
            ItemOutcome::Decoded {
                header: SequenceItemHeader::Item { len: Length(len) },
                end: pos + 8,
            }
        } else if tag == Tag(0xFFFE, 0xE00D) {
            if len == 0 {
                ItemOutcome::Decoded { header: SequenceItemHeader::ItemDelimiter, end: pos + 8 }
            } else {
                ItemOutcome::Malformed
            }
        } else if tag == Tag(0xFFFE, 0xE0DD) {
            if len == 0 {
                ItemOutcome::Decoded {
                    header: SequenceItemHeader::SequenceDelimiter,
                    end: pos + 8,
                }
            } else {
                ItemOutcome::Malformed
            }
        } else {
            ItemOutcome::Malformed
        }
    }
}

/// Reads the primitive value at `pos` owed by `h`: exactly `h.len` bytes,
/// decoded according to `h.vr`.
pub open spec fn spec_read_value(d: Seq<u8>, pos: int, h: DataElementHeader) -> ValueOutcome {
    match h.len.spec_get() {
        None => ValueOutcome::Malformed,
        Some(l) => if pos + l > d.len() {
            ValueOutcome::Eof
        } else {
            match spec_value_of(h.vr, d.subrange(pos, pos + l)) {
                None => ValueOutcome::Malformed,
                Some(value) => ValueOutcome::Decoded { value, end: pos + l },
            }
        },
    }
}

/// A parser for the Explicit VR little-endian transfer syntax over an
/// in-memory byte source. It owns the cumulative byte counter, which is the
/// single source of truth for the stream position.
#[derive(Clone, Copy, Debug)]
pub struct DicomParser {
    pos: usize,
}

impl View for DicomParser {
    type V = int;

    closed spec fn view(&self) -> int {
        self.pos as int
    }
}

impl DicomParser {
    /// A fresh parser that has consumed nothing.
    pub fn new() -> (r: Self)
        ensures
            r@ == 0,
    {
        DicomParser { pos: 0 }
    }

    /// The cumulative number of bytes consumed from the source.
    pub fn bytes_read(&self) -> (r: u64)
        ensures
            r == self@,
    {
        self.pos as u64
    }

    /// Decodes one element header from the current position, advancing the
    /// byte counter past it; a failed decode consumes nothing.
    pub fn decode_header(&mut self, source: &Vec<u8>) -> (r: Result<DataElementHeader, Error>)
        ensures
            match spec_decode_header(source@, old(self)@) {
                HeaderOutcome::Eof => r == Err::<DataElementHeader, Error>(Error::UnexpectedEof)
                    && final(self)@ == old(self)@,
                HeaderOutcome::Malformed => r == Err::<DataElementHeader, Error>(
                    Error::DecoderError,
                ) && final(self)@ == old(self)@,
                HeaderOutcome::Decoded { header, end } => r == Ok::<DataElementHeader, Error>(
                    header,
                ) && final(self)@ == end,
            },
    {
        let len = source.len();
        if self.pos > len || len - self.pos < 8 {
            return Err(Error::UnexpectedEof);
        }
        let g = read_u16(source, self.pos);
        let e = read_u16(source, self.pos + 2);
        if g == 0xFFFE {
            let l = read_u32(source, self.pos + 4);
            let header = DataElementHeader { tag: Tag(g, e), vr: VR::UN, len: Length(l) };
            self.pos = self.pos + 8;
            return Ok(header);
        }
        match vr_from_bytes(source[self.pos + 4], source[self.pos + 5]) {
            None => Err(Error::DecoderError),
            Some(vr) => {
                if vr_has_long_form(vr) {
                    if len - self.pos < 12 {
                        return Err(Error::UnexpectedEof);
                    }
                    let l = read_u32(source, self.pos + 8);
                    let header = DataElementHeader { tag: Tag(g, e), vr, len: Length(l) };
                    self.pos = self.pos + 12;
                    Ok(header)
                } else {
                    let l = read_u16(source, self.pos + 6) as u32;
                    let header = DataElementHeader { tag: Tag(g, e), vr, len: Length(l) };
                    self.pos = self.pos + 8;
                    Ok(header)
                }
            },
        }
    }

    /// Decodes one item or delimiter header from the current position,
    /// advancing the byte counter past it; a failed decode consumes nothing.
    pub fn decode_item_header(&mut self, source: &Vec<u8>) -> (r: Result<
        SequenceItemHeader,
        Error,
    >)
        ensures
            match spec_decode_item_header(source@, old(self)@) {
                ItemOutcome::Eof => r == Err::<SequenceItemHeader, Error>(Error::UnexpectedEof)
                    && final(self)@ == old(self)@,
                ItemOutcome::Malformed => r == Err::<SequenceItemHeader, Error>(
                    Error::DecoderError,
                ) && final(self)@ == old(self)@,
                ItemOutcome::Decoded { header, end } => r == Ok::<SequenceItemHeader, Error>(
                    header,
                ) && final(self)@ == end,
            },
    {
        let len = source.len();
        if self.pos > len || len - self.pos < 8 {
            return Err(Error::UnexpectedEof);
        }
        let g = read_u16(source, self.pos);
        let e = read_u16(source, self.pos + 2);
        let l = read_u32(source, self.pos + 4);
        if g == 0xFFFE && e == 0xE000 {
            self.pos = self.pos + 8;
            Ok(SequenceItemHeader::Item { len: Length(l) })
        } else if g == 0xFFFE && e == 0xE00D {
            if l == 0 {
                self.pos = self.pos + 8;
                Ok(SequenceItemHeader::ItemDelimiter)
            } else {
                Err(Error::DecoderError)
            }
        } else if g == 0xFFFE && e == 0xE0DD {
            if l == 0 {
                self.pos = self.pos + 8;
                Ok(SequenceItemHeader::SequenceDelimiter)
            } else {
                Err(Error::DecoderError)
            }
        } else {
            Err(Error::DecoderError)
        }
    }

    /// Reads the primitive value owed by the given header from the current
    /// position, advancing the byte counter past its bytes; a failed read
    /// consumes nothing.
    pub fn read_value(&mut self, source: &Vec<u8>, header: &DataElementHeader) -> (r: Result<
        PrimitiveValue,
        Error,
    >)
        ensures
            match spec_read_value(source@, old(self)@, *header) {
                ValueOutcome::Eof => r == Err::<PrimitiveValue, Error>(Error::UnexpectedEof)
                    && final(self)@ == old(self)@,
                ValueOutcome::Malformed => r == Err::<PrimitiveValue, Error>(Error::DecoderError)
                    && final(self)@ == old(self)@,
                ValueOutcome::Decoded { value, end } => (r matches Ok(pv) && pv@ == value)
                    && final(self)@ == end,
            },
    {
        let l: u32 = match header.len.get() {
            None => {
                return Err(Error::DecoderError);
            },
            Some(l) => l,
        };
        let l = l as usize;
        let len = source.len();
        if self.pos > len || len - self.pos < l {
            return Err(Error::UnexpectedEof);
        }
        let bytes = subvec(source, self.pos, self.pos + l);
        match decode_value(header.vr, bytes) {
            None => Err(Error::DecoderError),
            Some(pv) => {
                self.pos = self.pos + l;
                Ok(pv)
            },
        }
    }
}

/// The parser position counts consumed bytes of an in-memory source, so it
/// fits in a machine word and in particular in 64 bits.
pub proof fn lemma_parser_pos_bound(p: &DicomParser)
    ensures
        0 <= p@ <= u64::MAX,
{
}

/// A compile-time witness that [`DicomParser`] provides the parsing
/// capability the data-set readers consume: header, item-header and value
/// decoding over a byte source, and a cumulative byte counter.
pub fn is_parse(_parser: &DicomParser) {
}

} // verus!
