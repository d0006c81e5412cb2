//! The lazy marker reader: a sibling surface over the same parser for
//! random-access sources.
//!
//! Instead of materializing values, [`LazyDataSetReader`] emits one
//! [`DicomElementMarker`] per element or item header encountered, in
//! document order; a marker carries the header and the stream offset just
//! past the header's bytes (the start of the value, if any), so the caller
//! may later return and read the value. Its exact transition function is
//! [`spec_lazy_next`].

use vstd::prelude::*;

use crate::decode::{
    spec_decode_header, spec_decode_item_header, subvec, DicomParser, HeaderOutcome, ItemOutcome,
};
use crate::header::{DataElementHeader, Error, Length, SequenceItemHeader, Tag, VR};

verus! {

/// A marker for a DICOM element residing in a source with random access: the
/// element's header, kept in memory, and the position of its value bytes. At
/// this level, the value representation `UN` may also stand for a
/// non-applicable one (items and delimiters).
#[derive(Clone, Copy, Debug, PartialEq, Eq, Structural)]
pub struct DicomElementMarker {
    /// The header, kept in memory.
    pub header: DataElementHeader,
    /// The ending position of the element's header (equally, the starting
    /// position of the element's value if it has one), relative to the
    /// beginning of the source.
    pub pos: u64,
}

impl DicomElementMarker {
    /// The raw data of this element's value: the `len` bytes of the source
    /// starting at the marker position. An undefined length cannot name a
    /// byte range and is refused; so is a range past the end of the source.
    pub fn get_data_stream(&self, source: &Vec<u8>) -> (r: Result<Vec<u8>, Error>)
        ensures
            match self.header.len.spec_get() {
                None => r == Err::<Vec<u8>, Error>(Error::UnresolvedValueLength),
                Some(l) => if self.pos + l > source@.len() {
                    r == Err::<Vec<u8>, Error>(Error::UnexpectedEof)
                } else {
                    r matches Ok(v) && v@ == source@.subrange(self.pos as int, self.pos + l)
                },
            },
    {
        let l: u32 = match self.header.len.get() {
            None => {
                return Err(Error::UnresolvedValueLength);
            },
            Some(l) => l,
        };
        let n: usize = source.len();
        if self.pos > n as u64 {
            return Err(Error::UnexpectedEof);
        }
        let start = self.pos as usize;
        if n - start < l as usize {
            return Err(Error::UnexpectedEof);
        }
        Ok(subvec(source, start, start + l as usize))
    }

    /// This element's value representation; `UN` when not applicable.
    pub fn vr(&self) -> (r: VR)
        ensures
            r == self.header.vr,
    {
        self.header.vr
    }

    /// This element's tag.
    pub fn tag(&self) -> (r: Tag)
        ensures
            r == self.header.tag,
    {
        self.header.tag
    }

    /// This element's declared value length.
    pub fn len(&self) -> (r: Length)
        ensures
            r == self.header.len,
    {
        self.header.len
    }
}

/// The mathematical model of a [`LazyDataSetReader`].
#[verifier::ext_equal]
pub struct LazyReaderView {
    /// The input bytes.
    pub source: Seq<u8>,
    /// The number of bytes consumed so far.
    pub pos: int,
    /// The current sequence nesting depth.
    pub depth: u32,
    /// Whether the reader expects an item header next.
    pub in_sequence: bool,
    /// Whether iteration has terminated.
    pub hard_break: bool,
}

/// One step of the marker reader: emits a marker for the next element or
/// item header in document order, tracking only the nesting depth and
/// whether an item header is expected. The first failure of any kind fuses
/// the iteration. The depth never leaves `u32`: a delimiter at depth zero
/// and a sequence start at the maximum depth leave it unchanged.
pub open spec fn spec_lazy_next(s: LazyReaderView) -> (LazyReaderView, Option<
    Result<DicomElementMarker, Error>,
>) {
    if s.hard_break {
        (s, None)
    } else if s.in_sequence {
        match spec_decode_item_header(s.source, s.pos) {
            ItemOutcome::Eof => (
                LazyReaderView { hard_break: true, ..s },
                Some(Err(Error::UnexpectedEof)),
            ),
            ItemOutcome::Malformed => (
                LazyReaderView { hard_break: true, ..s },
                Some(Err(Error::DecoderError)),
            ),
            ItemOutcome::Decoded { header, end } => {
                let marker = DicomElementMarker {
                    header: header.spec_element_header(),
                    pos: end as u64,
                };
                match header {
                    SequenceItemHeader::Item { len } => (
                        LazyReaderView { in_sequence: false, pos: end, ..s },
                        Some(Ok(marker)),
                    ),
                    SequenceItemHeader::ItemDelimiter => (
                        LazyReaderView { in_sequence: true, pos: end, ..s },
                        Some(Ok(marker)),
                    ),
                    SequenceItemHeader::SequenceDelimiter => (
                        LazyReaderView {
                            in_sequence: false,
                            pos: end,
                            depth: if s.depth > 0 {
                                (s.depth - 1) as u32
                            } else {
                                s.depth
                            },
                            ..s
                        },
                        Some(Ok(marker)),
                    ),
                }
            },
        }
    } else {
        match spec_decode_header(s.source, s.pos) {
            HeaderOutcome::Eof => (
                LazyReaderView { hard_break: true, ..s },
                Some(Err(Error::UnexpectedEof)),
            ),
            HeaderOutcome::Malformed => (
                LazyReaderView { hard_break: true, ..s },
                Some(Err(Error::DecoderError)),
            ),
            HeaderOutcome::Decoded { header, end } => {
                let marker = DicomElementMarker { header, pos: end as u64 };
                if header.tag == Tag(0x0008, 0x0005) {
                    // Specific Character Set: emitted like any other marker;
                    // the reader does not interpret it here
                    (LazyReaderView { pos: end, ..s }, Some(Ok(marker)))
                } else if header.vr == VR::SQ {
                    (
                        LazyReaderView {
                            pos: end,
                            in_sequence: true,
                            depth: if s.depth < 0xFFFF_FFFF {
                                (s.depth + 1) as u32
                            } else {
                                s.depth
                            },
                            ..s
                        },
                        Some(Ok(marker)),
                    )
                } else {
                    (LazyReaderView { pos: end, ..s }, Some(Ok(marker)))
                }
            },
        }
    }
}

/// An iterator-like reader retrieving element markers from a random-access
/// source, one marker per call to [`LazyDataSetReader::next`].
#[derive(Debug)]
pub struct LazyDataSetReader {
    source: Vec<u8>,
    parser: DicomParser,
    depth: u32,
    in_sequence: bool,
    hard_break: bool,
}

impl View for LazyDataSetReader {
    type V = LazyReaderView;

    closed spec fn view(&self) -> LazyReaderView {
        LazyReaderView {
            source: self.source@,
            pos: self.parser@,
            depth: self.depth,
            in_sequence: self.in_sequence,
            hard_break: self.hard_break,
        }
    }
}

impl LazyDataSetReader {
    /// Creates a new marker reader over the given source with the given
    /// parser.
    pub fn new(source: Vec<u8>, parser: DicomParser) -> (r: Self)
        ensures
            r@.source == source@,
            r@.pos == parser@,
            r@.depth == 0u32,
            !r@.in_sequence,
            !r@.hard_break,
    {
        LazyDataSetReader { source, parser, depth: 0, in_sequence: false, hard_break: false }
    }

    /// The cumulative number of bytes the parser has consumed.
    pub fn bytes_read(&self) -> (r: u64)
        ensures
            r == self@.pos,
    {
        self.parser.bytes_read()
    }

    /// The source position just after the bytes consumed so far.
    fn get_position(&self) -> (r: u64)
        ensures
            r == self@.pos,
    {
        self.parser.bytes_read()
    }

    /// A marker for an element header ending at the current position.
    fn create_element_marker(&self, header: DataElementHeader) -> (r: DicomElementMarker)
        ensures
            r == (DicomElementMarker { header, pos: self@.pos as u64 }),
    {
        let pos = self.get_position();
        DicomElementMarker { header, pos }
    }

    /// A marker for an item header ending at the current position.
    fn create_item_marker(&self, header: SequenceItemHeader) -> (r: DicomElementMarker)
        ensures
            r == (DicomElementMarker {
                header: header.spec_element_header(),
                pos: self@.pos as u64,
            }),
    {
        let pos = self.get_position();
        DicomElementMarker { header: header.element_header(), pos }
    }

    /// Produces the marker of the next element or item header, as
    /// [`spec_lazy_next`] states: `Some(Ok(marker))` in document order,
    /// `Some(Err(e))` once on the first failure, and `None` ever after.
    pub fn next(&mut self) -> (r: Option<Result<DicomElementMarker, Error>>)
        ensures
            final(self)@ == spec_lazy_next(old(self)@).0,
            r == spec_lazy_next(old(self)@).1,
    {
        let ghost pre = self@;
        if self.hard_break {
            return None;
        }
        if self.in_sequence {
            match self.parser.decode_item_header(&self.source) {
                Ok(header) => match header {
                    SequenceItemHeader::Item { .. } => {
                        self.in_sequence = false;
                        let marker = self.create_item_marker(header);
                        proof {
                            assert(self@ =~= spec_lazy_next(pre).0);
                        }
                        Some(Ok(marker))
                    },
                    SequenceItemHeader::ItemDelimiter => {
                        self.in_sequence = true;
                        let marker = self.create_item_marker(header);
                        proof {
                            assert(self@ =~= spec_lazy_next(pre).0);
                        }
                        Some(Ok(marker))
                    },
                    SequenceItemHeader::SequenceDelimiter => {
                        if self.depth > 0 {
                            self.depth = self.depth - 1;
                        }
                        self.in_sequence = false;
                        let marker = self.create_item_marker(header);
                        proof {
                            assert(self@ =~= spec_lazy_next(pre).0);
                        }
                        Some(Ok(marker))
                    },
                },
                Err(e) => {
                    self.hard_break = true;
                    proof {
                        assert(self@ =~= spec_lazy_next(pre).0);
                    }
                    Some(Err(e))
                },
            }
        } else {
            match self.parser.decode_header(&self.source) {
                Ok(header) => {
                    if header.tag.0 == 0x0008 && header.tag.1 == 0x0005 {
                        let marker = self.create_element_marker(header);
                        proof {
                            assert(self@ =~= spec_lazy_next(pre).0);
                        }
                        Some(Ok(marker))
                    } else {
                        if header.vr == VR::SQ {
                            self.in_sequence = true;
                            if self.depth < 0xFFFF_FFFF {
                                self.depth = self.depth + 1;
                            }
                        }
                        let marker = self.create_element_marker(header);
                        proof {
                            assert(self@ =~= spec_lazy_next(pre).0);
                        }
                        Some(Ok(marker))
                    }
                },
                Err(e) => {
                    self.hard_break = true;
                    proof {
                        assert(self@ =~= spec_lazy_next(pre).0);
                    }
                    Some(Err(e))
                },
            }
        }
    }
}

} // verus!
