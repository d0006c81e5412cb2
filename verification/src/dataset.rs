//! The streaming tokenizer over a DICOM data set.
//!
//! [`DataSetReader`] drives a state machine over the input bytes and produces
//! the token stream of the data set: element headers, sequence and item
//! boundaries, and primitive values. The machine's exact transition function
//! is [`spec_next`]; the executable [`DataSetReader::next`] is proved to
//! follow it step for step.

use vstd::prelude::*;

use crate::decode::{
    spec_decode_header, spec_decode_item_header, spec_read_value, DicomParser, HeaderOutcome,
    ItemOutcome, ValueOutcome,
};
use crate::header::{DataElementHeader, Error, Length, SequenceItemHeader, Tag, VR};
use crate::value::{PrimitiveValue, PrimitiveValueView};

verus! {

/// A token of the data-set stream: the interpretation of the input as a
/// sequence of symbols which either represent data headers or actual value
/// data.
#[derive(Clone, Debug, PartialEq)]
pub enum DataToken {
    /// A data header of a primitive value.
    ElementHeader(DataElementHeader),
    /// The beginning of a sequence element.
    SequenceStart { tag: Tag, len: Length },
    /// The ending delimiter of a sequence.
    SequenceEnd,
    /// The beginning of a new item in the sequence.
    ItemStart { len: Length },
    /// The ending delimiter of an item.
    ItemEnd,
    /// A primitive data element value.
    PrimitiveValue(PrimitiveValue),
}

/// The mathematical model of a data-set token.
pub enum DataTokenView {
    ElementHeader(DataElementHeader),
    SequenceStart { tag: Tag, len: Length },
    SequenceEnd,
    ItemStart { len: Length },
    ItemEnd,
    PrimitiveValue(PrimitiveValueView),
}

impl View for DataToken {
    type V = DataTokenView;

    open spec fn view(&self) -> DataTokenView {
        match self {
            DataToken::ElementHeader(h) => DataTokenView::ElementHeader(*h),
            DataToken::SequenceStart { tag, len } => (DataTokenView::SequenceStart {
                tag: *tag,
                len: *len,
            }),
            DataToken::SequenceEnd => DataTokenView::SequenceEnd,
            DataToken::ItemStart { len } => (DataTokenView::ItemStart { len: *len }),
            DataToken::ItemEnd => DataTokenView::ItemEnd,
            DataToken::PrimitiveValue(v) => DataTokenView::PrimitiveValue(v@),
        }
    }
}

/// Whether an open scope is a sequence or an item.
#[derive(Clone, Copy, Debug, PartialEq, Eq, Structural)]
pub enum SeqTokenType {
    /// The scope of a sequence element.
    Sequence,
    /// The scope of one item of a sequence.
    Item,
}

/// One open scope on the delimiter stack.
#[derive(Clone, Copy, Debug, PartialEq, Eq, Structural)]
pub struct SeqToken {
    /// Whether the scope is a sequence or an item.
    pub typ: SeqTokenType,
    /// The scope's declared length, possibly undefined.
    pub len: Length,
    /// The number of bytes the parser had read when the scope's opening
    /// header finished decoding; the scope's value bytes start here.
    pub base_offset: u64,
}

/// The mathematical model of a [`DataSetReader`]: the input bytes, the
/// parser position, and the machine's control state.
#[verifier::ext_equal]
pub struct ReaderView {
    /// The input bytes.
    pub source: Seq<u8>,
    /// The number of bytes consumed so far.
    pub pos: int,
    /// Whether the reader expects an item header next.
    pub in_sequence: bool,
    /// Whether a check for an explicit-length scope end is pending.
    pub delimiter_check_pending: bool,
    /// The stack of open scopes.
    pub seq_delimiters: Seq<SeqToken>,
    /// Whether iteration has terminated.
    pub hard_break: bool,
    /// The header whose value is owed next, if any.
    pub last_header: Option<DataElementHeader>,
}

/// The model of an emitted step: `None` is the end of iteration.
pub open spec fn spec_outcome(r: Option<Result<DataToken, Error>>) -> Option<
    Result<DataTokenView, Error>,
> {
    match r {
        None => None,
        Some(res) => match res {
            Ok(t) => Some(Ok(t@)),
            Err(e) => Some(Err(e)),
        },
    }
}

/// The delimiter check consulted while `delimiter_check_pending` is set: if
/// the top scope has an explicit length and the parser position has reached
/// its end, the scope is popped and its closing token returned (the flag
/// stays set, so simultaneously ending scopes cascade); a position past the
/// end is the `InconsistentSequenceEnd` error; otherwise the flag is cleared
/// and nothing is returned.
pub open spec fn spec_update_seq_delimiters(s: ReaderView) -> (ReaderView, Result<
    Option<DataTokenView>,
    Error,
>) {
    if s.seq_delimiters.len() == 0 {
        (ReaderView { delimiter_check_pending: false, ..s }, Ok(None))
    } else {
        let top = s.seq_delimiters.last();
        match top.len.spec_get() {
            None => (ReaderView { delimiter_check_pending: false, ..s }, Ok(None)),
            Some(l) => {
                let eos = top.base_offset + l;
                if eos == s.pos {
                    if top.typ == SeqTokenType::Sequence {
                        (
                            ReaderView {
                                in_sequence: false,
                                seq_delimiters: s.seq_delimiters.drop_last(),
                                ..s
                            },
                            Ok(Some(DataTokenView::SequenceEnd)),
                        )
                    } else {
                        (
                            ReaderView {
                                in_sequence: true,
                                seq_delimiters: s.seq_delimiters.drop_last(),
                                ..s
                            },
                            Ok(Some(DataTokenView::ItemEnd)),
                        )
                    }
                } else if eos < s.pos {
                    (s, Err(Error::InconsistentSequenceEnd(eos as u64, s.pos as u64)))
                } else {
                    (ReaderView { delimiter_check_pending: false, ..s }, Ok(None))
                }
            },
        }
    }
}

/// The step taken once the delimiter check (if any) has fallen through: one
/// of the three decode branches, in the machine's priority order.
pub open spec fn spec_next_inner(s: ReaderView) -> (ReaderView, Option<
    Result<DataTokenView, Error>,
>) {
    if s.in_sequence {
        match spec_decode_item_header(s.source, s.pos) {
            ItemOutcome::Eof => (
                ReaderView { hard_break: true, ..s },
                Some(Err(Error::UnexpectedEof)),
            ),
            ItemOutcome::Malformed => (
                ReaderView { hard_break: true, ..s },
                Some(Err(Error::DecoderError)),
            ),
            ItemOutcome::Decoded { header, end } => match header {
                SequenceItemHeader::Item { len } => (
                    ReaderView {
                        in_sequence: false,
                        pos: end,
                        seq_delimiters: s.seq_delimiters.push(
                            SeqToken {
                                typ: SeqTokenType::Item,
                                len,
                                base_offset: end as u64,
                            },
                        ),
                        delimiter_check_pending: if len == Length(0) {
                            true
                        } else {
                            s.delimiter_check_pending
                        },
                        ..s
                    },
                    Some(Ok(DataTokenView::ItemStart { len })),
                ),
                SequenceItemHeader::ItemDelimiter => (
                    ReaderView {
                        in_sequence: true,
                        pos: end,
                        seq_delimiters: if s.seq_delimiters.len() == 0 {
                            s.seq_delimiters
                        } else {
                            s.seq_delimiters.drop_last()
                        },
                        ..s
                    },
                    Some(Ok(DataTokenView::ItemEnd)),
                ),
                SequenceItemHeader::SequenceDelimiter => (
                    ReaderView {
                        in_sequence: false,
                        pos: end,
                        seq_delimiters: if s.seq_delimiters.len() == 0 {
                            s.seq_delimiters
                        } else {
                            s.seq_delimiters.drop_last()
                        },
                        ..s
                    },
                    Some(Ok(DataTokenView::SequenceEnd)),
                ),
            },
        }
    } else if s.last_header is Some {
        let h = s.last_header->Some_0;
        match spec_read_value(s.source, s.pos, h) {
            ValueOutcome::Eof => (
                ReaderView { hard_break: true, last_header: None, ..s },
                Some(Err(Error::UnexpectedEof)),
            ),
            ValueOutcome::Malformed => (
                ReaderView { hard_break: true, last_header: None, ..s },
                Some(Err(Error::DecoderError)),
            ),
            ValueOutcome::Decoded { value, end } => (
                ReaderView {
                    last_header: None,
                    delimiter_check_pending: true,
                    pos: end,
                    ..s
                },
                Some(Ok(DataTokenView::PrimitiveValue(value))),
            ),
        }
    } else {
        match spec_decode_header(s.source, s.pos) {
            HeaderOutcome::Eof => (ReaderView { hard_break: true, ..s }, None),
            HeaderOutcome::Malformed => (
                ReaderView { hard_break: true, ..s },
                Some(Err(Error::DecoderError)),
            ),
            HeaderOutcome::Decoded { header, end } => if header.vr == VR::SQ {
                (
                    ReaderView {
                        in_sequence: true,
                        pos: end,
                        seq_delimiters: s.seq_delimiters.push(
                            SeqToken {
                                typ: SeqTokenType::Sequence,
                                len: header.len,
                                base_offset: end as u64,
                            },
                        ),
                        delimiter_check_pending: if header.len == Length(0) {
                            true
                        } else {
                            s.delimiter_check_pending
                        },
                        ..s
                    },
                    Some(Ok(DataTokenView::SequenceStart { tag: header.tag, len: header.len })),
                )
            } else if header.tag == Tag(0xFFFE, 0xE00D) {
                (
                    ReaderView { in_sequence: true, pos: end, ..s },
                    Some(Ok(DataTokenView::ItemEnd)),
                )
            } else {
                (
                    ReaderView { last_header: Some(header), pos: end, ..s },
                    Some(Ok(DataTokenView::ElementHeader(header))),
                )
            },
        }
    }
}

/// One step of the tokenizer: exactly one of four branches, in priority
/// order — fused, pending delimiter check, item header expected, value or
/// element header expected. An `UnexpectedEof` from an element-header decode
/// is the graceful end of the stream; every other failure is a terminal
/// error surfaced once.
pub open spec fn spec_next(s: ReaderView) -> (ReaderView, Option<Result<DataTokenView, Error>>) {
    if s.hard_break {
        (s, None)
    } else if s.delimiter_check_pending {
        let (s1, r) = spec_update_seq_delimiters(s);
        match r {
            Err(e) => (ReaderView { hard_break: true, ..s1 }, Some(Err(e))),
            Ok(opt) => match opt {
                Some(t) => (s1, Some(Ok(t))),
                None => spec_next_inner(s1),
            },
        }
    } else {
        spec_next_inner(s)
    }
}

/// A reader that retrieves the token structure of a DICOM data set from an
/// in-memory byte source, one token per call to [`DataSetReader::next`].
#[derive(Debug)]
pub struct DataSetReader {
    source: Vec<u8>,
    parser: DicomParser,
    /// whether the reader is expecting an item next (or a sequence delimiter)
    in_sequence: bool,
    /// whether a check for a sequence or item delimitation is pending
    delimiter_check_pending: bool,
    /// a stack of delimiters
    seq_delimiters: Vec<SeqToken>,
    /// fuse the iteration process if true
    hard_break: bool,
    /// last decoded header
    last_header: Option<DataElementHeader>,
}

impl View for DataSetReader {
    type V = ReaderView;

    closed spec fn view(&self) -> ReaderView {
        ReaderView {
            source: self.source@,
            pos: self.parser@,
            in_sequence: self.in_sequence,
            delimiter_check_pending: self.delimiter_check_pending,
            seq_delimiters: self.seq_delimiters@,
            hard_break: self.hard_break,
            last_header: self.last_header,
        }
    }
}

impl DataSetReader {
    /// Creates a new reader over the given source with the given parser.
    pub fn new(source: Vec<u8>, parser: DicomParser) -> (r: Self)
        ensures
            r@.source == source@,
            r@.pos == parser@,
            !r@.in_sequence,
            !r@.delimiter_check_pending,
            r@.seq_delimiters == Seq::<SeqToken>::empty(),
            !r@.hard_break,
            r@.last_header is None,
    {
        let r = DataSetReader {
            source,
            parser,
            seq_delimiters: Vec::new(),
            delimiter_check_pending: false,
            in_sequence: false,
            hard_break: false,
            last_header: None,
        };
        proof {
            assert(r@.seq_delimiters =~= Seq::<SeqToken>::empty());
        }
        r
    }

    /// The cumulative number of bytes the parser has consumed.
    pub fn bytes_read(&self) -> (r: u64)
        ensures
            r == self@.pos,
    {
        self.parser.bytes_read()
    }

    /// The item or sequence delimitation step for explicit lengths, as
    /// [`spec_update_seq_delimiters`] states.
    fn update_seq_delimiters(&mut self) -> (r: Result<Option<DataToken>, Error>)
        ensures
            ({
                let (post, out) = spec_update_seq_delimiters(old(self)@);
                &&& final(self)@ == post
                &&& match r {
                    Ok(opt) => match opt {
                        None => out == Ok::<Option<DataTokenView>, Error>(None),
                        Some(t) => out == Ok::<Option<DataTokenView>, Error>(Some(t@)),
                    },
                    Err(e) => out == Err::<Option<DataTokenView>, Error>(e),
                }
            }),
    {
        let ghost pre = self@;
        proof {
            crate::decode::lemma_parser_pos_bound(&self.parser);
        }
        let n = self.seq_delimiters.len();
        if n > 0 {
            let sd = self.seq_delimiters[n - 1];
            if let Some(len) = sd.len.get() {
                match sd.base_offset.checked_add(len as u64) {
                    Some(eos) => {
                        let bytes_read = self.parser.bytes_read();
                        if eos == bytes_read {
                            // end of delimiter, as indicated by the element's length
                            let token;
                            if sd.typ == SeqTokenType::Sequence {
                                self.in_sequence = false;
                                token = DataToken::SequenceEnd;
                            } else {
                                self.in_sequence = true;
                                token = DataToken::ItemEnd;
                            }
                            let _ = self.seq_delimiters.pop();
                            proof {
                                assert(self@.seq_delimiters =~= pre.seq_delimiters.drop_last());
                                assert(self@ =~= spec_update_seq_delimiters(pre).0);
                            }
                            return Ok(Some(token));
                        } else if eos < bytes_read {
                            return Err(Error::InconsistentSequenceEnd(eos, bytes_read));
                        }
                    },
                    None => {
                        // the scope's computed end is beyond any reachable
                        // position, so it cannot have been reached yet
                    },
                }
            }
        }
        self.delimiter_check_pending = false;
        proof {
            assert(self@ =~= spec_update_seq_delimiters(pre).0);
        }
        Ok(None)
    }

    /// Produces the next token of the data set, as [`spec_next`] states:
    /// `Some(Ok(token))` for the next token, `Some(Err(e))` once on the
    /// first failure, and `None` at the end of the stream and ever after.
    pub fn next(&mut self) -> (r: Option<Result<DataToken, Error>>)
        ensures
            final(self)@ == spec_next(old(self)@).0,
            spec_outcome(r) == spec_next(old(self)@).1,
    {
        let ghost pre = self@;
        if self.hard_break {
            return None;
        }
        // item or sequence delimitation logic for explicit lengths
        if self.delimiter_check_pending {
            match self.update_seq_delimiters() {
                Err(e) => {
                    self.hard_break = true;
                    proof {
                        assert(self@ =~= spec_next(pre).0);
                    }
                    return Some(Err(e));
                },
                Ok(Some(token)) => {
                    return Some(Ok(token));
                },
                Ok(None) => {},
            }
        }
        let ghost mid = self@;
        proof {
            assert(spec_next(pre) == spec_next_inner(mid));
        }
        if self.in_sequence {
            match self.parser.decode_item_header(&self.source) {
                Ok(header) => match header {
                    SequenceItemHeader::Item { len } => {
                        // entered a new item
                        self.in_sequence = false;
                        let base = self.parser.bytes_read();
                        self.seq_delimiters.push(
                            SeqToken { typ: SeqTokenType::Item, len, base_offset: base },
                        );
                        // items can be empty
                        if len.0 == 0 {
                            self.delimiter_check_pending = true;
                        }
                        proof {
                            assert(self@ =~= spec_next_inner(mid).0);
                        }
                        Some(Ok(DataToken::ItemStart { len }))
                    },
                    SequenceItemHeader::ItemDelimiter => {
                        // closed an item
                        if self.seq_delimiters.len() > 0 {
                            let _ = self.seq_delimiters.pop();
                        }
                        self.in_sequence = true;
                        proof {
                            assert(self@ =~= spec_next_inner(mid).0);
                        }
                        Some(Ok(DataToken::ItemEnd))
                    },
                    SequenceItemHeader::SequenceDelimiter => {
                        // closed a sequence
                        if self.seq_delimiters.len() > 0 {
                            let _ = self.seq_delimiters.pop();
                        }
                        self.in_sequence = false;
                        proof {
                            assert(self@ =~= spec_next_inner(mid).0);
                        }
                        Some(Ok(DataToken::SequenceEnd))
                    },
                },
                Err(e) => {
                    self.hard_break = true;
                    proof {
                        assert(self@ =~= spec_next_inner(mid).0);
                    }
                    Some(Err(e))
                },
            }
        } else if self.last_header.is_some() {
            // a plain element header was read, so a value is expected
            let header = self.last_header.unwrap();
            let value = match self.parser.read_value(&self.source, &header) {
                Ok(v) => v,
                Err(e) => {
                    self.hard_break = true;
                    self.last_header = None;
                    proof {
                        assert(self@ =~= spec_next_inner(mid).0);
                    }
                    return Some(Err(e));
                },
            };
            self.last_header = None;
            // sequences can end after this token
            self.delimiter_check_pending = true;
            proof {
                assert(self@ =~= spec_next_inner(mid).0);
            }
            Some(Ok(DataToken::PrimitiveValue(value)))
        } else {
            // a data element header or item delimiter is expected
            match self.parser.decode_header(&self.source) {
                Ok(header) => {
                    if header.vr == VR::SQ {
                        self.in_sequence = true;
                        let base = self.parser.bytes_read();
                        self.seq_delimiters.push(
                            SeqToken {
                                typ: SeqTokenType::Sequence,
                                len: header.len,
                                base_offset: base,
                            },
                        );
                        // sequences can end right after they start
                        if header.len.0 == 0 {
                            self.delimiter_check_pending = true;
                        }
                        proof {
                            assert(self@ =~= spec_next_inner(mid).0);
                        }
                        Some(Ok(DataToken::SequenceStart { tag: header.tag, len: header.len }))
                    } else if header.tag.0 == 0xFFFE && header.tag.1 == 0xE00D {
                        self.in_sequence = true;
                        proof {
                            assert(self@ =~= spec_next_inner(mid).0);
                        }
                        Some(Ok(DataToken::ItemEnd))
                    } else {
                        // save it for the next step
                        self.last_header = Some(header);
                        proof {
                            assert(self@ =~= spec_next_inner(mid).0);
                        }
                        Some(Ok(DataToken::ElementHeader(header)))
                    }
                },
                Err(e) => {
                    self.hard_break = true;
                    proof {
                        assert(self@ =~= spec_next_inner(mid).0);
                    }
                    if let Error::UnexpectedEof = e {
                        // the graceful end of the data set: a header decode
                        // found no further bytes at the top level
                        None
                    } else {
                        Some(Err(e))
                    }
                },
            }
        }
    }
}

} // verus!
