//! Tests of the streaming tokenizer: token streams over concrete data sets.

use dicom_dataset::dataset::{DataSetReader, DataToken};
use dicom_dataset::decode::DicomParser;
use dicom_dataset::header::{DataElementHeader, Error, Length, Tag, VR};
use dicom_dataset::value::PrimitiveValue;

fn validate_dataset_reader(data: &[u8], ground_truth: Vec<DataToken>) {
    let parser = DicomParser::new();
    let mut dset_reader = DataSetReader::new(data.to_vec(), parser);

    let mut produced: Vec<DataToken> = Vec::new();
    while let Some(res) = dset_reader.next() {
        let token = res.expect("should parse without an error");
        produced.push(token);
    }

    assert_eq!(produced, ground_truth);
    assert_eq!(dset_reader.bytes_read(), data.len() as u64);
}

#[test]
fn sequence_reading_explicit() {
    let data: Vec<u8> = vec![
        0x18, 0x00, 0x11, 0x60, // sequence tag: (0018,6011) SequenceOfUltrasoundRegions
        b'S', b'Q', // VR
        0x00, 0x00, // reserved
        0x2e, 0x00, 0x00, 0x00, // length: 28 + 18 = 46 (#= 2)
        // -- 12 --
        0xfe, 0xff, 0x00, 0xe0, // item start tag
        0x14, 0x00, 0x00, 0x00, // item length: 20 (#= 2)
        // -- 20 --
        0x18, 0x00, 0x12, 0x60, b'U', b'S', 0x02, 0x00, 0x01, 0x00, // (0018,6012) len = 2, value = 1
        // -- 30 --
        0x18, 0x00, 0x14, 0x60, b'U', b'S', 0x02, 0x00, 0x02, 0x00, // (0018,6014) len = 2, value = 2
        // -- 40 --
        0xfe, 0xff, 0x00, 0xe0, // item start tag
        0x0a, 0x00, 0x00, 0x00, // item length: 10 (#= 1)
        // -- 48 --
        0x18, 0x00, 0x12, 0x60, b'U', b'S', 0x02, 0x00, 0x04, 0x00, // (0018,6012) len = 2, value = 4
        // -- 58 --
        0x20, 0x00, 0x00, 0x40, b'L', b'T', 0x04, 0x00, // (0020,4000) ImageComments, len = 4
        b'T', b'E', b'S', b'T', // value = "TEST"
    ];

    let ground_truth = vec![
        DataToken::SequenceStart {
            tag: Tag(0x0018, 0x6011),
            len: Length(46),
        },
        DataToken::ItemStart { len: Length(20) },
        DataToken::ElementHeader(DataElementHeader {
            tag: Tag(0x0018, 0x6012),
            vr: VR::US,
            len: Length(2),
        }),
        DataToken::PrimitiveValue(PrimitiveValue::U16(vec![1])),
        DataToken::ElementHeader(DataElementHeader {
            tag: Tag(0x0018, 0x6014),
            vr: VR::US,
            len: Length(2),
        }),
        DataToken::PrimitiveValue(PrimitiveValue::U16(vec![2])),
        DataToken::ItemEnd,
        DataToken::ItemStart { len: Length(10) },
        DataToken::ElementHeader(DataElementHeader {
            tag: Tag(0x0018, 0x6012),
            vr: VR::US,
            len: Length(2),
        }),
        DataToken::PrimitiveValue(PrimitiveValue::U16(vec![4])),
        DataToken::ItemEnd,
        DataToken::SequenceEnd,
        DataToken::ElementHeader(DataElementHeader {
            tag: Tag(0x0020, 0x4000),
            vr: VR::LT,
            len: Length(4),
        }),
        DataToken::PrimitiveValue(PrimitiveValue::Str("TEST".to_string())),
    ];

    validate_dataset_reader(&data, ground_truth);
}

#[test]
fn sequence_reading_explicit_2() {
    let data: Vec<u8> = vec![
        // SequenceStart: (0008,2218) ; len = 54 (#=3)
        0x08, 0x00, 0x18, 0x22, b'S', b'Q', 0x00, 0x00, 0x36, 0x00, 0x00, 0x00,
        // -- 12, --
        // ItemStart: len = 46
        0xfe, 0xff, 0x00, 0xe0, 0x2e, 0x00, 0x00, 0x00,
        // -- 20, --
        // ElementHeader: (0008,0100) CodeValue; len = 8
        0x08, 0x00, 0x00, 0x01, b'S', b'H', 0x08, 0x00,
        // PrimitiveValue
        0x54, 0x2d, 0x44, 0x31, 0x32, 0x31, 0x33, b' ',
        // -- 36, --
        // ElementHeader: (0008,0102) CodingSchemeDesignator; len = 4
        0x08, 0x00, 0x02, 0x01, b'S', b'H', 0x04, 0x00,
        // PrimitiveValue
        0x53, 0x52, 0x54, b' ',
        // -- 48, --
        // (0008,0104) CodeMeaning; len = 10
        0x08, 0x00, 0x04, 0x01, b'L', b'O', 0x0a, 0x00,
        // PrimitiveValue
        0x4a, 0x61, 0x77, b' ', 0x72, 0x65, 0x67, 0x69, 0x6f, 0x6e,
        // -- 66 --
        // SequenceStart: (0040,0555) AcquisitionContextSequence; len = 0
        0x40, 0x00, 0x55, 0x05, b'S', b'Q', 0x00, 0x00, 0x00, 0x00, 0x00, 0x00,
        // ElementHeader: (2050,0020) PresentationLUTShape; len = 8
        0x50, 0x20, 0x20, 0x00, b'C', b'S', 0x08, 0x00,
        // PrimitiveValue
        b'I', b'D', b'E', b'N', b'T', b'I', b'T', b'Y',
    ];

    let ground_truth = vec![
        DataToken::SequenceStart {
            tag: Tag(0x0008, 0x2218),
            len: Length(54),
        },
        DataToken::ItemStart { len: Length(46) },
        DataToken::ElementHeader(DataElementHeader {
            tag: Tag(0x0008, 0x0100),
            vr: VR::SH,
            len: Length(8),
        }),
        DataToken::PrimitiveValue(PrimitiveValue::Strs(vec!["T-D1213 ".to_string()])),
        DataToken::ElementHeader(DataElementHeader {
            tag: Tag(0x0008, 0x0102),
            vr: VR::SH,
            len: Length(4),
        }),
        DataToken::PrimitiveValue(PrimitiveValue::Strs(vec!["SRT ".to_string()])),
        DataToken::ElementHeader(DataElementHeader {
            tag: Tag(0x0008, 0x0104),
            vr: VR::LO,
            len: Length(10),
        }),
        DataToken::PrimitiveValue(PrimitiveValue::Strs(vec!["Jaw region".to_string()])),
        DataToken::ItemEnd,
        DataToken::SequenceEnd,
        DataToken::SequenceStart {
            tag: Tag(0x0040, 0x0555),
            len: Length(0),
        },
        DataToken::SequenceEnd,
        DataToken::ElementHeader(DataElementHeader {
            tag: Tag(0x2050, 0x0020),
            vr: VR::CS,
            len: Length(8),
        }),
        DataToken::PrimitiveValue(PrimitiveValue::Strs(vec!["IDENTITY".to_string()])),
    ];

    validate_dataset_reader(&data, ground_truth);
}

#[test]
fn undefined_length_sequence_closed_by_delimiters() {
    let data: Vec<u8> = vec![
        // (0008,103E) SQ, undefined length
        0x08, 0x00, 0x3e, 0x10, b'S', b'Q', 0x00, 0x00, 0xff, 0xff, 0xff, 0xff,
        // Item, undefined length
        0xfe, 0xff, 0x00, 0xe0, 0xff, 0xff, 0xff, 0xff,
        // (0008,0100) SH len = 4
        0x08, 0x00, 0x00, 0x01, b'S', b'H', 0x04, 0x00, b'A', b'B', b'C', b'D',
        // item delimiter
        0xfe, 0xff, 0x0d, 0xe0, 0x00, 0x00, 0x00, 0x00,
        // sequence delimiter
        0xfe, 0xff, 0xdd, 0xe0, 0x00, 0x00, 0x00, 0x00,
    ];

    let ground_truth = vec![
        DataToken::SequenceStart {
            tag: Tag(0x0008, 0x103e),
            len: Length(0xffff_ffff),
        },
        DataToken::ItemStart {
            len: Length(0xffff_ffff),
        },
        DataToken::ElementHeader(DataElementHeader {
            tag: Tag(0x0008, 0x0100),
            vr: VR::SH,
            len: Length(4),
        }),
        DataToken::PrimitiveValue(PrimitiveValue::Strs(vec!["ABCD".to_string()])),
        DataToken::ItemEnd,
        DataToken::SequenceEnd,
    ];

    validate_dataset_reader(&data, ground_truth);
}

#[test]
fn empty_explicit_item_cascades() {
    let data: Vec<u8> = vec![
        // (0008,2218) SQ len = 8: exactly one empty item header
        0x08, 0x00, 0x18, 0x22, b'S', b'Q', 0x00, 0x00, 0x08, 0x00, 0x00, 0x00,
        // Item len = 0
        0xfe, 0xff, 0x00, 0xe0, 0x00, 0x00, 0x00, 0x00,
    ];

    let ground_truth = vec![
        DataToken::SequenceStart {
            tag: Tag(0x0008, 0x2218),
            len: Length(8),
        },
        DataToken::ItemStart { len: Length(0) },
        DataToken::ItemEnd,
        DataToken::SequenceEnd,
    ];

    validate_dataset_reader(&data, ground_truth);
}

#[test]
fn graceful_eof_after_complete_element() {
    let data: Vec<u8> = vec![
        0x20, 0x00, 0x00, 0x40, b'L', b'T', 0x04, 0x00, b'T', b'E', b'S', b'T',
    ];

    let parser = DicomParser::new();
    let mut reader = DataSetReader::new(data.clone(), parser);

    let first = reader.next().unwrap().unwrap();
    assert_eq!(
        first,
        DataToken::ElementHeader(DataElementHeader {
            tag: Tag(0x0020, 0x4000),
            vr: VR::LT,
            len: Length(4),
        })
    );
    let second = reader.next().unwrap().unwrap();
    assert_eq!(
        second,
        DataToken::PrimitiveValue(PrimitiveValue::Str("TEST".to_string()))
    );
    assert!(reader.next().is_none());
    assert!(reader.next().is_none());
    assert_eq!(reader.bytes_read(), data.len() as u64);
}

#[test]
fn inconsistent_length_overshoot_is_terminal() {
    let data: Vec<u8> = vec![
        // (0018,6011) SQ len = 10
        0x18, 0x00, 0x11, 0x60, b'S', b'Q', 0x00, 0x00, 0x0a, 0x00, 0x00, 0x00,
        // Item len = 10: ends at offset 30
        0xfe, 0xff, 0x00, 0xe0, 0x0a, 0x00, 0x00, 0x00,
        // (0008,0100) SH declares len = 20, overshooting the item
        0x08, 0x00, 0x00, 0x01, b'S', b'H', 0x14, 0x00,
        b'A', b'B', b'C', b'D', b'E', b'F', b'G', b'H', b'I', b'J',
        b'K', b'L', b'M', b'N', b'O', b'P', b'Q', b'R', b'S', b'T',
    ];

    let parser = DicomParser::new();
    let mut reader = DataSetReader::new(data, parser);

    assert!(reader.next().unwrap().is_ok()); // SequenceStart
    assert!(reader.next().unwrap().is_ok()); // ItemStart
    assert!(reader.next().unwrap().is_ok()); // ElementHeader
    assert!(reader.next().unwrap().is_ok()); // PrimitiveValue, ending at 48
    let err = reader.next().unwrap().unwrap_err();
    assert_eq!(err, Error::InconsistentSequenceEnd(30, 48));
    // the iteration is fused: every further call returns None
    assert!(reader.next().is_none());
    assert!(reader.next().is_none());
}

#[test]
fn trailing_partial_header_ends_gracefully() {
    // an element followed by three stray bytes: the header decode refuses to
    // consume a partial header, so iteration ends gracefully without them
    let data: Vec<u8> = vec![
        0x20, 0x00, 0x00, 0x40, b'L', b'T', 0x04, 0x00, b'T', b'E', b'S', b'T', 0x00, 0x01,
        0x02,
    ];
    let parser = DicomParser::new();
    let mut reader = DataSetReader::new(data.clone(), parser);
    assert!(reader.next().unwrap().is_ok()); // ElementHeader
    assert!(reader.next().unwrap().is_ok()); // PrimitiveValue
    assert!(reader.next().is_none());
    assert_eq!(reader.bytes_read(), (data.len() - 3) as u64);
}

#[test]
fn item_delimiter_straight_after_sequence_start() {
    // a malformed stream whose undefined-length sequence opens directly onto
    // an item delimiter: the delimiter still closes the top of the stack
    let data: Vec<u8> = vec![
        0x08, 0x00, 0x18, 0x22, b'S', b'Q', 0x00, 0x00, 0xff, 0xff, 0xff, 0xff,
        0xfe, 0xff, 0x0d, 0xe0, 0x00, 0x00, 0x00, 0x00,
        0xfe, 0xff, 0xdd, 0xe0, 0x00, 0x00, 0x00, 0x00,
    ];
    let parser = DicomParser::new();
    let mut reader = DataSetReader::new(data, parser);
    assert!(matches!(
        reader.next().unwrap().unwrap(),
        DataToken::SequenceStart { .. }
    ));
    assert_eq!(reader.next().unwrap().unwrap(), DataToken::ItemEnd);
    assert_eq!(reader.next().unwrap().unwrap(), DataToken::SequenceEnd);
    assert!(reader.next().is_none());
}

fn nesting_delta(token: &DataToken) -> i64 {
    match token {
        DataToken::SequenceStart { .. } => 1,
        DataToken::ItemStart { .. } => 1,
        DataToken::SequenceEnd => -1,
        DataToken::ItemEnd => -1,
        _ => 0,
    }
}

#[test]
fn token_stream_is_balanced_and_well_nested() {
    let data: Vec<u8> = vec![
        0x08, 0x00, 0x18, 0x22, b'S', b'Q', 0x00, 0x00, 0x14, 0x00, 0x00, 0x00,
        0xfe, 0xff, 0x00, 0xe0, 0x0c, 0x00, 0x00, 0x00,
        0x08, 0x00, 0x00, 0x01, b'S', b'H', 0x04, 0x00, b'W', b'X', b'Y', b'Z',
    ];

    let parser = DicomParser::new();
    let mut reader = DataSetReader::new(data, parser);
    let mut depth: i64 = 0;
    while let Some(res) = reader.next() {
        let token = res.expect("stream should parse");
        depth += nesting_delta(&token);
        assert!(depth >= 0, "a closing token closed more scopes than were open");
    }
    assert_eq!(depth, 0, "opening and closing tokens must balance");
}

#[test]
fn every_value_follows_its_header() {
    let data: Vec<u8> = vec![
        0x08, 0x00, 0x18, 0x22, b'S', b'Q', 0x00, 0x00, 0x14, 0x00, 0x00, 0x00,
        0xfe, 0xff, 0x00, 0xe0, 0x0c, 0x00, 0x00, 0x00,
        0x08, 0x00, 0x00, 0x01, b'S', b'H', 0x04, 0x00, b'W', b'X', b'Y', b'Z',
        0x20, 0x00, 0x00, 0x40, b'L', b'T', 0x04, 0x00, b'T', b'E', b'S', b'T',
    ];

    let parser = DicomParser::new();
    let mut reader = DataSetReader::new(data, parser);
    let mut tokens: Vec<DataToken> = Vec::new();
    while let Some(res) = reader.next() {
        tokens.push(res.expect("stream should parse"));
    }
    for (i, token) in tokens.iter().enumerate() {
        if let DataToken::PrimitiveValue(_) = token {
            assert!(i > 0, "a value cannot open the stream");
            assert!(
                matches!(tokens[i - 1], DataToken::ElementHeader(_)),
                "a value must immediately follow its element header"
            );
        }
    }
}

#[test]
fn bytes_read_is_monotonic() {
    let data: Vec<u8> = vec![
        0x08, 0x00, 0x18, 0x22, b'S', b'Q', 0x00, 0x00, 0x14, 0x00, 0x00, 0x00,
        0xfe, 0xff, 0x00, 0xe0, 0x0c, 0x00, 0x00, 0x00,
        0x08, 0x00, 0x00, 0x01, b'S', b'H', 0x04, 0x00, b'W', b'X', b'Y', b'Z',
    ];

    let parser = DicomParser::new();
    let mut reader = DataSetReader::new(data, parser);
    let mut last = reader.bytes_read();
    while let Some(res) = reader.next() {
        res.expect("stream should parse");
        let now = reader.bytes_read();
        assert!(now >= last, "the position never decreases");
        last = now;
    }
}

#[test]
fn explicit_lengths_consume_exactly_and_then_stop() {
    // all scopes have explicit lengths and the input ends exactly at the
    // last closing token
    let data: Vec<u8> = vec![
        0x08, 0x00, 0x18, 0x22, b'S', b'Q', 0x00, 0x00, 0x14, 0x00, 0x00, 0x00,
        0xfe, 0xff, 0x00, 0xe0, 0x0c, 0x00, 0x00, 0x00,
        0x08, 0x00, 0x00, 0x01, b'S', b'H', 0x04, 0x00, b'W', b'X', b'Y', b'Z',
    ];

    let parser = DicomParser::new();
    let mut reader = DataSetReader::new(data.clone(), parser);
    let mut count = 0;
    while let Some(res) = reader.next() {
        res.expect("stream should parse");
        count += 1;
    }
    assert_eq!(count, 6); // SequenceStart, ItemStart, header, value, then ItemEnd and SequenceEnd cascading
    assert_eq!(reader.bytes_read(), data.len() as u64);
    assert!(reader.next().is_none());
}

#[test]
fn flat_streams_alternate_header_and_value() {
    let data: Vec<u8> = vec![
        0x18, 0x00, 0x12, 0x60, b'U', b'S', 0x02, 0x00, 0x2a, 0x00,
        0x20, 0x00, 0x00, 0x40, b'L', b'T', 0x04, 0x00, b'T', b'E', b'S', b'T',
    ];

    let parser = DicomParser::new();
    let mut reader = DataSetReader::new(data, parser);
    let mut tokens: Vec<DataToken> = Vec::new();
    while let Some(res) = reader.next() {
        tokens.push(res.expect("stream should parse"));
    }
    assert_eq!(tokens.len(), 4, "two tokens per element");
    for (i, token) in tokens.iter().enumerate() {
        if i % 2 == 0 {
            assert!(matches!(token, DataToken::ElementHeader(_)));
        } else {
            assert!(matches!(token, DataToken::PrimitiveValue(_)));
        }
    }
    assert_eq!(
        tokens[1],
        DataToken::PrimitiveValue(PrimitiveValue::U16(vec![42]))
    );
}
