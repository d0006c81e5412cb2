//! Tests of the byte-level decoders, the value decoding rules and the error
//! kinds.

use dicom_dataset::dataset::{DataSetReader, DataToken};
use dicom_dataset::decode::DicomParser;
use dicom_dataset::header::{DataElementHeader, Error, Length, SequenceItemHeader, Tag, VR};
use dicom_dataset::value::{decode_value, PrimitiveValue};

#[test]
fn length_get_and_undefined() {
    assert_eq!(Length(46).get(), Some(46));
    assert_eq!(Length(0).get(), Some(0));
    assert_eq!(Length(0xffff_ffff).get(), None);
    assert!(Length(0xffff_ffff).is_undefined());
    assert!(!Length(0xffff_ffff).is_defined());
    assert!(Length(12).is_defined());
    assert!(!Length(12).is_undefined());
}

#[test]
fn tag_accessors() {
    let tag = Tag(0x0018, 0x6011);
    assert_eq!(tag.group(), 0x0018);
    assert_eq!(tag.element(), 0x6011);
}

#[test]
fn item_headers_convert_to_element_headers() {
    assert_eq!(
        SequenceItemHeader::Item { len: Length(20) }.element_header(),
        DataElementHeader {
            tag: Tag(0xfffe, 0xe000),
            vr: VR::UN,
            len: Length(20),
        }
    );
    assert_eq!(
        SequenceItemHeader::ItemDelimiter.element_header(),
        DataElementHeader {
            tag: Tag(0xfffe, 0xe00d),
            vr: VR::UN,
            len: Length(0),
        }
    );
    assert_eq!(
        SequenceItemHeader::SequenceDelimiter.element_header(),
        DataElementHeader {
            tag: Tag(0xfffe, 0xe0dd),
            vr: VR::UN,
            len: Length(0),
        }
    );
}

#[test]
fn unknown_vr_is_a_decoder_error() {
    let data: Vec<u8> = vec![0x08, 0x00, 0x00, 0x01, b'Z', b'Z', 0x04, 0x00];
    let parser = DicomParser::new();
    let mut reader = DataSetReader::new(data, parser);
    assert_eq!(reader.next().unwrap().unwrap_err(), Error::DecoderError);
    assert!(reader.next().is_none());
}

#[test]
fn odd_word_value_length_is_a_decoder_error() {
    let data: Vec<u8> = vec![
        0x18, 0x00, 0x12, 0x60, b'U', b'S', 0x03, 0x00, 0x01, 0x00, 0x02,
    ];
    let parser = DicomParser::new();
    let mut reader = DataSetReader::new(data, parser);
    assert!(reader.next().unwrap().is_ok()); // ElementHeader
    assert_eq!(reader.next().unwrap().unwrap_err(), Error::DecoderError);
    assert!(reader.next().is_none());
}

#[test]
fn eof_inside_a_value_is_an_error() {
    let data: Vec<u8> = vec![
        0x20, 0x00, 0x00, 0x40, b'L', b'T', 0x04, 0x00, b'T', b'E',
    ];
    let parser = DicomParser::new();
    let mut reader = DataSetReader::new(data, parser);
    assert!(reader.next().unwrap().is_ok()); // ElementHeader
    assert_eq!(reader.next().unwrap().unwrap_err(), Error::UnexpectedEof);
    assert!(reader.next().is_none());
}

#[test]
fn eof_inside_an_item_header_is_an_error() {
    let data: Vec<u8> = vec![
        0x08, 0x00, 0x18, 0x22, b'S', b'Q', 0x00, 0x00, 0xff, 0xff, 0xff, 0xff,
        0xfe, 0xff, 0x00, 0xe0, // item header cut short
    ];
    let parser = DicomParser::new();
    let mut reader = DataSetReader::new(data, parser);
    assert!(reader.next().unwrap().is_ok()); // SequenceStart
    assert_eq!(reader.next().unwrap().unwrap_err(), Error::UnexpectedEof);
    assert!(reader.next().is_none());
}

#[test]
fn nonzero_delimiter_length_is_a_decoder_error() {
    let data: Vec<u8> = vec![
        0x08, 0x00, 0x18, 0x22, b'S', b'Q', 0x00, 0x00, 0xff, 0xff, 0xff, 0xff,
        0xfe, 0xff, 0xdd, 0xe0, 0x04, 0x00, 0x00, 0x00, // sequence delimiter with len 4
    ];
    let parser = DicomParser::new();
    let mut reader = DataSetReader::new(data, parser);
    assert!(reader.next().unwrap().is_ok()); // SequenceStart
    assert_eq!(reader.next().unwrap().unwrap_err(), Error::DecoderError);
    assert!(reader.next().is_none());
}

#[test]
fn long_form_header_reads_32_bit_length() {
    let data: Vec<u8> = vec![
        0x08, 0x00, 0x00, 0x01, b'O', b'B', 0x00, 0x00, 0x02, 0x00, 0x00, 0x00,
        0xab, 0xcd,
    ];
    let parser = DicomParser::new();
    let mut reader = DataSetReader::new(data, parser);
    assert_eq!(
        reader.next().unwrap().unwrap(),
        DataToken::ElementHeader(DataElementHeader {
            tag: Tag(0x0008, 0x0100),
            vr: VR::OB,
            len: Length(2),
        })
    );
    assert_eq!(
        reader.next().unwrap().unwrap(),
        DataToken::PrimitiveValue(PrimitiveValue::U8(vec![0xab, 0xcd]))
    );
    assert!(reader.next().is_none());
}

#[test]
fn multi_valued_strings_split_on_backslash() {
    let data: Vec<u8> = vec![
        0x08, 0x00, 0x02, 0x01, b'C', b'S', 0x05, 0x00, b'A', b'B', b'\\', b'C', b'D',
    ];
    let parser = DicomParser::new();
    let mut reader = DataSetReader::new(data, parser);
    assert!(reader.next().unwrap().is_ok()); // ElementHeader
    assert_eq!(
        reader.next().unwrap().unwrap(),
        DataToken::PrimitiveValue(PrimitiveValue::Strs(vec![
            "AB".to_string(),
            "CD".to_string()
        ]))
    );
}

#[test]
fn decode_value_words() {
    assert_eq!(
        decode_value(VR::US, vec![0x01, 0x00, 0x02, 0x00]),
        Some(PrimitiveValue::U16(vec![1, 2]))
    );
    assert_eq!(
        decode_value(VR::UL, vec![0x78, 0x56, 0x34, 0x12]),
        Some(PrimitiveValue::U32(vec![0x1234_5678]))
    );
    assert_eq!(
        decode_value(VR::SS, vec![0xff, 0xff, 0x05, 0x00]),
        Some(PrimitiveValue::I16(vec![-1, 5]))
    );
    assert_eq!(
        decode_value(VR::SL, vec![0xfe, 0xff, 0xff, 0xff]),
        Some(PrimitiveValue::I32(vec![-2]))
    );
    assert_eq!(decode_value(VR::US, vec![0x01]), None);
    assert_eq!(decode_value(VR::UL, vec![0x01, 0x00]), None);
    assert_eq!(decode_value(VR::SQ, vec![]), None);
    assert_eq!(
        decode_value(VR::UN, vec![0x01, 0x02]),
        Some(PrimitiveValue::U8(vec![0x01, 0x02]))
    );
}

#[test]
fn decode_value_strings() {
    assert_eq!(
        decode_value(VR::LT, vec![b'T', b'E', b'S', b'T']),
        Some(PrimitiveValue::Str("TEST".to_string()))
    );
    assert_eq!(
        decode_value(VR::LT, vec![b'A', b'\\', b'B']),
        Some(PrimitiveValue::Str("A\\B".to_string()))
    );
    assert_eq!(
        decode_value(VR::CS, vec![]),
        Some(PrimitiveValue::Strs(vec!["".to_string()]))
    );
    assert_eq!(
        decode_value(VR::CS, vec![b'X', b'\\']),
        Some(PrimitiveValue::Strs(vec!["X".to_string(), "".to_string()]))
    );
}

#[test]
fn parser_counts_bytes_read() {
    let data: Vec<u8> = vec![
        0x18, 0x00, 0x12, 0x60, b'U', b'S', 0x02, 0x00, 0x2a, 0x00,
    ];
    let parser = DicomParser::new();
    assert_eq!(parser.bytes_read(), 0);
    let mut reader = DataSetReader::new(data, parser);
    assert!(reader.next().unwrap().is_ok());
    assert_eq!(reader.bytes_read(), 8);
    assert!(reader.next().unwrap().is_ok());
    assert_eq!(reader.bytes_read(), 10);
}
