use sdo::decode::{datetime_from, decode_field_header, read_bool_rows, read_sdo, row_is_null, Error};
use sdo::encode::encode_field;
use sdo::message::read_msg;
use sdo::varint::{read_varint_u32, read_varint_u64, write_varint_u32, write_varint_u64};
use sdo::{Data, DataType, DateTime, Message, Topic, WireType, SDO};

fn strings_of(d: &Data) -> Vec<Option<String>> {
    match d {
        Data::StringW(v) => v.clone(),
        _ => panic!("not a wide-string column"),
    }
}

#[test]
fn varint_round_trip_u32_and_u64() {
    for x in [0u64, 1, 127, 128, 300, 16383, 16384, u32::MAX as u64, u64::MAX] {
        let mut out = Vec::new();
        write_varint_u64(&mut out, x);
        assert_eq!(read_varint_u64(&out, 0), Some((x, out.len())));
        let bits = 64 - x.leading_zeros() as usize;
        assert_eq!(out.len(), std::cmp::max(1, (bits + 6) / 7));
    }
    for x in [0u32, 5, 128, 65535, u32::MAX] {
        let mut out = Vec::new();
        write_varint_u32(&mut out, x);
        assert_eq!(read_varint_u32(&out, 0), Some((x, out.len())));
    }
}

#[test]
fn varint_known_bytes() {
    let mut out = Vec::new();
    write_varint_u32(&mut out, 300);
    assert_eq!(out, vec![0xAC, 0x02]);
    assert_eq!(read_varint_u32(&[0x80, 0x80], 0), None);
    assert_eq!(read_varint_u32(&[0xFF, 0xFF, 0xFF, 0xFF, 0xFF, 0x01], 0), None);
}

#[test]
fn null_bitmap_bit_order() {
    // a field of nine rows, nulls at rows 0, 1, 7 and 8
    let b = [0x69u8, 0x02, 0x09, 0xC1, 0x80];
    let (f, p) = decode_field_header(&b, 0, false).unwrap();
    let f = f.unwrap();
    assert_eq!(p, 5);
    assert_eq!(f.rows, 9);
    assert_eq!(f.null_flags, Some(vec![0xC1, 0x80]));
    let nulls: Vec<u32> = (0..9).filter(|i| row_is_null(&f, *i)).collect();
    assert_eq!(nulls, vec![0, 1, 7, 8]);
}

#[test]
fn boolean_packing() {
    let mut s = SDO::new(Topic::Td1);
    s.push_bool(1, vec![Some(true), Some(false), Some(true), Some(true), Some(false), Some(false), Some(false), Some(false), Some(true)]);
    let bytes = encode_field(&s.fields[0].0, &s.fields[0].1).unwrap();
    assert_eq!(bytes, vec![0x68, 0x02, 0xB0, 0x80]);
}

#[test]
fn datetime_scaling() {
    assert_eq!(datetime_from(3, 7), Some(DateTime { nanos_since_base: 7_000_000_000 }));
    assert_eq!(datetime_from(2, 7), Some(DateTime { nanos_since_base: 7_000_000 }));
    assert_eq!(datetime_from(1, 7), Some(DateTime { nanos_since_base: 7_000 }));
    assert_eq!(datetime_from(0, 7_654), Some(DateTime { nanos_since_base: 7_000 }));
    assert_eq!(datetime_from(1, i64::MAX as u64), Some(DateTime { nanos_since_base: 0 }));
    assert_eq!(datetime_from(4, 7), None);
}

#[test]
fn topic_zero_bias() {
    let (s, _) = read_sdo(&[0x17, 0x00, 0x00], 0).unwrap();
    assert_eq!(s.topic, Topic::UndefinedTopic);
    let b = SDO::new(Topic::Td845).encode().unwrap();
    let mut want = vec![0x17];
    write_varint_u32(&mut want, 846);
    want.push(0);
    assert_eq!(b, want);
    let (s, _) = read_sdo(&[0x17, 0xFF, 0xFF, 0x03, 0x00], 0).unwrap();
    assert_eq!(s.topic, Topic::Other(65534));
}

#[test]
fn minimal_sdo() {
    let (s, p) = read_sdo(&[0x17, 0x02, 0x00], 0).unwrap();
    assert_eq!(p, 3);
    assert_eq!(s.topic, Topic::Td1);
    assert!(s.fields.is_empty());
    assert_eq!(SDO::new(Topic::Td1).encode().unwrap(), vec![0x17, 0x02, 0x00]);
}

#[test]
fn single_wide_string_row() {
    let b = [0x17u8, 0x01, 0x4A, 0x92, 0x01, 0x03, 0x00, b'h', b'i', 0x00];
    let (s, p) = read_sdo(&b, 0).unwrap();
    assert_eq!(p, b.len());
    assert_eq!(s.topic, Topic::TdQuote);
    assert_eq!(s.fields.len(), 1);
    assert_eq!(s.fields[0].0.data_type, DataType::StringW);
    let d = s.fields[0].1.as_ref().unwrap();
    assert_eq!(strings_of(d), vec![Some("hi".to_string())]);
}

#[test]
fn message_encoding() {
    let m = Message::new_with_id(Topic::Td1, Some("R_42_".to_string()));
    let b = m.encode().unwrap();
    let (h, q) = read_sdo(&b, 0).unwrap();
    assert_eq!(h.topic, Topic::UndefinedTopic);
    assert_eq!(h.fields.len(), 1);
    assert_eq!(h.fields[0].0.field_id, Some(74));
    assert_eq!(strings_of(h.fields[0].1.as_ref().unwrap()), vec![Some("R_42_".to_string())]);
    let (p, end) = read_sdo(&b, q).unwrap();
    assert_eq!(end, b.len());
    assert_eq!(p.topic, Topic::Td1);
    assert_eq!(p.fields.len(), 1);
    assert_eq!(p.fields[0].0.data_type, DataType::StringW);
    assert_eq!(p.fields[0].0.field_id, Some(sdo::fields::PAGE_SIZE));
    assert_eq!(strings_of(p.fields[0].1.as_ref().unwrap()), vec![Some("1000".to_string())]);
    let (back, _) = read_msg(&b, 0).unwrap();
    assert_eq!(back.id, Some("R_42_".to_string()));
    assert_eq!(back.sdo.topic, Topic::Td1);
}

#[test]
fn message_with_timeout_and_page_size() {
    let mut m = Message::new_with_id(Topic::Td4, Some("R_1_".to_string()));
    m.timeout = Some("30".to_string());
    m.page_size = Some(250);
    let b = m.encode().unwrap();
    let (_, q) = read_sdo(&b, 0).unwrap();
    let (p, _) = read_sdo(&b, q).unwrap();
    assert_eq!(p.fields.len(), 2);
    assert_eq!(p.fields[0].0.field_id, Some(sdo::fields::TIMEOUT));
    assert_eq!(strings_of(p.fields[0].1.as_ref().unwrap()), vec![Some("30".to_string())]);
    assert_eq!(strings_of(p.fields[1].1.as_ref().unwrap()), vec![Some("250".to_string())]);
}

#[test]
fn datetime_field() {
    let b = [0x17u8, 0x02, 0x58, 0x03, 0x01, 0x02, 0xDC, 0x0B, 0x00];
    let (s, p) = read_sdo(&b, 0).unwrap();
    assert_eq!(p, b.len());
    match s.fields[0].1.as_ref().unwrap() {
        Data::DateTime(v) => assert_eq!(v, &vec![Some(DateTime { nanos_since_base: 1_500_000_000 })]),
        _ => panic!("not a date-time column"),
    }
}

#[test]
fn datetime_errors() {
    // no extra info
    assert!(matches!(read_sdo(&[0x17u8, 0x02, 0x58, 0x02, 0x05, 0x00], 0), Err(Error::MissingDateTimePrecision)));
    // precision 9
    assert!(matches!(read_sdo(&[0x17u8, 0x02, 0x58, 0x03, 0x01, 0x09, 0x05, 0x00], 0), Err(Error::InvalidDateTimePrecision)));
}

#[test]
fn length_errors() {
    assert!(matches!(read_sdo(&[], 0), Err(Error::Io)));
    assert!(matches!(read_sdo(&[0x07u8, 0x02, 0x69, 0x02, 0x09, 0xC1], 0), Err(Error::InvalidLengthOfNullData)));
    assert!(matches!(read_sdo(&[0x17u8, 0x02, 0x58, 0x03, 0x04, 0x02], 0), Err(Error::InvalidLengthOfExtraInfo)));
    assert!(matches!(read_sdo(&[0x17u8, 0x02, 0x4A, 0x02, 0x05, 0x00, b'a'], 0), Err(Error::Io)));
}

#[test]
fn boolean_with_nulls() {
    let b = [0x07u8, 0x02, 0x69, 0x02, 0x04, 0x40, 0xA0, 0x00];
    let (s, p) = read_sdo(&b, 0).unwrap();
    assert_eq!(p, b.len());
    match s.fields[0].1.as_ref().unwrap() {
        Data::Bool(v) => assert_eq!(v, &vec![Some(true), None, Some(false), Some(true)]),
        _ => panic!("not a boolean column"),
    }
    let (f, q) = decode_field_header(&b, 2, false).unwrap();
    let (rows, _) = read_bool_rows(&b, q, &f.unwrap()).unwrap();
    assert_eq!(rows, vec![Some(true), None, Some(false), Some(true)]);
}

#[test]
fn nested_sdo_round_trip() {
    let mut outer = SDO::new(Topic::Td1);
    outer.push_sdo(5, Some(SDO::new(Topic::Td4)));
    let b = outer.encode().unwrap();
    assert_eq!(b, vec![0x17, 0x02, 0x56, 0x0A, 0x17, 0x05, 0x00, 0x00]);
    let (s, p) = read_sdo(&b, 0).unwrap();
    assert_eq!(p, b.len());
    assert_eq!(s.topic, Topic::Td1);
    assert_eq!(s.fields[0].0.field_id, Some(5));
    assert_eq!(s.fields[0].0.wire_type, WireType::EmbeddedSDO);
    match s.fields[0].1.as_ref().unwrap() {
        Data::SDO(v) => {
            assert_eq!(v.len(), 1);
            let inner = v[0].as_ref().unwrap();
            assert_eq!(inner.topic, Topic::Td4);
            assert!(inner.fields.is_empty());
        },
        _ => panic!("not an SDO column"),
    }
}

#[test]
fn pushed_fields_round_trip() {
    let mut s = SDO::new(Topic::Tr12);
    s.push_string_w(9, Some("héllo".to_string()));
    s.push_long(10, Some(123456));
    s.push_short(11, Some(7));
    s.push_bool(12, Some(true));
    let b = s.encode().unwrap();
    let (d, p) = read_sdo(&b, 0).unwrap();
    assert_eq!(p, b.len());
    assert_eq!(d.topic, Topic::Tr12);
    assert_eq!(d.fields.len(), 4);
    assert_eq!(d.request_id(), None);
    assert_eq!(strings_of(d.get_field(9).unwrap()), vec![Some("héllo".to_string())]);
    assert_eq!(d.get_field(10).unwrap().as_first_u32(), Some(123456));
    assert_eq!(d.get_field(11).unwrap().as_first_u32(), Some(7));
    assert_eq!(d.get_field(12).unwrap().as_first_bool(), Some(true));
}

#[test]
fn accessors() {
    let mut s = SDO::new_with_broadcast_address();
    assert_eq!(s.request_id(), Some("-2"));
    s.push_string(3, vec![Some("a".to_string()), None, Some("b".to_string())]);
    assert_eq!(s.get_field(3).unwrap().to_string(), Some("a, b".to_string()));
    assert_eq!(s.get_field(3).unwrap().as_first_str(), Some("a"));
    assert_eq!(s.get_field(sdo::fields::REQUEST_ID).unwrap().as_first_u32(), None);
    s.remove_field(3);
    assert!(s.get_field(3).is_none());
    assert_eq!(s.fields.len(), 1);
    assert_eq!(SDO::new_with_broadcast_update_address().request_id(), Some("-1"));
}

#[test]
fn packet_flags() {
    let mut s = SDO::new(Topic::Td1);
    assert!(s.is_last_packet());
    assert!(s.is_first_packet());
    s.push_long(sdo::fields::PACKET_FLAG, Some(2));
    assert!(s.is_last_packet());
    assert!(!s.is_first_packet());
    assert!(!s.has_more_data());
    s.push_long(sdo::fields::HAS_MORE_DATA, Some(1));
    assert!(s.has_more_data());
    s.push_bool(sdo::fields::IS_WATCH_UPDATES, vec![None, Some(true)]);
    assert!(s.is_watch_updates());
    s.push_long(sdo::fields::WATCH_TOPIC, Some(1341));
    assert_eq!(s.watch_topic(), Some(1341));
}

#[test]
fn message_header_short_id() {
    let mut h = SDO::new(Topic::UndefinedTopic);
    h.push_short(74, Some(42));
    let mut b = h.encode().unwrap();
    b.extend(SDO::new(Topic::Td1).encode().unwrap());
    let (m, _) = read_msg(&b, 0).unwrap();
    assert_eq!(m.id, Some("42".to_string()));
    let mut h = SDO::new(Topic::UndefinedTopic);
    h.push_bool(74, Some(true));
    let mut b = h.encode().unwrap();
    b.extend(SDO::new(Topic::Td1).encode().unwrap());
    assert!(matches!(read_msg(&b, 0), Err(Error::InvalidHeaderId)));
}

#[test]
fn fixed_width_numbers() {
    // a double of the 64-bit wire type, little-endian
    let b = [0x17u8, 0x02, 0x22, 0x02, 1, 2, 3, 4, 5, 6, 7, 8, 0x00];
    let (s, _) = read_sdo(&b, 0).unwrap();
    match s.fields[0].1.as_ref().unwrap() {
        Data::Double(v) => assert_eq!(v, &vec![Some(sdo::FloatValue::Bits64(0x0807060504030201))]),
        _ => panic!("not a double column"),
    }
    // a float of the 64-bit wire type, big-endian
    let b = [0x17u8, 0x02, 0x1A, 0x02, 1, 2, 3, 4, 0x00];
    let (s, _) = read_sdo(&b, 0).unwrap();
    match s.fields[0].1.as_ref().unwrap() {
        Data::Float(v) => assert_eq!(v, &vec![Some(sdo::FloatValue::Bits32(0x01020304))]),
        _ => panic!("not a float column"),
    }
}

#[test]
fn utf16_wide_string() {
    let b = [0x17u8, 0x02, 0x4C, 0x02, 0x03, 0x01, 0x00, b'h', 0x00, b'i', 0x00];
    let (s, p) = read_sdo(&b, 0).unwrap();
    assert_eq!(p, b.len());
    assert_eq!(strings_of(s.fields[0].1.as_ref().unwrap()), vec![Some("hi".to_string())]);
}

#[test]
fn unknown_encoding_tag_gives_empty_string() {
    let b = [0x17u8, 0x02, 0x4C, 0x02, 0x01, 0x07, 0x00];
    let (s, p) = read_sdo(&b, 0).unwrap();
    assert_eq!(p, b.len());
    assert_eq!(strings_of(s.fields[0].1.as_ref().unwrap()), vec![Some(String::new())]);
}

#[test]
fn unknown_data_type_column() {
    // data type 15, then the terminator
    let b = [0x17u8, 0x02, 0x78, 0x02, 0x00];
    let (s, _) = read_sdo(&b, 0).unwrap();
    assert_eq!(s.fields.len(), 1);
    assert_eq!(s.fields[0].0.data_type, DataType::Unknown);
    assert!(matches!(s.fields[0].1, Some(Data::Unknown)));
}

#[test]
fn char_and_binary_columns() {
    let b = [0x17u8, 0x02, 0x38, 0x02, 0xE9, 0x30, 0x04, 0x02, 0xAB, 0xCD, 0x00];
    let (s, p) = read_sdo(&b, 0).unwrap();
    assert_eq!(p, b.len());
    assert_eq!(s.fields[0].1.as_ref().unwrap().as_vec_char(), Some(vec![Some('é')]));
    match s.fields[1].1.as_ref().unwrap() {
        Data::Binary(v) => assert_eq!(v, &vec![Some(vec![0xAB, 0xCD])]),
        _ => panic!("not a binary column"),
    }
}

#[test]
fn long_long_column() {
    let b = [0x17u8, 0x02, 0x60, 0x02, 0x80, 0x80, 0x80, 0x80, 0x80, 0x01, 0x00];
    let (s, _) = read_sdo(&b, 0).unwrap();
    assert_eq!(s.fields[0].1.as_ref().unwrap().as_vec_u64(), Some(vec![Some(1u64 << 35)]));
}

#[test]
fn padding_is_skipped() {
    // pad length 2 in the top bits of the preamble
    let (s, p) = read_sdo(&[0x57, 0xAA, 0xBB, 0x05, 0x00], 0).unwrap();
    assert_eq!(p, 5);
    assert_eq!(s.topic, Topic::Td4);
}

fn single_field(data_type: DataType, wire_type: WireType, data: Data) -> SDO {
    let mut s = SDO::new(Topic::Td1);
    s.fields.push((
        sdo::Field { data_type, extra_info: None, field_id: Some(3), null_flags: None, rows: 1, single_row: true, wire_type },
        Some(data),
    ));
    s
}

#[test]
fn long_long_binary_and_numbers_round_trip() {
    let s = single_field(DataType::LongLong, WireType::Varint, Data::LongLong(vec![Some(1u64 << 40)]));
    let (d, _) = read_sdo(&s.encode().unwrap(), 0).unwrap();
    assert_eq!(d.fields[0].1.as_ref().unwrap().as_vec_u64(), Some(vec![Some(1u64 << 40)]));

    let s = single_field(DataType::Binary, WireType::LengthDelimited, Data::Binary(vec![Some(vec![1, 2, 3])]));
    let b = s.encode().unwrap();
    assert_eq!(b, vec![0x17, 0x02, 0x34, 0x06, 0x03, 1, 2, 3, 0x00]);
    let (d, _) = read_sdo(&b, 0).unwrap();
    match d.fields[0].1.as_ref().unwrap() {
        Data::Binary(v) => assert_eq!(v, &vec![Some(vec![1, 2, 3])]),
        _ => panic!("not a binary column"),
    }

    let bits = 1.5f64.to_bits();
    let s = single_field(DataType::Double, WireType::Bit64, Data::Double(vec![Some(sdo::FloatValue::Bits64(bits))]));
    let (d, _) = read_sdo(&s.encode().unwrap(), 0).unwrap();
    match d.fields[0].1.as_ref().unwrap() {
        Data::Double(v) => assert_eq!(v, &vec![Some(sdo::FloatValue::Bits64(bits))]),
        _ => panic!("not a double column"),
    }

    let bits = 2.25f32.to_bits();
    let s = single_field(DataType::Float, WireType::Bit64, Data::Float(vec![Some(sdo::FloatValue::Bits32(bits))]));
    let (d, _) = read_sdo(&s.encode().unwrap(), 0).unwrap();
    match d.fields[0].1.as_ref().unwrap() {
        Data::Float(v) => assert_eq!(v, &vec![Some(sdo::FloatValue::Bits32(bits))]),
        _ => panic!("not a float column"),
    }

    let s = single_field(DataType::Float, WireType::Varint, Data::Float(vec![Some(sdo::FloatValue::Integer(9))]));
    let (d, _) = read_sdo(&s.encode().unwrap(), 0).unwrap();
    match d.fields[0].1.as_ref().unwrap() {
        Data::Float(v) => assert_eq!(v, &vec![Some(sdo::FloatValue::Integer(9))]),
        _ => panic!("not a float column"),
    }
}
