use ezshark::protobuf::{
    parse_field, parse_unknown_protobuf, process_varint, read_varint, skip_to_next_field,
    store_value, ProtobufError, ProtobufUnknownParser, Value,
};

fn show(fields: &Vec<(u32, Vec<Value>)>) -> String {
    format!("{:?}", fields)
}

#[test]
fn a_varint_field() {
    let r = parse_unknown_protobuf(&[0x08, 0x96, 0x01]);
    assert_eq!(show(&r), "[(1, [Varint(150)])]");
}

#[test]
fn zero_and_one_are_truth_values() {
    assert_eq!(show(&parse_unknown_protobuf(&[0x08, 0x01])), "[(1, [Boolean(true)])]");
    assert_eq!(show(&parse_unknown_protobuf(&[0x08, 0x00])), "[(1, [Boolean(false)])]");
    assert_eq!(format!("{:?}", process_varint(2)), "Varint(2)");
    assert_eq!(format!("{:?}", process_varint(u64::MAX)), "Varint(-1)");
    assert_eq!(format!("{:?}", process_varint(1 << 63)), format!("Varint({})", i64::MIN));
    assert_eq!(format!("{:?}", process_varint(i64::MAX as u64)), format!("Varint({})", i64::MAX));
}

#[test]
fn text_and_bytes() {
    let mut msg = vec![0x12, 0x07];
    msg.extend_from_slice(b"testing");
    assert_eq!(show(&parse_unknown_protobuf(&msg)), "[(2, [String(\"testing\")])]");
    let r = parse_unknown_protobuf(&[0x12, 0x02, 0xff, 0xfe]);
    assert_eq!(show(&r), "[(2, [LengthDelimited([255, 254])])]");
    let r = parse_unknown_protobuf(&[0x12, 0x00]);
    assert_eq!(show(&r), "[(2, [String(\"\")])]");
}

#[test]
fn fixed_width_fields_keep_their_bits() {
    let r = parse_unknown_protobuf(&[0x2d, 0x01, 0x02, 0x03, 0x04]);
    assert_eq!(show(&r), format!("[(5, [Fixed32({})])]", 0x04030201u32));
    let r = parse_unknown_protobuf(&[0x09, 1, 2, 3, 4, 5, 6, 7, 8]);
    assert_eq!(show(&r), format!("[(1, [Fixed64({})])]", 0x0807060504030201u64));
    // 1.5 as a double: the caller makes the float of the bits
    let r = parse_unknown_protobuf(&[0x09, 0, 0, 0, 0, 0, 0, 0xf8, 0x3f]);
    match &r[0].1[0] {
        Value::Fixed64(bits) => assert_eq!(f64::from_bits(*bits), 1.5),
        other => panic!("{other:?}"),
    }
}

#[test]
fn repeated_fields_are_collected_in_order() {
    let r = parse_unknown_protobuf(&[0x08, 0x02, 0x10, 0x05, 0x08, 0x03, 0x08, 0x04]);
    assert_eq!(show(&r), "[(1, [Varint(2), Varint(3), Varint(4)]), (2, [Varint(5)])]");
}

#[test]
fn the_empty_message_has_no_fields() {
    assert!(parse_unknown_protobuf(&[]).is_empty());
}

#[test]
fn a_cut_tag_ends_the_walk() {
    assert!(parse_unknown_protobuf(&[0x88]).is_empty());
    let r = parse_unknown_protobuf(&[0x08, 0x05, 0x88]);
    assert_eq!(show(&r), "[(1, [Varint(5)])]");
}

#[test]
fn a_wire_type_that_is_not_understood_ends_the_walk() {
    assert!(parse_unknown_protobuf(&[0x0b, 0x08, 0x06]).is_empty());
    let r = parse_unknown_protobuf(&[0x08, 0x05, 0x0e, 0x08, 0x06]);
    assert_eq!(show(&r), "[(1, [Varint(5)])]");
}

#[test]
fn the_field_number_zero_is_passed_over() {
    let r = parse_unknown_protobuf(&[0x00, 0x08, 0x07]);
    assert_eq!(show(&r), "[(1, [Varint(7)])]");
    // a byte with wire type 7 is no start of a field, the next one is
    let r = parse_unknown_protobuf(&[0x00, 0x0f, 0x10, 0x09]);
    assert_eq!(show(&r), "[(2, [Varint(9)])]");
}

#[test]
fn a_field_that_is_too_large_is_passed_over() {
    // length 10485761, one more than the limit
    let r = parse_unknown_protobuf(&[0x12, 0x81, 0x80, 0x80, 0x05, 0x08, 0x01]);
    assert_eq!(show(&r), "[(1, [Boolean(true)])]");
    // length 10485760 is within the limit, but the bytes are not there
    let r = parse_unknown_protobuf(&[0x12, 0x80, 0x80, 0x80, 0x05, 0x08, 0x01]);
    assert!(r.is_empty());
}

#[test]
fn a_value_that_is_cut_ends_the_walk_with_what_was_read() {
    let r = parse_unknown_protobuf(&[0x08, 0x05, 0x12, 0x05, b'a']);
    assert_eq!(show(&r), "[(1, [Varint(5)])]");
    let r = parse_unknown_protobuf(&[0x08, 0x05, 0x09, 1, 2, 3]);
    assert_eq!(show(&r), "[(1, [Varint(5)])]");
    let r = parse_unknown_protobuf(&[0x08, 0x05, 0x2d, 1, 2, 3]);
    assert_eq!(show(&r), "[(1, [Varint(5)])]");
    let r = parse_unknown_protobuf(&[0x08, 0x05, 0x10, 0x80]);
    assert_eq!(show(&r), "[(1, [Varint(5)])]");
}

#[test]
fn a_varint_of_more_than_ten_bytes_is_passed_over() {
    let mut msg = vec![0x08];
    msg.extend_from_slice(&[0xff; 10]);
    msg.extend_from_slice(&[0x10, 0x02]);
    let r = parse_unknown_protobuf(&msg);
    assert_eq!(show(&r), "[(2, [Varint(2)])]");
    let (read, pos) = read_varint(&msg, 1);
    assert!(matches!(read, Err(ProtobufError::Parse(_))));
    assert_eq!(pos, 11);
}

#[test]
fn reading_varints() {
    let (read, pos) = read_varint(&[0x96, 0x01, 0x55], 0);
    assert!(matches!(read, Ok(150)));
    assert_eq!(pos, 2);
    let (read, pos) = read_varint(&[0x96], 0);
    assert!(matches!(read, Err(ProtobufError::EndOfStream)));
    assert_eq!(pos, 1);
    let (read, pos) = read_varint(&[0x01], 5);
    assert!(matches!(read, Err(ProtobufError::EndOfStream)));
    assert_eq!(pos, 1);
    let mut ten = vec![0xff; 9];
    ten.push(0x01);
    let (read, pos) = read_varint(&ten, 0);
    assert!(matches!(read, Ok(u64::MAX)));
    assert_eq!(pos, 10);
}

#[test]
fn the_search_for_the_next_field_has_a_limit() {
    let (found, pos) = skip_to_next_field(&[0x07, 0x00, 0x08], 0);
    assert!(found.is_ok());
    assert_eq!(pos, 2);
    let zeros = vec![0u8; 1024];
    let (found, pos) = skip_to_next_field(&zeros, 0);
    assert!(matches!(found, Err(ProtobufError::RecoveryFailed)));
    assert_eq!(pos, 1024);
    let zeros = vec![0u8; 1023];
    let (found, pos) = skip_to_next_field(&zeros, 0);
    assert!(matches!(found, Err(ProtobufError::EndOfStream)));
    assert_eq!(pos, 1023);
    let mut late = vec![0u8; 1023];
    late.push(0x08);
    let (found, pos) = skip_to_next_field(&late, 0);
    assert!(found.is_ok());
    assert_eq!(pos, 1023);
    let mut too_late = vec![0u8; 1024];
    too_late.push(0x08);
    let (found, _) = skip_to_next_field(&too_late, 0);
    assert!(matches!(found, Err(ProtobufError::RecoveryFailed)));
}

#[test]
fn more_than_ten_failures_in_a_row_end_the_walk() {
    // a field that is too large, then 1024 bytes in which no field begins:
    // the search behind the field fails, the search after the failure finds
    // the next such field
    let mut block = vec![0x12, 0x81, 0x80, 0x80, 0x05];
    block.extend_from_slice(&[0u8; 1024]);
    let mut msg = Vec::new();
    for _ in 0..10 {
        msg.extend_from_slice(&block);
    }
    msg.extend_from_slice(&[0x08, 0x07]);
    assert_eq!(show(&parse_unknown_protobuf(&msg)), "[(1, [Varint(7)])]");
    let mut msg = Vec::new();
    for _ in 0..11 {
        msg.extend_from_slice(&block);
    }
    msg.extend_from_slice(&[0x08, 0x07]);
    assert!(parse_unknown_protobuf(&msg).is_empty());
    // where the search after a failure finds nothing, the walk is over
    let mut msg = vec![0u8; 1 + 1024 * 2];
    msg.extend_from_slice(&[0x08, 0x07]);
    assert!(parse_unknown_protobuf(&msg).is_empty());
}

#[test]
fn no_more_than_the_limit_of_fields_is_read() {
    let mut msg = Vec::new();
    for _ in 0..100_001 {
        msg.extend_from_slice(&[0x08, 0x01]);
    }
    let r = parse_unknown_protobuf(&msg);
    assert_eq!(r.len(), 1);
    assert_eq!(r[0].0, 1);
    assert_eq!(r[0].1.len(), 100_000);
}

#[test]
fn a_field_number_is_the_tag_cut_to_32_bits() {
    // tag = (2^32 + 5) << 3: the number reads as 5
    let tag: u64 = ((1u64 << 32) + 5) << 3;
    let mut msg = Vec::new();
    let mut t = tag;
    while t >= 0x80 {
        msg.push((t as u8 & 0x7f) | 0x80);
        t >>= 7;
    }
    msg.push(t as u8);
    msg.push(0x09);
    assert_eq!(show(&parse_unknown_protobuf(&msg)), "[(5, [Varint(9)])]");
    // number 2^29 is out of range: passed over
    let tag: u64 = (1u64 << 29) << 3;
    let mut msg = Vec::new();
    let mut t = tag;
    while t >= 0x80 {
        msg.push((t as u8 & 0x7f) | 0x80);
        t >>= 7;
    }
    msg.push(t as u8);
    msg.extend_from_slice(&[0x10, 0x03]);
    assert_eq!(show(&parse_unknown_protobuf(&msg)), "[(2, [Varint(3)])]");
}

#[test]
fn any_bytes_decode_without_a_panic() {
    let mut seed: u32 = 12345;
    for len in 0..600usize {
        let mut bytes = Vec::with_capacity(len);
        for _ in 0..len {
            seed = seed.wrapping_mul(1664525).wrapping_add(1013904223);
            bytes.push((seed >> 24) as u8);
        }
        let fields = parse_unknown_protobuf(&bytes);
        for (number, values) in &fields {
            assert!(*number > 0 && *number < (1 << 29));
            assert!(!values.is_empty());
        }
        for i in 0..fields.len() {
            for j in 0..i {
                assert_ne!(fields[i].0, fields[j].0);
            }
        }
    }
}

#[test]
fn the_reader_keeps_the_result() {
    let mut parser = ProtobufUnknownParser::new(vec![0x08, 0x96, 0x01]);
    assert!(parser.result.is_empty());
    let r = parser.parse();
    assert_eq!(show(r), "[(1, [Varint(150)])]");
    assert_eq!(show(&parser.result), "[(1, [Varint(150)])]");
    assert_eq!(ProtobufUnknownParser::get_type_name(&Value::Varint(3)), "Varint");
    assert_eq!(ProtobufUnknownParser::get_type_name(&Value::Fixed64(3)), "Fixed64");
    assert_eq!(ProtobufUnknownParser::get_type_name(&Value::LengthDelimited(vec![])), "Bytes");
    assert_eq!(ProtobufUnknownParser::get_type_name(&Value::String(String::new())), "String");
    assert_eq!(ProtobufUnknownParser::get_type_name(&Value::Fixed32(3)), "Fixed32");
    assert_eq!(ProtobufUnknownParser::get_type_name(&Value::Boolean(true)), "Boolean");
}

#[test]
fn reading_one_field() {
    let mut fields = Vec::new();
    let (read, pos) = parse_field(&[0x08, 0x05, 0x10], 0, &mut fields);
    assert!(matches!(read, Ok(true)));
    assert_eq!(pos, 2);
    assert_eq!(show(&fields), "[(1, [Varint(5)])]");
    let (read, _) = parse_field(&[0x08, 0x05], 2, &mut fields);
    assert!(matches!(read, Ok(false)));
    let (read, _) = parse_field(&[0x0c], 0, &mut fields);
    assert!(matches!(read, Err(ProtobufError::UnknownWireType(4))));
    let (read, pos) = parse_field(&[0x00, 0x00], 0, &mut fields);
    assert!(matches!(read, Err(ProtobufError::EndOfStream)));
    assert_eq!(pos, 2);
    store_value(&mut fields, 9, Value::Boolean(true));
    store_value(&mut fields, 1, Value::Boolean(false));
    assert_eq!(show(&fields), "[(1, [Varint(5), Boolean(false)]), (9, [Boolean(true)])]");
}

#[test]
fn errors_in_words() {
    assert_eq!(ProtobufError::Io("x".to_string()).message(), "IO error: x");
    assert_eq!(ProtobufError::Utf8("x".to_string()).message(), "UTF-8 error: x");
    assert_eq!(ProtobufError::UnknownWireType(7).message(), "Unknown wire type: 7");
    assert_eq!(ProtobufError::Parse("x".to_string()).message(), "Parse error: x");
    assert_eq!(ProtobufError::TooManyErrors.message(), "Too many consecutive errors");
    assert_eq!(
        ProtobufError::FieldTooLarge(10485761).message(),
        "Field size too large: 10485761 bytes"
    );
    assert_eq!(ProtobufError::EndOfStream.message(), "End of stream");
    assert_eq!(ProtobufError::RecoveryFailed.message(), "Failed to recover from parsing errors");
    assert_eq!(ProtobufError::ParseTimeout.message(), "Parse timeout");
}
