use diesel_turso::union::wire::{
    decode_record, decode_union, encode_record, encode_union, read_varint, varint_len,
    write_varint, WireError,
};
use diesel_turso::value::Value;

#[test]
fn roundtrip_scalar_mix() {
    let values = vec![
        Value::Integer(-100),
        Value::Text("hi".into()),
        Value::Null,
        Value::Real(std::f64::consts::PI.to_bits()),
        Value::Blob(vec![0xde, 0xad]),
    ];
    let blob = encode_record(&values);
    let decoded = decode_record(&blob).unwrap();
    assert_eq!(decoded, values);
}

#[test]
fn union_framing_scalar() {
    let blob = encode_union(3, Value::Integer(42));
    let (tag, outer) = decode_union(&blob).unwrap();
    assert_eq!(tag, 3);
    assert_eq!(outer, Value::Integer(42));
}

#[test]
fn union_framing_struct_wrapped_blob() {
    // Struct variants: outer column is a BLOB containing inner record.
    let inner_fields = vec![Value::Integer(-100), Value::Text("hi".into())];
    let inner = encode_record(&inner_fields);
    let blob = encode_union(0, Value::Blob(inner));
    let (tag, outer) = decode_union(&blob).unwrap();
    assert_eq!(tag, 0);
    let inner_blob = match outer {
        Value::Blob(b) => b,
        other => panic!("expected Blob, got {other:?}"),
    };
    assert_eq!(decode_record(&inner_blob).unwrap(), inner_fields);
}

#[test]
fn decodes_turso_native_struct_variant() {
    // Struct-variant blob from turso for
    // `union_value('telegram', struct_pack(-100, 'hi'))`.
    let blob: &[u8] = &[0, 2, 24, 3, 1, 17, 156, 104, 105];
    let (tag, outer) = decode_union(blob).unwrap();
    assert_eq!(tag, 0);
    let inner_blob = match outer {
        Value::Blob(b) => b,
        other => panic!("{other:?}"),
    };
    let fields = decode_record(&inner_blob).unwrap();
    assert_eq!(fields, vec![Value::Integer(-100), Value::Text("hi".into())]);
}

#[test]
fn encoder_picks_narrowest_integer_serial() {
    // Each of these should emit a record where the one payload
    // serial-type varint matches the expected narrow width.
    let cases: &[(i64, u64)] = &[
        (0, 8),
        (1, 9),
        (-1, 1),
        (127, 1),
        (128, 2),
        (-32768, 2),
        (32768, 3),
        (-(1 << 23), 3),
        (1 << 23, 4),
        (-(1 << 31), 4),
        (1i64 << 31, 5),
        (-(1i64 << 47), 5),
        (1i64 << 47, 6),
        (i64::MAX, 6),
        (i64::MIN, 6),
    ];
    for (n, expected) in cases {
        let blob = encode_record(&[Value::Integer(*n)]);
        // Header: first varint is header size, second is the
        // single column's serial type.
        let (_hdr_size, consumed) = read_varint(&blob).unwrap();
        let (serial, _) = read_varint(&blob[consumed..]).unwrap();
        assert_eq!(
            serial, *expected,
            "n={n}: expected serial {expected}, got {serial}"
        );
        // Always roundtrips back to the original value.
        assert_eq!(
            decode_record(&blob).unwrap(),
            vec![Value::Integer(*n)],
            "roundtrip for n={n}"
        );
    }
}

#[test]
fn decodes_turso_native_scalar_variants() {
    //   union_value('i', 42)    → [0, 2, 1, 42]
    //   union_value('s', 'hi')  → [2, 2, 17, 104, 105]
    let (tag, v) = decode_union(&[0, 2, 1, 42]).unwrap();
    assert_eq!((tag, v), (0, Value::Integer(42)));

    let (tag, v) = decode_union(&[2, 2, 17, 104, 105]).unwrap();
    assert_eq!((tag, v), (2, Value::Text("hi".into())));
}

#[test]
fn varint_roundtrip_across_widths() {
    // One sentinel per varint width boundary, plus u64::MAX to
    // exercise the 9-byte form.
    let values: &[u64] = &[
        0,
        0x7f,
        0x80,
        0x3fff,
        0x4000,
        0x1f_ffff,
        0x20_0000,
        0x0fff_ffff,
        0x1000_0000,
        0x07_ffff_ffff,
        0x08_0000_0000,
        0x03ff_ffff_ffff,
        0x0400_0000_0000,
        0x01_ffff_ffff_ffff,
        0x02_0000_0000_0000,
        0x00ff_ffff_ffff_ffff,
        0x0100_0000_0000_0000,
        u64::MAX,
    ];
    for &v in values {
        let mut buf = Vec::new();
        write_varint(&mut buf, v);
        assert_eq!(buf.len() as u64, varint_len(v), "len mismatch for {v:#x}");
        let (got, consumed) = read_varint(&buf).unwrap();
        assert_eq!(got, v, "roundtrip {v:#x} → {got:#x}");
        assert_eq!(consumed, buf.len());
    }
}

#[test]
fn record_with_large_text_payload() {
    // TEXT of length N produces serial type 13 + 2*N. 20 KB is far past a
    // 2-byte varint and also pushes the header-size varint past 1 byte.
    let big = "x".repeat(20_000);
    let values = vec![
        Value::Integer(7),
        Value::Text(big.clone()),
        Value::Blob(vec![0xab; 20_000]),
    ];
    let blob = encode_record(&values);
    assert_eq!(decode_record(&blob).unwrap(), values);
}

#[test]
fn union_with_large_text_variant() {
    // Struct variant whose inner record has a large TEXT field.
    let big = "y".repeat(12_000);
    let inner = encode_record(&[Value::Text(big.clone())]);
    let blob = encode_union(5, Value::Blob(inner));
    let (tag, outer) = decode_union(&blob).unwrap();
    assert_eq!(tag, 5);
    let Value::Blob(inner_bytes) = outer else {
        unreachable!("encoded as Blob");
    };
    assert_eq!(decode_record(&inner_bytes).unwrap(), vec![Value::Text(big)]);
}

#[test]
fn a_record_has_these_bytes() {
    let blob = encode_record(&[Value::Integer(-100), Value::Text("hi".into())]);
    assert_eq!(blob, vec![3, 1, 17, 156, 104, 105]);
    assert_eq!(encode_record(&[]), vec![1]);
}

#[test]
fn a_real_is_eight_bytes_and_a_nan_is_null() {
    let bits: u64 = 2.5f64.to_bits();
    assert_eq!(
        encode_record(&[Value::Real(bits)]),
        vec![2, 7, 0x40, 0x04, 0, 0, 0, 0, 0, 0]
    );
    let blob = encode_record(&[Value::Real(f64::NAN.to_bits())]);
    assert_eq!(blob, vec![2, 0]);
    assert_eq!(decode_record(&blob).unwrap(), vec![Value::Null]);
}

#[test]
fn truncated_bytes_are_an_error() {
    let blob = encode_record(&[Value::Text("hello".into())]);
    for n in 0..blob.len() {
        assert!(
            matches!(decode_record(&blob[..n]), Err(WireError::UnexpectedEof)),
            "{n} bytes"
        );
    }
    assert!(matches!(decode_union(&[]), Err(WireError::UnexpectedEof)));
}

#[test]
fn reserved_serial_types_are_an_error() {
    assert!(matches!(
        decode_record(&[2, 10]),
        Err(WireError::ReservedSerialType(10))
    ));
    assert!(matches!(
        decode_record(&[2, 11]),
        Err(WireError::ReservedSerialType(11))
    ));
}

#[test]
fn text_that_is_not_utf8_is_an_error() {
    match decode_record(&[2, 15, 0xff]) {
        Err(WireError::InvalidUtf8(bytes)) => assert_eq!(bytes, vec![0xff]),
        other => panic!("{other:?}"),
    }
}

#[test]
fn a_union_has_one_outer_column() {
    let mut blob = vec![7];
    blob.extend(encode_record(&[Value::Integer(1), Value::Integer(2)]));
    assert!(matches!(
        decode_union(&blob),
        Err(WireError::UnexpectedOuterColumnCount(2))
    ));
}

#[test]
fn other_values_have_other_records() {
    let a = encode_record(&[Value::Integer(1), Value::Null]);
    let b = encode_record(&[Value::Null, Value::Integer(1)]);
    assert_ne!(a, b);
    assert_ne!(
        encode_union(0, Value::Integer(1)),
        encode_union(1, Value::Integer(1))
    );
}

#[test]
fn a_claim_beyond_the_buffer_is_no_empty_value() {
    // Serial types of a blob and a text of 2^32 bytes, and a header as long.
    for serial in [(1u64 << 33) + 12, (1u64 << 33) + 13] {
        let mut header = Vec::new();
        write_varint(&mut header, serial);
        let mut record = vec![header.len() as u8 + 1];
        record.extend(header);
        assert!(matches!(decode_record(&record), Err(WireError::UnexpectedEof)));
    }
    let mut record = Vec::new();
    write_varint(&mut record, (1u64 << 32) + 5);
    assert!(matches!(decode_record(&record), Err(WireError::UnexpectedEof)));
}
