use zipkin::{SpanId, SpanIdParseError, TraceId, TraceIdParseError};

#[test]
fn trace_id_round_trip_short() {
    let t = TraceId::parse("0001020304050607").unwrap();
    assert_eq!(t.bytes(), &[0, 1, 2, 3, 4, 5, 6, 7]);
    assert_eq!(t.to_hex(), "0001020304050607");
    assert_eq!(TraceId::parse(&t.to_hex()).unwrap(), t);
    assert_eq!(t.to_hex().len(), 16);
}

#[test]
fn trace_id_round_trip_long() {
    let t = TraceId::parse("000102030405060708090a0b0c0d0e0f").unwrap();
    assert_eq!(
        t.bytes(),
        &[0, 1, 2, 3, 4, 5, 6, 7, 8, 9, 10, 11, 12, 13, 14, 15]
    );
    assert_eq!(t.to_hex(), "000102030405060708090a0b0c0d0e0f");
    assert_eq!(TraceId::parse(&t.to_hex()).unwrap(), t);
    assert_eq!(t.to_hex().len(), 32);
}

#[test]
fn trace_id_parse_is_permissive_about_case() {
    let t = TraceId::parse("00FFAA0304050607").unwrap();
    assert_eq!(t.to_hex(), "00ffaa0304050607");
}

#[test]
fn trace_id_parse_errors() {
    assert_eq!(
        TraceId::parse("00010203040506"),
        Err(TraceIdParseError::InvalidLength)
    );
    assert_eq!(
        TraceId::parse("000102030405060z"),
        Err(TraceIdParseError::InvalidDigit)
    );
    assert_eq!(TraceId::parse(""), Err(TraceIdParseError::InvalidLength));
}

#[test]
fn trace_id_from_bytes() {
    let t = TraceId::from([0u8, 1, 2, 3, 4, 5, 6, 7]);
    assert_eq!(t.to_hex(), "0001020304050607");
    let long = TraceId::from([0u8, 1, 2, 3, 4, 5, 6, 7, 8, 9, 10, 11, 12, 13, 14, 15]);
    assert_eq!(long.to_hex(), "000102030405060708090a0b0c0d0e0f");
    assert_ne!(t, long);
}

#[test]
fn span_id_round_trip() {
    let s = SpanId::parse("0203040506070809").unwrap();
    assert_eq!(s.bytes(), &[2, 3, 4, 5, 6, 7, 8, 9]);
    assert_eq!(s.to_hex(), "0203040506070809");
    assert_eq!(SpanId::parse(&s.to_hex()).unwrap(), s);
    assert_eq!(s.to_hex().len(), 16);
}

#[test]
fn span_id_parse_errors() {
    assert_eq!(
        SpanId::parse("020304050607080910"),
        Err(SpanIdParseError::InvalidLength)
    );
    assert_eq!(
        SpanId::parse("02030405060708g9"),
        Err(SpanIdParseError::InvalidDigit)
    );
}

#[test]
fn span_id_from_bytes() {
    let s = SpanId::from([255u8, 0, 255, 0, 255, 0, 255, 0]);
    assert_eq!(s.to_hex(), "ff00ff00ff00ff00");
}
