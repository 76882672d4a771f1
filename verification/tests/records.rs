use zipkin::annotation::Annotation;
use zipkin::{duration_micros, time_micros, Duration, Endpoint, Kind, Span, SpanId, Timestamp, TraceId};

#[test]
fn sampling_flags_debug_forces_sampled() {
    let flags = zipkin::SamplingFlags::builder().debug(true).build();
    assert!(flags.debug());
    assert_eq!(flags.sampled(), Some(true));

    let context = zipkin::TraceContext::builder()
        .trace_id([0u8, 1, 2, 3, 4, 5, 6, 7].into())
        .span_id([2u8, 3, 4, 5, 6, 7, 8, 9].into())
        .debug(true)
        .build();
    assert!(context.debug());
    assert_eq!(context.sampled(), Some(true));
}

#[test]
fn sampling_flags_default_is_undecided() {
    let flags = zipkin::SamplingFlags::default();
    assert_eq!(flags.sampled(), None);
    assert!(!flags.debug());
}

#[test]
fn durations_on_the_wire_are_at_least_one_microsecond() {
    assert_eq!(duration_micros::to_wire(&Duration::new(0, 0)), 1);
    assert_eq!(duration_micros::to_wire(&Duration::new(0, 500)), 1);
    assert_eq!(duration_micros::to_wire(&Duration::new(0, 1500)), 2);
    assert_eq!(duration_micros::to_wire(&Duration::new(0, 2500)), 3);
    assert_eq!(duration_micros::to_wire(&Duration::from_secs(1)), 1_000_000);
}

#[test]
fn timestamps_on_the_wire_truncate_and_have_no_floor() {
    let epoch = Timestamp::new(Duration::from_secs(0));
    assert_eq!(time_micros::to_wire(&epoch), 0);
    assert_eq!(time_micros::to_wire(&Timestamp::new(Duration::new(0, 2500))), 2);

    let span = Span::builder()
        .trace_id(TraceId::from([0u8; 8]))
        .id(SpanId::from([1u8; 8]))
        .timestamp(epoch)
        .build();
    let bytes = zipkin::serialize(&span);
    assert_eq!(
        String::from_utf8(bytes.clone()).unwrap(),
        "{\"traceId\":\"0000000000000000\",\"id\":\"0101010101010101\",\"timestamp\":0}"
    );
    let parsed = zipkin::deserialize(&bytes).unwrap();
    assert_eq!(parsed, span);
}

#[test]
fn duration_wire_round_trip() {
    let d = duration_micros::from_wire(5);
    assert_eq!(duration_micros::to_wire(&d), 5);
    assert_eq!(d.as_secs(), 0);
    assert_eq!(d.subsec_nanos(), 5000);

    let t = time_micros::from_wire(1_000_007);
    assert_eq!(time_micros::to_wire(&t), 1_000_007);
}

#[test]
fn span_builder_lowercases_names() {
    let span = Span::builder()
        .trace_id(TraceId::from([0u8; 8]))
        .id(SpanId::from([1u8; 8]))
        .name("FooBar")
        .build();
    assert_eq!(span.name(), Some("foobar"));
}

#[test]
fn span_builder_tags_replace_by_key() {
    let span = Span::builder()
        .trace_id(TraceId::from([0u8; 8]))
        .id(SpanId::from([1u8; 8]))
        .tag("a", "1")
        .tag("b", "2")
        .tag("a", "3")
        .build();
    let tags = span.tags();
    assert_eq!(tags.len(), 2);
    assert_eq!(tags[0], ("b".to_string(), "2".to_string()));
    assert_eq!(tags[1], ("a".to_string(), "3".to_string()));
}

#[test]
fn span_builder_collects_annotations() {
    let a = Annotation::new(Timestamp::new(Duration::from_micros(7)), "ws");
    assert_eq!(a.value(), "ws");
    let span = Span::builder()
        .trace_id(TraceId::from([0u8; 8]))
        .id(SpanId::from([1u8; 8]))
        .annotation(a.clone())
        .annotations(vec![Annotation::new(
            Timestamp::new(Duration::from_micros(9)),
            "wr",
        )])
        .build();
    assert_eq!(span.annotations().len(), 2);
    assert_eq!(span.annotations()[0].value(), "ws");
    assert_eq!(span.annotations()[1].value(), "wr");
}

#[test]
fn endpoint_builder_round_trips_fields() {
    let e = Endpoint::builder()
        .service_name("api")
        .ipv4([127, 0, 0, 1])
        .port(8080)
        .build();
    assert_eq!(e.service_name(), Some("api"));
    assert_eq!(e.ipv4(), Some([127, 0, 0, 1]));
    assert_eq!(e.ipv6(), None);
    assert_eq!(e.port(), Some(8080));
}

#[test]
fn span_kind_and_flags_serialize_fields() {
    let span = Span::builder()
        .trace_id(TraceId::from([0u8; 8]))
        .id(SpanId::from([0u8, 0, 0, 0, 0, 0, 0, 1]))
        .name("foo")
        .kind(Kind::Client)
        .duration(Duration::from_secs(1))
        .build();
    let bytes = zipkin::json::serialize(&span);
    assert_eq!(
        String::from_utf8(bytes).unwrap(),
        "{\"traceId\":\"0000000000000000\",\"name\":\"foo\",\"id\":\"0000000000000001\",\
         \"kind\":\"CLIENT\",\"duration\":1000000}"
    );
}

#[test]
fn span_json_escapes_and_nests() {
    let span = Span::builder()
        .trace_id(TraceId::from([0u8; 8]))
        .id(SpanId::from([0u8, 0, 0, 0, 0, 0, 0, 2]))
        .name("a\"b\\c")
        .shared(true)
        .debug(true)
        .local_endpoint(
            Endpoint::builder()
                .service_name("api")
                .ipv4([127, 0, 0, 1])
                .ipv6([0, 0, 0, 0, 0, 0, 0, 0, 0, 0, 0, 0, 0, 0, 0, 1])
                .port(443)
                .build(),
        )
        .tag("k", "v")
        .build();
    let bytes = zipkin::json::serialize(&span);
    assert_eq!(
        String::from_utf8(bytes).unwrap(),
        "{\"traceId\":\"0000000000000000\",\"name\":\"a\\\"b\\\\c\",\
         \"id\":\"0000000000000002\",\"debug\":true,\"shared\":true,\
         \"localEndpoint\":{\"serviceName\":\"api\",\"ipv4\":\"127.0.0.1\",\
         \"ipv6\":\"0:0:0:0:0:0:0:1\",\"port\":443},\"tags\":{\"k\":\"v\"}}"
    );
}

#[test]
fn span_json_round_trips() {
    let span = Span::builder()
        .trace_id(TraceId::from([0u8, 1, 2, 3, 4, 5, 6, 7]))
        .id(SpanId::from([9u8; 8]))
        .parent_id(SpanId::from([8u8; 8]))
        .name("get /users")
        .kind(Kind::Server)
        .timestamp(Timestamp::new(Duration::from_micros(1_000_000)))
        .duration(Duration::from_micros(250))
        .shared(true)
        .local_endpoint(
            Endpoint::builder()
                .service_name("api")
                .ipv4([10, 0, 0, 7])
                .port(8080)
                .build(),
        )
        .remote_endpoint(Endpoint::builder().service_name("peer").build())
        .annotation(Annotation::new(
            Timestamp::new(Duration::from_micros(1_000_100)),
            "ws",
        ))
        .tag("http.status", "200")
        .tag("err or\"", "a\\b")
        .build();

    let bytes = zipkin::serialize(&span);
    let parsed = zipkin::deserialize(&bytes).unwrap();
    assert_eq!(parsed, span);
}

#[test]
fn span_json_round_trips_minimal() {
    let span = Span::builder()
        .trace_id(TraceId::from([0u8; 16]))
        .id(SpanId::from([1u8; 8]))
        .build();
    let bytes = zipkin::serialize(&span);
    assert_eq!(
        String::from_utf8(bytes.clone()).unwrap(),
        "{\"traceId\":\"00000000000000000000000000000000\",\"id\":\"0101010101010101\"}"
    );
    let parsed = zipkin::deserialize(&bytes).unwrap();
    assert_eq!(parsed, span);
}

#[test]
fn deserialize_refuses_other_bytes() {
    assert!(zipkin::deserialize(b"").is_none());
    assert!(zipkin::deserialize(b"{}").is_none());
    assert!(zipkin::deserialize(b"[1,2,3]").is_none());
    assert!(zipkin::deserialize(b"{\"traceId\":\"zz\"}").is_none());
}

#[test]
fn overlong_durations_are_refused_by_the_serializer() {
    let span = Span::builder()
        .trace_id(TraceId::from([0u8; 8]))
        .id(SpanId::from([1u8; 8]))
        .duration(Duration::from_secs(u64::MAX))
        .build();
    assert!(zipkin::json::try_serialize(&span).is_none());

    let fits = Span::builder()
        .trace_id(TraceId::from([0u8; 8]))
        .id(SpanId::from([1u8; 8]))
        .duration(Duration::from_secs(1))
        .build();
    assert!(zipkin::json::try_serialize(&fits).is_some());
}
