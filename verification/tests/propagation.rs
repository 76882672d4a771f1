use http::header::{HeaderMap, HeaderValue};
use zipkin::{
    get_sampling_flags, get_trace_context, set_sampling_flags, set_sampling_flags_single,
    set_trace_context, set_trace_context_single, SamplingFlags, TraceContext,
};

#[test]
fn flags_empty() {
    let mut headers = HeaderMap::new();
    let flags = SamplingFlags::builder().build();
    set_sampling_flags(flags, &mut headers);

    let expected_headers = HeaderMap::new();
    assert_eq!(headers, expected_headers);

    assert_eq!(get_sampling_flags(&headers), flags);
}

#[test]
fn flags_empty_single() {
    let mut headers = HeaderMap::new();
    let flags = SamplingFlags::builder().build();
    set_sampling_flags_single(flags, &mut headers);

    let expected_headers = HeaderMap::new();
    assert_eq!(headers, expected_headers);

    assert_eq!(get_sampling_flags(&headers), flags);
}

#[test]
fn flags_debug() {
    let mut headers = HeaderMap::new();
    let flags = SamplingFlags::builder().debug(true).build();
    set_sampling_flags(flags, &mut headers);

    let mut expected_headers = HeaderMap::new();
    expected_headers.insert("X-B3-Flags", HeaderValue::from_static("1"));
    assert_eq!(headers, expected_headers);

    assert_eq!(get_sampling_flags(&headers), flags);
}

#[test]
fn flags_debug_single() {
    let mut headers = HeaderMap::new();
    let flags = SamplingFlags::builder().debug(true).build();
    set_sampling_flags_single(flags, &mut headers);

    let mut expected_headers = HeaderMap::new();
    expected_headers.insert("b3", HeaderValue::from_static("d"));
    assert_eq!(headers, expected_headers);

    assert_eq!(get_sampling_flags(&headers), flags);
}

#[test]
fn flags_sampled() {
    let mut headers = HeaderMap::new();
    let flags = SamplingFlags::builder().sampled(true).build();
    set_sampling_flags(flags, &mut headers);

    let mut expected_headers = HeaderMap::new();
    expected_headers.insert("X-B3-Sampled", HeaderValue::from_static("1"));
    assert_eq!(headers, expected_headers);

    assert_eq!(get_sampling_flags(&headers), flags);
}

#[test]
fn flags_sampled_single() {
    let mut headers = HeaderMap::new();
    let flags = SamplingFlags::builder().sampled(true).build();
    set_sampling_flags_single(flags, &mut headers);

    let mut expected_headers = HeaderMap::new();
    expected_headers.insert("b3", HeaderValue::from_static("1"));
    assert_eq!(headers, expected_headers);

    assert_eq!(get_sampling_flags(&headers), flags);
}

#[test]
fn flags_unsampled() {
    let mut headers = HeaderMap::new();
    let flags = SamplingFlags::builder().sampled(false).build();
    set_sampling_flags(flags, &mut headers);

    let mut expected_headers = HeaderMap::new();
    expected_headers.insert("X-B3-Sampled", HeaderValue::from_static("0"));
    assert_eq!(headers, expected_headers);

    assert_eq!(get_sampling_flags(&headers), flags);
}

#[test]
fn flags_unsampled_single() {
    let mut headers = HeaderMap::new();
    let flags = SamplingFlags::builder().sampled(false).build();
    set_sampling_flags_single(flags, &mut headers);

    let mut expected_headers = HeaderMap::new();
    expected_headers.insert("b3", HeaderValue::from_static("0"));
    assert_eq!(headers, expected_headers);

    assert_eq!(get_sampling_flags(&headers), flags);
}

#[test]
fn trace_context() {
    let mut headers = HeaderMap::new();
    let context = TraceContext::builder()
        .trace_id([0, 1, 2, 3, 4, 5, 6, 7].into())
        .parent_id([1, 2, 3, 4, 5, 6, 7, 8].into())
        .span_id([2, 3, 4, 5, 6, 7, 8, 9].into())
        .sampled(true)
        .build();
    set_trace_context(context, &mut headers);

    let mut expected_headers = HeaderMap::new();
    expected_headers.insert("X-B3-TraceId", HeaderValue::from_static("0001020304050607"));
    expected_headers.insert("X-B3-SpanId", HeaderValue::from_static("0203040506070809"));
    expected_headers.insert(
        "X-B3-ParentSpanId",
        HeaderValue::from_static("0102030405060708"),
    );
    expected_headers.insert("X-B3-Sampled", HeaderValue::from_static("1"));
    assert_eq!(headers, expected_headers);

    assert_eq!(get_trace_context(&headers), Some(context));
}

#[test]
fn trace_context_single() {
    let mut headers = HeaderMap::new();
    let context = TraceContext::builder()
        .trace_id([0, 1, 2, 3, 4, 5, 6, 7].into())
        .parent_id([1, 2, 3, 4, 5, 6, 7, 8].into())
        .span_id([2, 3, 4, 5, 6, 7, 8, 9].into())
        .sampled(true)
        .build();
    set_trace_context_single(context, &mut headers);

    let mut expected_headers = HeaderMap::new();
    expected_headers.insert(
        "b3",
        HeaderValue::from_static("0001020304050607-0203040506070809-1-0102030405060708"),
    );
    assert_eq!(headers, expected_headers);

    assert_eq!(get_trace_context(&headers), Some(context));
}

#[test]
fn trace_context_unsampled_single() {
    let mut headers = HeaderMap::new();
    let context = TraceContext::builder()
        .trace_id([0, 1, 2, 3, 4, 5, 6, 7].into())
        .parent_id([1, 2, 3, 4, 5, 6, 7, 8].into())
        .span_id([2, 3, 4, 5, 6, 7, 8, 9].into())
        .build();
    set_trace_context_single(context, &mut headers);

    let mut expected_headers = HeaderMap::new();
    expected_headers.insert(
        "b3",
        HeaderValue::from_static("0001020304050607-0203040506070809-0102030405060708"),
    );
    assert_eq!(headers, expected_headers);

    assert_eq!(get_trace_context(&headers), Some(context));
}

#[test]
fn trace_context_parentless_single() {
    let mut headers = HeaderMap::new();
    let context = TraceContext::builder()
        .trace_id([0, 1, 2, 3, 4, 5, 6, 7].into())
        .span_id([2, 3, 4, 5, 6, 7, 8, 9].into())
        .sampled(true)
        .build();
    set_trace_context_single(context, &mut headers);

    let mut expected_headers = HeaderMap::new();
    expected_headers.insert(
        "b3",
        HeaderValue::from_static("0001020304050607-0203040506070809-1"),
    );
    assert_eq!(headers, expected_headers);

    assert_eq!(get_trace_context(&headers), Some(context));
}

#[test]
fn trace_context_minimal_single() {
    let mut headers = HeaderMap::new();
    let context = TraceContext::builder()
        .trace_id([0, 1, 2, 3, 4, 5, 6, 7].into())
        .span_id([2, 3, 4, 5, 6, 7, 8, 9].into())
        .build();
    set_trace_context_single(context, &mut headers);

    let mut expected_headers = HeaderMap::new();
    expected_headers.insert(
        "b3",
        HeaderValue::from_static("0001020304050607-0203040506070809"),
    );
    assert_eq!(headers, expected_headers);

    assert_eq!(get_trace_context(&headers), Some(context));
}

#[test]
fn typed_header_values() {
    assert_eq!(zipkin::XB3Flags::header_name(), "X-B3-Flags");
    assert_eq!(zipkin::XB3Flags::parse_value(b"1"), Some(zipkin::XB3Flags));
    assert_eq!(zipkin::XB3Flags::parse_value(b"0"), None);
    assert_eq!(zipkin::XB3Flags.encoded_value(), "1");

    assert_eq!(zipkin::XB3Sampled::header_name(), "X-B3-Sampled");
    assert_eq!(
        zipkin::XB3Sampled::parse_value(b"1"),
        Some(zipkin::XB3Sampled(true))
    );
    assert_eq!(
        zipkin::XB3Sampled::parse_value(b"0"),
        Some(zipkin::XB3Sampled(false))
    );
    assert_eq!(zipkin::XB3Sampled::parse_value(b"x"), None);
    assert_eq!(zipkin::XB3Sampled(true).encoded_value(), "1");
    assert_eq!(zipkin::XB3Sampled(false).encoded_value(), "0");
}

#[test]
fn a_fresh_map_round_trips_a_context() {
    let mut headers = zipkin::httpwrap::header_map_new();
    let context = TraceContext::builder()
        .trace_id([0, 1, 2, 3, 4, 5, 6, 7].into())
        .span_id([2, 3, 4, 5, 6, 7, 8, 9].into())
        .sampled(true)
        .build();
    set_trace_context(context, &mut headers);
    assert_eq!(get_trace_context(&headers), Some(context));
}
