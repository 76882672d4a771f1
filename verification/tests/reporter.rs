use std::str::FromStr;
use zipkin::{
    batch_body, classify_status, resolve_spans_path, Duration, Error, Kind, Span, SpanId,
    SpanQueue, TraceId,
};
use zipkin::span_body::SpanBody;

fn sample_span(id_low: u8) -> Span {
    Span::builder()
        .trace_id(TraceId::from([0u8; 8]))
        .id(SpanId::from([0u8, 0, 0, 0, 0, 0, 0, id_low]))
        .name("foo")
        .kind(Kind::Client)
        .duration(Duration::from_secs(1))
        .build()
}

fn collect(body: &mut SpanBody) -> Vec<u8> {
    let mut buf = body.take_data().unwrap();
    let mut out = Vec::new();
    loop {
        let chunk = buf.bytes().to_vec();
        if chunk.is_empty() {
            break;
        }
        let n = chunk.len();
        out.extend(chunk);
        buf.advance(n);
    }
    out
}

#[test]
fn queue_accepts_until_full_and_drops_after() {
    let mut q = SpanQueue::new(2);
    assert!(q.is_empty());
    assert!(q.offer(sample_span(1)));
    assert!(q.offer(sample_span(2)));
    assert!(!q.offer(sample_span(3)));
    assert_eq!(q.len(), 2);

    let batch = q.take_chunk(10);
    assert_eq!(batch.len(), 2);
    assert_eq!(batch[0].id(), sample_span(1).id());
    assert_eq!(batch[1].id(), sample_span(2).id());
    assert!(q.is_empty());

    assert!(q.offer(sample_span(4)));
    let batch = q.take_chunk(1);
    assert_eq!(batch.len(), 1);
    assert_eq!(batch[0].id(), sample_span(4).id());
}

#[test]
fn batch_of_one_span_matches_the_wire_form() {
    let span = sample_span(1);
    let expected_doc = zipkin::json::serialize(&span);

    let (body, dropped) = batch_body(&vec![span]);
    assert_eq!(dropped, 0);
    let mut body = body.unwrap();
    assert_eq!(body.content_length(), Some(expected_doc.len() as u64 + 2));
    assert!(!body.is_end_stream());

    let mut expected = Vec::new();
    expected.push(b'[');
    expected.extend(expected_doc);
    expected.push(b']');
    assert_eq!(collect(&mut body), expected);
    assert!(body.is_end_stream());
}

#[test]
fn batch_of_many_spans_joins_with_commas() {
    let spans = vec![sample_span(1), sample_span(2), sample_span(3)];
    let mut expected = Vec::new();
    expected.push(b'[');
    for (i, s) in spans.iter().enumerate() {
        if i > 0 {
            expected.push(b',');
        }
        expected.extend(zipkin::json::serialize(s));
    }
    expected.push(b']');

    let (body, dropped) = batch_body(&spans);
    assert_eq!(dropped, 0);
    let mut body = body.unwrap();
    assert_eq!(body.content_length(), Some(expected.len() as u64));
    assert_eq!(collect(&mut body), expected);
}

#[test]
fn unserializable_spans_are_dropped_and_counted() {
    let overlong = Span::builder()
        .trace_id(TraceId::from([0u8; 8]))
        .id(SpanId::from([7u8; 8]))
        .duration(Duration::from_secs(u64::MAX))
        .build();
    let (body, dropped) = batch_body(&vec![sample_span(1), overlong]);
    assert_eq!(dropped, 1);
    let mut body = body.unwrap();
    let mut expected = Vec::new();
    expected.push(b'[');
    expected.extend(zipkin::json::serialize(&sample_span(1)));
    expected.push(b']');
    assert_eq!(collect(&mut body), expected);
}

#[test]
fn it_works_correctly_with_empty_bodies() {
    let mut body = SpanBody::new(vec![]);
    assert_eq!(body.content_length(), Some(2));
    let mut buf = body.take_data().unwrap();
    assert_eq!(buf.remaining(), 2);
    let mut out = Vec::new();
    loop {
        let chunk = buf.bytes().to_vec();
        if chunk.is_empty() {
            break;
        }
        let n = chunk.len();
        out.extend(chunk);
        buf.advance(n);
    }
    assert_eq!(out, vec![b'[', b']']);
    assert_eq!(body.is_end_stream(), true);
}

#[test]
fn it_works_correctly_with_one_span() {
    let mut body = SpanBody::new(vec![vec![b'{', b'}']]);
    assert_eq!(body.content_length(), Some(4));
    let mut buf = body.take_data().unwrap();
    assert_eq!(buf.remaining(), 4);
    let mut out = Vec::new();
    loop {
        let chunk = buf.bytes().to_vec();
        if chunk.is_empty() {
            break;
        }
        let n = chunk.len();
        out.extend(chunk);
        buf.advance(n);
    }
    assert_eq!(out, vec![b'[', b'{', b'}', b']']);
}

#[test]
fn it_works_correctly_with_multiple_spans() {
    let mut body = SpanBody::new(vec![
        vec![b'{', b'}'],
        vec![b'{', b'}'],
        vec![b'{', b'}'],
    ]);
    assert_eq!(body.content_length(), Some(10));
    let mut buf = body.take_data().unwrap();
    assert_eq!(buf.remaining(), 10);
    let mut out = Vec::new();
    loop {
        let chunk = buf.bytes().to_vec();
        if chunk.is_empty() {
            break;
        }
        let n = chunk.len();
        out.extend(chunk);
        buf.advance(n);
    }
    assert_eq!(
        out,
        vec![b'[', b'{', b'}', b',', b'{', b'}', b',', b'{', b'}', b']']
    );
}

#[test]
fn it_resolves_the_spans_path() {
    assert_eq!(
        resolve_spans_path(&http::Uri::from_str("http://localhost").unwrap()).unwrap(),
        http::Uri::from_str("http://localhost/api/v2/spans").unwrap()
    );
    assert_eq!(
        resolve_spans_path(&http::Uri::from_str("http://localhost/").unwrap()).unwrap(),
        http::Uri::from_str("http://localhost/api/v2/spans").unwrap()
    );
    assert_eq!(
        resolve_spans_path(&http::Uri::from_str("http://localhost/sub").unwrap()).unwrap(),
        http::Uri::from_str("http://localhost/sub/api/v2/spans").unwrap()
    );
    assert_eq!(
        resolve_spans_path(&http::Uri::from_str("http://localhost/sub/").unwrap()).unwrap(),
        http::Uri::from_str("http://localhost/sub/api/v2/spans").unwrap()
    );
    assert_eq!(
        resolve_spans_path(&http::Uri::from_str("http://localhost/?query=param").unwrap()).unwrap(),
        http::Uri::from_str("http://localhost/api/v2/spans?query=param").unwrap()
    );
}

#[test]
fn it_works_for_status_code() {
    let err = Error::http(http::StatusCode::INTERNAL_SERVER_ERROR);
    assert!(err.is_http_error());
    assert!(!err.is_transport_error());
    assert_eq!(
        err.message(),
        "zipkin server replied with status code 500 Internal Server Error"
    );
    assert_eq!(err.status_code(), Some(http::StatusCode::INTERNAL_SERVER_ERROR));
    assert_eq!(err.status_u16(), Some(500));
}

#[test]
fn classify_accepts_2xx_and_reports_the_rest() {
    assert!(classify_status(http::StatusCode::ACCEPTED).is_ok());
    assert!(classify_status(http::StatusCode::OK).is_ok());
    let err = classify_status(http::StatusCode::FORBIDDEN).unwrap_err();
    assert_eq!(err.status_u16(), Some(403));
    assert_eq!(err.status_code(), Some(http::StatusCode::FORBIDDEN));
}

#[test]
fn transport_errors_carry_their_message() {
    let err = Error::transport("connection closed".to_string());
    assert!(err.is_transport_error());
    assert!(!err.is_http_error());
    assert_eq!(err.message(), "connection closed");
    assert_eq!(err.status_code().map(|_| ()), None);
}
