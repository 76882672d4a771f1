use std::cell::RefCell;
use std::rc::Rc;
use zipkin::{
    current, restore, set_current, AlwaysSampler, CurrentStore, Endpoint, NeverSampler, Report,
    Sample, Span, Tracer,
};

struct TestReporter(Rc<RefCell<Vec<Span>>>);

impl Report for TestReporter {
    fn report2(&self, span: Span) {
        self.0.borrow_mut().push(span);
    }
}

fn tracer_with_sink<S: Sample>(sampler: S) -> (Tracer<S, TestReporter>, Rc<RefCell<Vec<Span>>>) {
    let sink = Rc::new(RefCell::new(Vec::new()));
    let tracer = Tracer::new(
        sampler,
        TestReporter(sink.clone()),
        Endpoint::builder().build(),
    );
    (tracer, sink)
}

#[test]
fn detach_attach() {
    let (tracer, sink) = tracer_with_sink(AlwaysSampler);
    let mut store = CurrentStore::new();

    let parent = tracer.new_trace(&mut store);
    let parent_trace = parent.context().trace_id();
    let parent_id = parent.context().span_id();

    let detached = tracer.next_span(&mut store).detach(&mut store);
    let detached_id = detached.context().span_id();

    // detaching restored the parent as the current context
    assert_eq!(current(&store).map(|c| c.span_id()), Some(parent_id));

    let child2 = tracer.next_span(&mut store);
    let child2_trace = child2.context().trace_id();
    let child2_id = child2.context().span_id();

    let attached = detached.attach(&mut store);
    let child3 = tracer.next_span(&mut store);
    let child3_id = child3.context().span_id();

    child3.finish(&tracer, &mut store);
    attached.finish(&tracer, &mut store);
    child2.finish(&tracer, &mut store);
    parent.finish(&tracer, &mut store);

    let spans = sink.borrow().clone();
    assert_eq!(spans.len(), 4);
    assert_eq!(spans[0].id(), child3_id);
    assert_eq!(spans[0].parent_id(), Some(detached_id));
    assert_eq!(spans[1].id(), detached_id);
    assert_eq!(spans[1].parent_id(), Some(parent_id));
    assert_eq!(spans[2].trace_id(), child2_trace);
    assert_eq!(spans[2].id(), child2_id);
    assert_eq!(spans[2].parent_id(), Some(parent_id));
    assert_eq!(spans[3].trace_id(), parent_trace);
    assert_eq!(spans[3].id(), parent_id);
    assert_eq!(spans[3].parent_id(), None);
}

#[test]
fn bind() {
    let (tracer, sink) = tracer_with_sink(AlwaysSampler);
    let mut store = CurrentStore::new();

    let future_root = tracer.next_span(&mut store);
    let future_root_context = future_root.context();

    let bound = future_root.detach(&mut store).bind(());

    let other_root = tracer.next_span(&mut store);
    let other_root_context = other_root.context();
    other_root.finish(&tracer, &mut store);

    // one resumption of the bound computation: install the bound
    // context, run a step that opens a child, and restore
    let guard = set_current(&mut store, bound.context());
    let inner = tracer.next_span(&mut store);
    let future_context = inner.context();
    inner.finish(&tracer, &mut store);
    restore(&mut store, guard);
    assert_eq!(current(&store).map(|c| c.span_id()), None);

    // dropping the bound computation finishes the span
    let (span, ()) = bound.into_parts();
    span.finish(&tracer);

    let spans = sink.borrow().clone();
    assert_eq!(spans.len(), 3);
    assert_eq!(spans[0].id(), other_root_context.span_id());
    assert_eq!(spans[0].parent_id(), None);
    assert_eq!(spans[1].id(), future_context.span_id());
    assert_eq!(spans[1].parent_id(), Some(future_root_context.span_id()));
    assert_eq!(spans[2].id(), future_root_context.span_id());
    assert_eq!(spans[2].parent_id(), None);
}

#[test]
fn root_child_grandchild() {
    let (tracer, sink) = tracer_with_sink(AlwaysSampler);
    let mut store = CurrentStore::new();

    let a = tracer.new_trace(&mut store);
    let a_ctx = a.context();
    let b = tracer.next_span(&mut store);
    let b_ctx = b.context();
    let c = tracer.next_span(&mut store);
    let c_ctx = c.context();

    assert_ne!(b_ctx.span_id(), a_ctx.span_id());
    assert_ne!(c_ctx.span_id(), b_ctx.span_id());
    assert_eq!(b_ctx.parent_id(), Some(a_ctx.span_id()));

    c.finish(&tracer, &mut store);
    b.finish(&tracer, &mut store);
    a.finish(&tracer, &mut store);

    let spans = sink.borrow().clone();
    assert_eq!(spans.len(), 3);
    assert_eq!(spans[0].id(), c_ctx.span_id());
    assert_eq!(spans[0].parent_id(), Some(b_ctx.span_id()));
    assert_eq!(spans[1].id(), b_ctx.span_id());
    assert_eq!(spans[1].parent_id(), Some(a_ctx.span_id()));
    assert_eq!(spans[2].id(), a_ctx.span_id());
    assert_eq!(spans[2].parent_id(), None);
    assert_eq!(spans[0].trace_id(), a_ctx.trace_id());
    assert_eq!(spans[1].trace_id(), a_ctx.trace_id());
}

#[test]
fn current_follows_attached_spans() {
    let (tracer, _sink) = tracer_with_sink(AlwaysSampler);
    let mut store = CurrentStore::new();
    assert!(current(&store).is_none());

    let a = tracer.new_trace(&mut store);
    assert_eq!(current(&store).map(|c| c.span_id()), Some(a.context().span_id()));

    let b = tracer.next_span(&mut store);
    assert_eq!(current(&store).map(|c| c.span_id()), Some(b.context().span_id()));

    b.finish(&tracer, &mut store);
    assert_eq!(current(&store).map(|c| c.span_id()), Some(a.context().span_id()));

    a.finish(&tracer, &mut store);
    assert!(current(&store).is_none());
}

#[test]
fn sampled_out_contexts_produce_no_records() {
    let (tracer, sink) = tracer_with_sink(AlwaysSampler);
    let mut store = CurrentStore::new();

    let ctx = zipkin::TraceContext::builder()
        .trace_id([0u8, 1, 2, 3, 4, 5, 6, 7].into())
        .span_id([2u8, 3, 4, 5, 6, 7, 8, 9].into())
        .sampled(false)
        .build();

    let mut joined = tracer.join_trace(&mut store, ctx);
    joined.name("ignored");
    let child = tracer.next_span(&mut store);
    assert_eq!(child.context().sampled(), Some(false));
    child.finish(&tracer, &mut store);
    joined.finish(&tracer, &mut store);

    assert!(sink.borrow().is_empty());
}

#[test]
fn never_sampler_decides_once() {
    let (tracer, sink) = tracer_with_sink(NeverSampler);
    let mut store = CurrentStore::new();

    let span = tracer.new_trace(&mut store);
    assert_eq!(span.context().sampled(), Some(false));
    span.finish(&tracer, &mut store);
    assert!(sink.borrow().is_empty());
}

#[test]
fn join_trace_marks_shared_spans() {
    let (tracer, sink) = tracer_with_sink(AlwaysSampler);
    let mut store = CurrentStore::new();

    let ctx = zipkin::TraceContext::builder()
        .trace_id([0u8, 1, 2, 3, 4, 5, 6, 7].into())
        .span_id([2u8, 3, 4, 5, 6, 7, 8, 9].into())
        .sampled(true)
        .build();
    let joined = tracer.join_trace(&mut store, ctx);
    joined.finish(&tracer, &mut store);

    // an undecided incoming context is not shared: the peer did not
    // record its half
    let undecided = zipkin::TraceContext::builder()
        .trace_id([9u8, 1, 2, 3, 4, 5, 6, 7].into())
        .span_id([8u8, 3, 4, 5, 6, 7, 8, 9].into())
        .build();
    let joined2 = tracer.join_trace(&mut store, undecided);
    joined2.finish(&tracer, &mut store);

    let spans = sink.borrow().clone();
    assert_eq!(spans.len(), 2);
    assert!(spans[0].shared());
    assert!(!spans[1].shared());
}

#[test]
fn new_trace_uses_one_id_for_trace_and_span() {
    let (tracer, _sink) = tracer_with_sink(AlwaysSampler);
    let mut store = CurrentStore::new();
    let span = tracer.new_trace(&mut store);
    let ctx = span.context();
    assert_eq!(ctx.trace_id().bytes(), ctx.span_id().bytes());
    assert_eq!(ctx.parent_id(), None);
    span.finish(&tracer, &mut store);
}

#[test]
fn mutators_accumulate_on_real_spans() {
    let (tracer, sink) = tracer_with_sink(AlwaysSampler);
    let mut store = CurrentStore::new();

    let span = tracer
        .new_trace(&mut store)
        .with_name("GET /Users")
        .with_kind(zipkin::Kind::Server)
        .with_tag("http.status", "200")
        .with_annotation("ws")
        .with_remote_endpoint(Endpoint::builder().service_name("peer").build());
    span.finish(&tracer, &mut store);

    let spans = sink.borrow().clone();
    assert_eq!(spans.len(), 1);
    assert_eq!(spans[0].name(), Some("get /users"));
    assert!(matches!(spans[0].kind(), Some(zipkin::Kind::Server)));
    assert_eq!(
        spans[0].tags()[0],
        ("http.status".to_string(), "200".to_string())
    );
    assert_eq!(spans[0].annotations()[0].value(), "ws");
    assert_eq!(
        spans[0].remote_endpoint().and_then(|e| e.service_name()),
        Some("peer")
    );
    assert!(spans[0].duration().is_some());
    assert!(spans[0].timestamp().is_some());
}

#[test]
fn sampling_decision_is_sticky_across_detach_and_attach() {
    let (tracer, sink) = tracer_with_sink(AlwaysSampler);
    let mut store = CurrentStore::new();

    let ctx = zipkin::TraceContext::builder()
        .trace_id([0u8, 1, 2, 3, 4, 5, 6, 7].into())
        .span_id([2u8, 3, 4, 5, 6, 7, 8, 9].into())
        .sampled(false)
        .build();

    let span = tracer.join_trace(&mut store, ctx);
    let detached = span.detach(&mut store);
    let reattached = detached.attach(&mut store);
    assert_eq!(reattached.context().sampled(), Some(false));

    let child = tracer.next_span(&mut store);
    assert_eq!(child.context().sampled(), Some(false));
    child.finish(&tracer, &mut store);
    reattached.finish(&tracer, &mut store);

    assert!(sink.borrow().is_empty());
}
