//! Tracers.

use crate::clock;
use crate::current::{current, CurrentStore};
use crate::endpoint::{Endpoint, EndpointView};
use crate::open_span::{Attached, OpenSpan, SpanState};
use crate::report::Report;
use crate::sample::Sample;
use crate::sampling_flags::SamplingFlags;
use crate::span::Span;
use crate::span_id::SpanId;
use crate::trace_context;
use crate::trace_context::{ContextView, TraceContext};
use crate::trace_id::TraceId;
use vstd::prelude::*;

verus! {

/// The error returned when attempting to install a process-wide tracer
/// when one is already installed.
#[derive(Debug, Copy, Clone, PartialEq, Eq, Structural)]
pub struct SetTracerError;

/// Relies on `rand::thread_rng` and `rand::Rng::fill`: eight bytes drawn
/// from the thread-local generator. Nothing is promised of the value.
#[verifier::external_body]
fn next_id() -> [u8; 8] {
    let mut id = [0u8; 8];
    rand::Rng::fill(&mut rand::thread_rng(), &mut id);
    id
}

/// A tracer composes a sampler, a reporter and the local endpoint, and
/// materializes open spans.
///
/// The tracer is immutable once built, so it can be shared freely; the
/// per-execution-unit state lives in the [`CurrentStore`] handed to each
/// operation.
pub struct Tracer<S, R> {
    sampler: S,
    reporter: R,
    local_endpoint: Endpoint,
}

impl<S: Sample, R: Report> Tracer<S, R> {
    /// The local endpoint stamped on every real span.
    pub closed spec fn local(&self) -> EndpointView {
        self.local_endpoint@
    }

    /// Builds a tracer from a sampler, a reporter and the endpoint that
    /// describes this process.
    pub fn new(sampler: S, reporter: R, local_endpoint: Endpoint) -> (r: Tracer<S, R>)
        ensures
            r.local() == local_endpoint@,
    {
        Tracer { sampler, reporter, local_endpoint }
    }

    /// Starts a new trace with default sampling flags: sampling
    /// undecided, debug off.
    pub fn new_trace(&self, store: &mut CurrentStore) -> (r: OpenSpan<Attached>)
        ensures
            fresh_root(self, old(store)@, final(store)@, &r),
            r.ctx().flags.debug == false,
            r.ctx().flags.sampled is Some,
    {
        self.new_trace_from(store, SamplingFlags::builder().build())
    }

    /// Starts a new trace with specific sampling flags.
    ///
    /// A fresh eight-byte identifier serves as both the trace ID and the
    /// span ID of the root context.
    pub fn new_trace_from(&self, store: &mut CurrentStore, flags: SamplingFlags) -> (r: OpenSpan<
        Attached,
    >)
        ensures
            fresh_root(self, old(store)@, final(store)@, &r),
            r.ctx().flags.debug == flags@.debug,
            flags@.sampled is Some ==> r.ctx().flags == flags@,
            r.ctx().flags.sampled is Some,
    {
        proof {
            use_type_invariant(flags);
        }
        let id = next_id();
        let mut builder = TraceContext::builder();
        builder.trace_id(TraceId::from(id));
        builder.span_id(SpanId::from(id));
        builder.sampling_flags(flags);
        let context = builder.build();
        self.make_span(store, context, false)
    }

    /// Joins an existing trace.
    ///
    /// The context can come from, for example, the headers of an HTTP
    /// request. The span is considered shared: this process records only
    /// its own view of a span whose other half was recorded by a peer —
    /// unless the peer left the sampling decision open, in which case the
    /// peer cannot have recorded it.
    pub fn join_trace(&self, store: &mut CurrentStore, context: TraceContext) -> (r: OpenSpan<
        Attached,
    >)
        ensures
            span_made(self, old(store)@, final(store)@, context@, true, &r),
    {
        self.make_span(store, context, true)
    }

    /// Starts a new span with the specified parent.
    ///
    /// The child copies the parent's trace ID and flags, records the
    /// parent's span ID as its parent, and draws a fresh span ID.
    pub fn new_child(&self, store: &mut CurrentStore, parent: TraceContext) -> (r: OpenSpan<
        Attached,
    >)
        ensures
            child_made(self, old(store)@, final(store)@, parent@, &r),
    {
        let id = next_id();
        let parent_flags = parent.sampling_flags();
        proof {
            use_type_invariant(parent_flags);
        }
        let mut builder = TraceContext::builder();
        builder.trace_id(parent.trace_id());
        builder.parent_id(parent.span_id());
        builder.span_id(SpanId::from(id));
        builder.sampling_flags(parent_flags);
        let context = builder.build();
        self.make_span(store, context, false)
    }

    /// Creates a new span parented to the current one if it exists, or
    /// starting a new trace otherwise.
    pub fn next_span(&self, store: &mut CurrentStore) -> (r: OpenSpan<Attached>)
        ensures
            match old(store)@ {
                Some(c) => child_made(self, old(store)@, final(store)@, c, &r),
                None => fresh_root(self, old(store)@, final(store)@, &r) && r.ctx().flags.debug
                    == false,
            },
    {
        match current(store) {
            Some(context) => self.new_child(store, context),
            None => self.new_trace(store),
        }
    }

    /// Hands a completed span to the reporter.
    pub(crate) fn report_span(&self, span: Span) {
        self.reporter.report2(span);
    }

    /// Materializes an open span over a context.
    ///
    /// If the context leaves the sampling decision open, the sampler is
    /// consulted once with the trace ID and its answer replaces the flag;
    /// the span then no longer counts as shared, since the peer that sent
    /// an undecided context cannot have recorded its half. If the
    /// decision is against recording, the span is a no-op; otherwise the
    /// record starts with the identifiers, the wall-clock timestamp and
    /// the local endpoint.
    fn make_span(&self, store: &mut CurrentStore, context: TraceContext, shared: bool) -> (r:
        OpenSpan<Attached>)
        ensures
            span_made(self, old(store)@, final(store)@, context@, shared, &r),
    {
        let mut context = context;
        let mut shared = shared;
        if context.sampled().is_none() {
            let decision = self.sampler.sample(context.trace_id());
            let mut builder = trace_context::Builder::from(context);
            builder.sampled(decision);
            context = builder.build();
            // the peer that handed the context over did not decide, so it
            // cannot be recording the other half of this span
            shared = false;
        }
        let state = match context.sampled() {
            Some(false) => SpanState::Nop,
            _ => {
                let mut span = Span::builder();
                span.trace_id(context.trace_id());
                span.id(context.span_id());
                span.timestamp(clock::wall_now());
                span.shared(shared);
                span.local_endpoint(self.local_endpoint.clone());
                match context.parent_id() {
                    Some(parent_id) => {
                        span.parent_id(parent_id);
                    },
                    None => {},
                }
                SpanState::Real { span, start_instant: clock::monotonic_now() }
            },
        };
        OpenSpan::new(store, context, state)
    }
}

/// What every span-creating operation guarantees, given the context it
/// was asked to install: the identifiers are kept, the sampling decision
/// is resolved, the span is real exactly when the decision favours
/// recording, the record starts out with the identifiers and the local
/// endpoint, and the store now holds the new context with the old value
/// saved in the span.
pub open spec fn span_made<S: Sample, R: Report>(
    tracer: &Tracer<S, R>,
    store_before: Option<ContextView>,
    store_after: Option<ContextView>,
    context: ContextView,
    shared: bool,
    r: &OpenSpan<Attached>,
) -> bool {
    &&& r.ctx().trace_id == context.trace_id
    &&& r.ctx().span_id == context.span_id
    &&& r.ctx().parent_id == context.parent_id
    &&& r.ctx().flags.debug == context.flags.debug
    &&& r.ctx().flags.sampled is Some
    &&& context.flags.sampled is Some ==> r.ctx().flags == context.flags
    &&& r.is_real() <==> r.ctx().flags.sampled == Some(true)
    &&& r.wf()
    &&& store_after == Some(r.ctx())
    &&& r.saved() == store_before
    &&& r.is_real() ==> {
        &&& r.record().trace_id == Some(context.trace_id)
        &&& r.record().id == Some(context.span_id)
        &&& r.record().parent_id == context.parent_id
        &&& r.record().shared == (shared && context.flags.sampled is Some)
        &&& r.record().local_endpoint == Some(tracer.local())
        &&& r.record().timestamp is Some
        &&& r.record().name is None
        &&& r.record().kind is None
        &&& r.record().duration is None
        &&& r.record().debug == false
        &&& r.record().remote_endpoint is None
        &&& r.record().annotations.len() == 0
        &&& r.record().tags.len() == 0
    }
}

/// What a fresh root guarantees beyond `span_made`: one fresh identifier
/// serves as trace ID and span ID, and the context has no parent.
pub open spec fn fresh_root<S: Sample, R: Report>(
    tracer: &Tracer<S, R>,
    store_before: Option<ContextView>,
    store_after: Option<ContextView>,
    r: &OpenSpan<Attached>,
) -> bool {
    &&& r.ctx().trace_id == r.ctx().span_id
    &&& r.ctx().trace_id.len() == 8
    &&& r.ctx().parent_id is None
    &&& span_made(
        tracer,
        store_before,
        store_after,
        ContextView {
            trace_id: r.ctx().trace_id,
            parent_id: None,
            span_id: r.ctx().span_id,
            flags: r.ctx().flags,
        },
        false,
        r,
    )
}

/// What `new_child` guarantees: the child copies the parent's trace ID
/// and flags, is parented to the parent's span, and draws its own span
/// ID.
pub open spec fn child_made<S: Sample, R: Report>(
    tracer: &Tracer<S, R>,
    store_before: Option<ContextView>,
    store_after: Option<ContextView>,
    parent: ContextView,
    r: &OpenSpan<Attached>,
) -> bool {
    &&& r.ctx().trace_id == parent.trace_id
    &&& r.ctx().parent_id == Some(parent.span_id)
    &&& r.ctx().span_id.len() == 8
    &&& parent.flags.sampled is Some ==> r.ctx().flags == parent.flags
    &&& span_made(
        tracer,
        store_before,
        store_after,
        ContextView {
            trace_id: parent.trace_id,
            parent_id: Some(parent.span_id),
            span_id: r.ctx().span_id,
            flags: parent.flags,
        },
        false,
        r,
    )
}

} // verus!
