//! Open spans.

use crate::annotation::{Annotation, AnnotationView};
use crate::clock;
use crate::current::{restore, set_current, CurrentGuard, CurrentStore};
use crate::endpoint::Endpoint;
use crate::report::Report;
use crate::sample::Sample;
use crate::span;
use crate::span::Kind;
use crate::text::lower_of;
use crate::trace_context::{ContextView, TraceContext};
use crate::tracer::Tracer;
use vstd::prelude::*;

verus! {

/// A type indicating that an `OpenSpan` is "attached" to its store: it
/// holds the guard for the current-context cell it replaced.
pub struct Attached {
    guard: CurrentGuard,
}

/// A type indicating that an `OpenSpan` is "detached" from the current
/// context store, and so safe to hand to another unit of execution.
pub struct Detached;

/// What an open span carries while it is alive: the record being
/// accumulated and the instant it was opened, or nothing for a span that
/// was sampled out.
pub(crate) enum SpanState {
    Real { span: span::Builder, start_instant: std::time::Instant },
    Nop,
}

impl SpanState {
    pub(crate) open spec fn is_real(&self) -> bool {
        self matches SpanState::Real { .. }
    }

    pub(crate) open spec fn record(&self) -> span::BuilderView {
        match self {
            SpanState::Real { span, .. } => span@,
            SpanState::Nop => vstd::pervasive::arbitrary(),
        }
    }
}

/// An open span.
///
/// The span is finished and reported when `finish` is called; dropping
/// the handle without finishing it loses the span.
///
/// Spans are either "attached" to a current-context store or "detached"
/// from it. An attached span manages the store's current context, as a
/// `CurrentGuard` does. A detached span does not, and may be sent to
/// another unit of execution; `detach` and `attach` convert between the
/// two, moving the record so that only one handle ever finishes it.
pub struct OpenSpan<T> {
    mode: T,
    context: TraceContext,
    state: SpanState,
}

impl<T> OpenSpan<T> {
    /// The context of the span.
    pub closed spec fn ctx(&self) -> ContextView {
        self.context@
    }

    /// Whether the span is real: a no-op span accumulates nothing and
    /// reports nothing.
    pub closed spec fn is_real(&self) -> bool {
        self.state.is_real()
    }

    /// The record accumulated so far, meaningful only for a real span.
    pub closed spec fn record(&self) -> span::BuilderView {
        self.state.record()
    }

    /// The mode value, used to speak of the attached span's saved
    /// context.
    pub closed spec fn spec_mode(&self) -> T {
        self.mode
    }

    /// A real span's record carries the identifiers of its context.
    pub open spec fn wf(&self) -> bool {
        self.is_real() ==> {
            &&& self.record().trace_id == Some(self.ctx().trace_id)
            &&& self.record().id == Some(self.ctx().span_id)
        }
    }

    /// Returns the context associated with this span.
    pub fn context(&self) -> (r: TraceContext)
        ensures
            r@ == self.ctx(),
    {
        self.context
    }

    /// Sets the name of this span, lowercased. A no-op on a no-op span.
    pub fn name(&mut self, name: &str)
        ensures
            unchanged_but_record(old(self), final(self)),
            old(self).is_real() ==> final(self).record() == (span::BuilderView {
                name: Some(lower_of(name@)),
                ..old(self).record()
            }),
            !old(self).is_real() ==> final(self).record() == old(self).record(),
    {
        match &mut self.state {
            SpanState::Real { span, .. } => {
                span.name(name);
            },
            SpanState::Nop => {},
        }
    }

    /// A builder-style version of `name`.
    pub fn with_name(self, name: &str) -> (r: OpenSpan<T>)
        ensures
            unchanged_but_record(&self, &r),
            self.is_real() ==> r.record() == (span::BuilderView {
                name: Some(lower_of(name@)),
                ..self.record()
            }),
            !self.is_real() ==> r.record() == self.record(),
    {
        let mut s = self;
        s.name(name);
        s
    }

    /// Sets the kind of this span. A no-op on a no-op span.
    pub fn kind(&mut self, kind: Kind)
        ensures
            unchanged_but_record(old(self), final(self)),
            old(self).is_real() ==> final(self).record() == (span::BuilderView {
                kind: Some(kind),
                ..old(self).record()
            }),
            !old(self).is_real() ==> final(self).record() == old(self).record(),
    {
        match &mut self.state {
            SpanState::Real { span, .. } => {
                span.kind(kind);
            },
            SpanState::Nop => {},
        }
    }

    /// A builder-style version of `kind`.
    pub fn with_kind(self, kind: Kind) -> (r: OpenSpan<T>)
        ensures
            unchanged_but_record(&self, &r),
            self.is_real() ==> r.record() == (span::BuilderView {
                kind: Some(kind),
                ..self.record()
            }),
            !self.is_real() ==> r.record() == self.record(),
    {
        let mut s = self;
        s.kind(kind);
        s
    }

    /// Sets the remote endpoint of this span. A no-op on a no-op span.
    pub fn remote_endpoint(&mut self, remote_endpoint: Endpoint)
        ensures
            unchanged_but_record(old(self), final(self)),
            old(self).is_real() ==> final(self).record() == (span::BuilderView {
                remote_endpoint: Some(remote_endpoint@),
                ..old(self).record()
            }),
            !old(self).is_real() ==> final(self).record() == old(self).record(),
    {
        match &mut self.state {
            SpanState::Real { span, .. } => {
                span.remote_endpoint(remote_endpoint);
            },
            SpanState::Nop => {},
        }
    }

    /// A builder-style version of `remote_endpoint`.
    pub fn with_remote_endpoint(self, remote_endpoint: Endpoint) -> (r: OpenSpan<T>)
        ensures
            unchanged_but_record(&self, &r),
            self.is_real() ==> r.record() == (span::BuilderView {
                remote_endpoint: Some(remote_endpoint@),
                ..self.record()
            }),
            !self.is_real() ==> r.record() == self.record(),
    {
        let mut s = self;
        s.remote_endpoint(remote_endpoint);
        s
    }

    /// Attaches an annotation to this span, timestamped at the call.
    /// A no-op on a no-op span.
    pub fn annotate(&mut self, value: &str)
        ensures
            unchanged_but_record(old(self), final(self)),
            old(self).is_real() ==> exists|t: nat|
                #[trigger] annotation_pushed(old(self).record(), final(self).record(), t, value@),
            !old(self).is_real() ==> final(self).record() == old(self).record(),
    {
        match &mut self.state {
            SpanState::Real { span, .. } => {
                let annotation = Annotation::now(value);
                let ghost t = annotation@.timestamp;
                span.annotation(annotation);
                proof {
                    assert(annotation_pushed(old(self).record(), self.record(), t, value@));
                }
            },
            SpanState::Nop => {},
        }
    }

    /// A builder-style version of `annotate`.
    pub fn with_annotation(self, value: &str) -> (r: OpenSpan<T>)
        ensures
            unchanged_but_record(&self, &r),
            self.is_real() ==> exists|t: nat|
                #[trigger] annotation_pushed(self.record(), r.record(), t, value@),
            !self.is_real() ==> r.record() == self.record(),
    {
        let mut s = self;
        s.annotate(value);
        s
    }

    /// Attaches a tag to this span, replacing any earlier value under the
    /// same key. A no-op on a no-op span.
    pub fn tag(&mut self, key: &str, value: &str)
        ensures
            unchanged_but_record(old(self), final(self)),
            old(self).is_real() ==> final(self).record() == (span::BuilderView {
                tags: span::tags_without(old(self).record().tags, key@).push((key@, value@)),
                ..old(self).record()
            }),
            !old(self).is_real() ==> final(self).record() == old(self).record(),
    {
        match &mut self.state {
            SpanState::Real { span, .. } => {
                span.tag(key, value);
            },
            SpanState::Nop => {},
        }
    }

    /// A builder-style version of `tag`.
    pub fn with_tag(self, key: &str, value: &str) -> (r: OpenSpan<T>)
        ensures
            unchanged_but_record(&self, &r),
            self.is_real() ==> r.record() == (span::BuilderView {
                tags: span::tags_without(self.record().tags, key@).push((key@, value@)),
                ..self.record()
            }),
            !self.is_real() ==> r.record() == self.record(),
    {
        let mut s = self;
        s.tag(key, value);
        s
    }
}

/// The record `after` is `before` with one annotation of instant `t` and
/// the given value appended, all else equal.
pub open spec fn annotation_pushed(
    before: span::BuilderView,
    after: span::BuilderView,
    t: nat,
    value: Seq<char>,
) -> bool {
    after == (span::BuilderView {
        annotations: before.annotations.push(AnnotationView { timestamp: t, value: value }),
        ..before
    })
}

/// The span's context, reality, identifiers and mode are untouched; only
/// the accumulated record may differ.
pub open spec fn unchanged_but_record<T>(a: &OpenSpan<T>, b: &OpenSpan<T>) -> bool {
    &&& b.ctx() == a.ctx()
    &&& b.is_real() == a.is_real()
    &&& b.spec_mode() == a.spec_mode()
    &&& (a.wf() ==> b.wf())
}

impl OpenSpan<Attached> {
    /// The value of the current-context cell that this span replaced and
    /// will restore.
    pub closed spec fn saved(&self) -> Option<ContextView> {
        self.mode.guard@
    }

    /// Builds an attached span over a state, installing its context as
    /// the store's current one.
    pub(crate) fn new(store: &mut CurrentStore, context: TraceContext, state: SpanState) -> (r:
        OpenSpan<Attached>)
        requires
            state.is_real() ==> {
                &&& state.record().trace_id == Some(context@.trace_id)
                &&& state.record().id == Some(context@.span_id)
            },
        ensures
            r.ctx() == context@,
            r.is_real() == state.is_real(),
            r.record() == state.record(),
            r.wf(),
            final(store)@ == Some(context@),
            r.saved() == old(store)@,
    {
        let guard = set_current(store, context);
        OpenSpan { mode: Attached { guard }, context, state }
    }

    /// Builds an attached no-op span over a context: it accumulates
    /// nothing and reports nothing, but still manages the store's
    /// current context. Spans created before a tracer is installed take
    /// this shape.
    pub fn noop(store: &mut CurrentStore, context: TraceContext) -> (r: OpenSpan<Attached>)
        ensures
            r.ctx() == context@,
            !r.is_real(),
            r.wf(),
            final(store)@ == Some(context@),
            r.saved() == old(store)@,
    {
        OpenSpan::new(store, context, SpanState::Nop)
    }

    /// Detaches this span from its store, restoring the saved context.
    ///
    /// The record moves into the detached handle, which becomes the one
    /// handle that can finish the span.
    pub fn detach(self, store: &mut CurrentStore) -> (r: OpenSpan<Detached>)
        ensures
            r.ctx() == self.ctx(),
            r.is_real() == self.is_real(),
            r.record() == self.record(),
            self.wf() ==> r.wf(),
            final(store)@ == self.saved(),
    {
        let OpenSpan { mode: Attached { guard }, context, state } = self;
        restore(store, guard);
        OpenSpan { mode: Detached, context, state }
    }

    /// Finishes the span: the saved context is restored, and a real span
    /// is stamped with its duration, built, and handed to the tracer's
    /// reporter exactly once.
    pub fn finish<S: Sample, R: Report>(self, tracer: &Tracer<S, R>, store: &mut CurrentStore)
        requires
            self.wf(),
        ensures
            final(store)@ == self.saved(),
    {
        let OpenSpan { mode: Attached { guard }, context, state } = self;
        restore(store, guard);
        finish_record(tracer, state);
    }
}

impl OpenSpan<Detached> {
    /// Re-attaches this span's context to a store.
    pub fn attach(self, store: &mut CurrentStore) -> (r: OpenSpan<Attached>)
        ensures
            r.ctx() == self.ctx(),
            r.is_real() == self.is_real(),
            r.record() == self.record(),
            self.wf() ==> r.wf(),
            final(store)@ == Some(self.ctx()),
            r.saved() == old(store)@,
    {
        let guard = set_current(store, self.context);
        OpenSpan { mode: Attached { guard }, context: self.context, state: self.state }
    }

    /// Finishes the span: a real span is stamped with its duration,
    /// built, and handed to the tracer's reporter exactly once.
    pub fn finish<S: Sample, R: Report>(self, tracer: &Tracer<S, R>)
        requires
            self.wf(),
    {
        finish_record(tracer, self.state);
    }

    /// Binds this span to an asynchronous computation.
    ///
    /// The caller installs the span's context around every resumption of
    /// the computation, and finishes the span when the bound computation
    /// is dropped.
    pub fn bind<F>(self, future: F) -> (r: Bind<F>)
        ensures
            r.span_ctx() == self.ctx(),
            r.span_is_real() == self.is_real(),
            r.span_record() == self.record(),
            self.wf() ==> r.span_wf(),
            r.spec_future() == future,
    {
        Bind { span: self, future }
    }
}

/// Stamps the duration, builds the record and reports it, for a real
/// state; does nothing for a no-op state.
fn finish_record<S: Sample, R: Report>(tracer: &Tracer<S, R>, state: SpanState)
    requires
        state.is_real() ==> state.record().trace_id is Some && state.record().id is Some,
{
    match state {
        SpanState::Real { mut span, start_instant } => {
            let duration = clock::elapsed_since(&start_instant);
            span.duration(duration);
            let record = span.build();
            tracer.report_span(record);
        },
        SpanState::Nop => {},
    }
}

/// A type which wraps an asynchronous computation, associating it with an
/// `OpenSpan`.
///
/// The driver of the computation installs the span's context as current
/// around every step, and finishes the span when the computation is
/// dropped.
pub struct Bind<T> {
    span: OpenSpan<Detached>,
    future: T,
}

impl<T> Bind<T> {
    /// The context of the bound span.
    pub closed spec fn span_ctx(&self) -> ContextView {
        self.span.ctx()
    }

    /// Whether the bound span is real.
    pub closed spec fn span_is_real(&self) -> bool {
        self.span.is_real()
    }

    /// The record accumulated by the bound span.
    pub closed spec fn span_record(&self) -> span::BuilderView {
        self.span.record()
    }

    /// The bound span's well-formedness.
    pub closed spec fn span_wf(&self) -> bool {
        self.span.wf()
    }

    /// The wrapped computation.
    pub closed spec fn spec_future(&self) -> T {
        self.future
    }

    /// Returns the context of the bound span, to be installed as current
    /// while the computation runs a step.
    pub fn context(&self) -> (r: TraceContext)
        ensures
            r@ == self.span_ctx(),
    {
        self.span.context()
    }

    /// Takes the binding apart, handing back the span and the
    /// computation.
    pub fn into_parts(self) -> (r: (OpenSpan<Detached>, T))
        ensures
            r.0.ctx() == self.span_ctx(),
            r.0.is_real() == self.span_is_real(),
            r.0.record() == self.span_record(),
            self.span_wf() ==> r.0.wf(),
            r.1 == self.spec_future(),
    {
        (self.span, self.future)
    }
}

} // verus!
