//! Trace contexts.

use crate::sampling_flags;
use crate::sampling_flags::{FlagsView, SamplingFlags};
use crate::span_id::SpanId;
use crate::trace_id::TraceId;
use vstd::prelude::*;

verus! {

/// The mathematical content of a [`TraceContext`]: the identifier bytes
/// and the sampling flags.
#[verifier::ext_equal]
pub ghost struct ContextView {
    /// The bytes of the trace ID.
    pub trace_id: Seq<u8>,
    /// The bytes of the parent span ID, absent for a root context.
    pub parent_id: Option<Seq<u8>>,
    /// The bytes of the span ID.
    pub span_id: Seq<u8>,
    /// The sampling flags.
    pub flags: FlagsView,
}

impl ContextView {
    /// Identifier lengths are as the wire demands and the flags obey
    /// their invariant.
    pub open spec fn wf(self) -> bool {
        &&& self.trace_id.len() == 8 || self.trace_id.len() == 16
        &&& self.span_id.len() == 8
        &&& self.parent_id matches Some(p) ==> p.len() == 8
        &&& self.flags.wf()
    }
}

/// A `TraceContext` represents a distributed trace request.
///
/// It consists of a trace ID, the ID of the parent span, the ID of the
/// context's span, and flags dealing with the sampling of the span.
///
/// The trace context is sent to remote services on requests. For example,
/// it is included in a standard set of headers in HTTP requests.
#[derive(Debug, Copy, Clone, PartialEq, Eq)]
pub struct TraceContext {
    trace_id: TraceId,
    parent_id: Option<SpanId>,
    span_id: SpanId,
    flags: SamplingFlags,
}

impl View for TraceContext {
    type V = ContextView;

    closed spec fn view(&self) -> ContextView {
        ContextView {
            trace_id: self.trace_id@,
            parent_id: match self.parent_id {
                Some(p) => Some(p@),
                None => None,
            },
            span_id: self.span_id@,
            flags: self.flags@,
        }
    }
}

impl TraceContext {
    /// A trace context is well formed by construction.
    pub proof fn lemma_wf(&self)
        ensures
            self@.trace_id.len() == 8 || self@.trace_id.len() == 16,
            self@.span_id.len() == 8,
            self@.parent_id matches Some(p) ==> p.len() == 8,
    {
        self.trace_id.lemma_len();
        self.span_id.lemma_len();
        match self.parent_id {
            Some(p) => p.lemma_len(),
            None => (),
        }
    }

    /// Returns a builder used to construct a `TraceContext`.
    pub fn builder() -> (r: Builder)
        ensures
            r@.trace_id is None,
            r@.parent_id is None,
            r@.span_id is None,
            r@.flags == FlagsView::undecided(),
    {
        Builder {
            trace_id: None,
            parent_id: None,
            span_id: None,
            flags: SamplingFlags::builder(),
        }
    }

    /// Returns the ID of the trace associated with this context.
    pub fn trace_id(&self) -> (r: TraceId)
        ensures
            r@ == self@.trace_id,
    {
        self.trace_id
    }

    /// Returns the ID of the parent of the span associated with this context.
    pub fn parent_id(&self) -> (r: Option<SpanId>)
        ensures
            match r {
                Some(p) => self@.parent_id == Some(p@),
                None => self@.parent_id is None,
            },
    {
        self.parent_id
    }

    /// Returns the ID of the span associated with this context.
    pub fn span_id(&self) -> (r: SpanId)
        ensures
            r@ == self@.span_id,
    {
        self.span_id
    }

    /// Returns the sampling flags associated with this context.
    pub fn sampling_flags(&self) -> (r: SamplingFlags)
        ensures
            r@ == self@.flags,
            self@.flags.wf(),
    {
        let r = self.flags;
        proof {
            use_type_invariant(r);
        }
        r
    }

    /// Determines if sampling has been requested for this context.
    ///
    /// A value of `None` indicates that the service working in the context
    /// is responsible for determining if it should be sampled.
    pub fn sampled(&self) -> (r: Option<bool>)
        ensures
            r == self@.flags.sampled,
    {
        self.flags.sampled()
    }

    /// Determines if this context is in debug mode.
    ///
    /// Debug contexts should always be sampled, regardless of the value of
    /// `sampled()`.
    pub fn debug(&self) -> (r: bool)
        ensures
            r == self@.flags.debug,
    {
        self.flags.debug()
    }
}

/// What a [`Builder`] holds: the identifiers as set so far, and the flags
/// view of its inner flags builder.
#[verifier::ext_equal]
pub ghost struct BuilderView {
    /// The trace ID, once set.
    pub trace_id: Option<Seq<u8>>,
    /// The parent span ID, if set.
    pub parent_id: Option<Seq<u8>>,
    /// The span ID, once set.
    pub span_id: Option<Seq<u8>>,
    /// The flags accumulated so far.
    pub flags: FlagsView,
}

/// A builder type for `TraceContext`s.
pub struct Builder {
    trace_id: Option<TraceId>,
    parent_id: Option<SpanId>,
    span_id: Option<SpanId>,
    flags: sampling_flags::Builder,
}

impl View for Builder {
    type V = BuilderView;

    closed spec fn view(&self) -> BuilderView {
        BuilderView {
            trace_id: match self.trace_id {
                Some(t) => Some(t@),
                None => None,
            },
            parent_id: match self.parent_id {
                Some(p) => Some(p@),
                None => None,
            },
            span_id: match self.span_id {
                Some(s) => Some(s@),
                None => None,
            },
            flags: self.flags@,
        }
    }
}

impl From<TraceContext> for Builder {
    /// A builder primed with the fields of an existing context.
    fn from(c: TraceContext) -> (r: Builder)
        ensures
            r@.trace_id == Some(c@.trace_id),
            r@.parent_id == c@.parent_id,
            r@.span_id == Some(c@.span_id),
            r@.flags == c@.flags,
    {
        Builder {
            trace_id: Some(c.trace_id),
            parent_id: c.parent_id,
            span_id: Some(c.span_id),
            flags: c.flags.into(),
        }
    }
}

impl vstd::std_specs::convert::FromSpecImpl<TraceContext> for Builder {
    open spec fn obeys_from_spec() -> bool {
        false
    }

    closed spec fn from_spec(c: TraceContext) -> Builder {
        Builder {
            trace_id: Some(c.trace_id),
            parent_id: c.parent_id,
            span_id: Some(c.span_id),
            flags: vstd::pervasive::arbitrary(),
        }
    }
}

impl Builder {
    /// Sets the trace ID of this context.
    pub fn trace_id(&mut self, trace_id: TraceId) -> (r: &mut Builder)
        ensures
            r@ == (BuilderView { trace_id: Some(trace_id@), ..old(self)@ }),
            final(self)@ == final(r)@,
    {
        self.trace_id = Some(trace_id);
        self
    }

    /// Sets the ID of the parent span of this context.
    ///
    /// Defaults to `None`.
    pub fn parent_id(&mut self, parent_id: SpanId) -> (r: &mut Builder)
        ensures
            r@ == (BuilderView { parent_id: Some(parent_id@), ..old(self)@ }),
            final(self)@ == final(r)@,
    {
        self.parent_id = Some(parent_id);
        self
    }

    /// Sets the ID of the span of this context.
    pub fn span_id(&mut self, span_id: SpanId) -> (r: &mut Builder)
        ensures
            r@ == (BuilderView { span_id: Some(span_id@), ..old(self)@ }),
            final(self)@ == final(r)@,
    {
        self.span_id = Some(span_id);
        self
    }

    /// Sets the sampling flags for this context.
    pub fn sampling_flags(&mut self, flags: SamplingFlags) -> (r: &mut Builder)
        ensures
            r@ == (BuilderView { flags: flags@, ..old(self)@ }),
            final(self)@ == final(r)@,
    {
        self.flags = flags.into();
        self
    }

    /// Sets the sampling request for this context.
    ///
    /// Defaults to `None`.
    pub fn sampled(&mut self, sampled: bool) -> (r: &mut Builder)
        ensures
            r@ == (BuilderView {
                flags: FlagsView { sampled: Some(sampled), ..old(self)@.flags },
                ..old(self)@
            }),
            final(self)@ == final(r)@,
    {
        self.flags.sampled(sampled);
        self
    }

    /// Sets the debug flag for this request.
    ///
    /// Defaults to `false`.
    pub fn debug(&mut self, debug: bool) -> (r: &mut Builder)
        ensures
            r@ == (BuilderView {
                flags: FlagsView { debug: debug, ..old(self)@.flags },
                ..old(self)@
            }),
            final(self)@ == final(r)@,
    {
        self.flags.debug(debug);
        self
    }

    /// Constructs a `TraceContext`.
    ///
    /// The trace ID and span ID must have been set; the built context
    /// carries the flags with the debug-implies-sampled rule applied.
    pub fn build(&self) -> (r: TraceContext)
        requires
            self@.trace_id is Some,
            self@.span_id is Some,
        ensures
            r@.trace_id == self@.trace_id.unwrap(),
            r@.parent_id == self@.parent_id,
            r@.span_id == self@.span_id.unwrap(),
            r@.flags.debug == self@.flags.debug,
            r@.flags.sampled == if self@.flags.debug {
                Some(true)
            } else {
                self@.flags.sampled
            },
            r@.flags.wf(),
    {
        TraceContext {
            trace_id: self.trace_id.unwrap(),
            parent_id: self.parent_id,
            span_id: self.span_id.unwrap(),
            flags: self.flags.build(),
        }
    }
}

} // verus!
