//! A distributed-tracing client library for the Zipkin v2 data model.
//!
//! The crate records causally linked timing records ("spans"), maintains a
//! per-execution-unit current trace context, propagates trace identifiers
//! over HTTP via the B3 headers, and feeds a bounded batching pipeline that
//! ships serialized spans to a collector.

pub mod annotation;
pub mod clock;
pub mod current;
pub mod duration_micros;
pub mod endpoint;
pub mod error;
pub mod headers;
pub mod hex;
pub mod httpwrap;
pub mod json;
pub mod json_read;
pub mod open_span;
pub mod pipeline;
pub mod queue;
pub mod report;
pub mod sample;
pub mod sampling_flags;
pub mod span;
pub mod span_body;
pub mod span_id;
pub mod text;
pub mod time;
pub mod time_micros;
pub mod trace_context;
pub mod trace_id;
pub mod tracer;
pub mod uri;

pub use annotation::Annotation;
pub use current::{current, restore, set_current, CurrentGuard, CurrentStore};
pub use endpoint::Endpoint;
pub use error::{classify_status, Error};
pub use headers::{
    get_sampling_flags, get_trace_context, set_sampling_flags, set_sampling_flags_single,
    set_trace_context, set_trace_context_single, XB3Flags, XB3Sampled,
};
pub use json::serialize;
pub use json_read::deserialize;
pub use open_span::{Attached, Bind, Detached, OpenSpan};
pub use pipeline::batch_body;
pub use queue::SpanQueue;
pub use report::{LoggingReporter, NopReporter, Report};
pub use sample::{AlwaysSampler, NeverSampler, Sample};
pub use sampling_flags::SamplingFlags;
pub use span::{Kind, Span};
pub use span_body::{SpanBody, SpanBuf};
pub use span_id::{SpanId, SpanIdParseError};
pub use time::{Duration, Timestamp};
pub use trace_context::TraceContext;
pub use trace_id::{TraceId, TraceIdParseError};
pub use tracer::{SetTracerError, Tracer};
pub use uri::resolve_spans_path;
