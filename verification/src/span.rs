//! Spans.

use crate::annotation::{Annotation, AnnotationView};
use crate::endpoint::{Endpoint, EndpointView};
use crate::span_id::SpanId;
use crate::text::{lower_of, lowercase};
use crate::time::{Duration, Timestamp};
use crate::trace_id::TraceId;
use vstd::prelude::*;

verus! {

/// The "kind" of a span.
///
/// This has an impact on the relationship between the span's timestamp,
/// duration, and local endpoint.
#[derive(Debug, Copy, Clone, PartialEq, Eq, Structural)]
pub enum Kind {
    /// The client side of an RPC.
    Client,
    /// The server side of an RPC.
    Server,
    /// A message sent to a message broker.
    Producer,
    /// A message received from a message broker.
    Consumer,
}

/// The mathematical content of a [`Span`].
#[verifier::ext_equal]
pub ghost struct SpanView {
    /// The bytes of the trace ID.
    pub trace_id: Seq<u8>,
    /// The operation name, already lowercased.
    pub name: Option<Seq<char>>,
    /// The bytes of the parent span ID, absent for a root span.
    pub parent_id: Option<Seq<u8>>,
    /// The bytes of the span ID.
    pub id: Seq<u8>,
    /// The kind of operation.
    pub kind: Option<Kind>,
    /// The start instant, in nanoseconds since the epoch.
    pub timestamp: Option<nat>,
    /// The duration, in nanoseconds.
    pub duration: Option<nat>,
    /// Whether the span was forcibly sampled.
    pub debug: bool,
    /// Whether the span was started by another tracer.
    pub shared: bool,
    /// The endpoint that recorded the span.
    pub local_endpoint: Option<EndpointView>,
    /// The other side of the connection.
    pub remote_endpoint: Option<EndpointView>,
    /// The annotations, in insertion order.
    pub annotations: Seq<AnnotationView>,
    /// The tags, in insertion order, with unique keys.
    pub tags: Seq<(Seq<char>, Seq<char>)>,
}

/// The tag list with every entry under the given key removed.
pub open spec fn tags_without(tags: Seq<(Seq<char>, Seq<char>)>, key: Seq<char>) -> Seq<
    (Seq<char>, Seq<char>),
>
    decreases tags.len(),
{
    if tags.len() == 0 {
        Seq::empty()
    } else if tags[0].0 == key {
        tags_without(tags.drop_first(), key)
    } else {
        seq![tags[0]] + tags_without(tags.drop_first(), key)
    }
}

/// The tag list after adding each entry of `entries` in turn, each
/// replacing any earlier value under its key.
pub open spec fn tags_applied(
    tags: Seq<(Seq<char>, Seq<char>)>,
    entries: Seq<(Seq<char>, Seq<char>)>,
) -> Seq<(Seq<char>, Seq<char>)>
    decreases entries.len(),
{
    if entries.len() == 0 {
        tags
    } else {
        tags_applied(tags_without(tags, entries[0].0).push(entries[0]), entries.drop_first())
    }
}

/// A `Span` represents a single operation over some range of time.
///
/// Multiple spans make up a single "trace" of a distributed computation,
/// and spans can be nested. A new trace is created with a "root" span,
/// and subsections of that computation are recorded in individual spans.
#[derive(Debug, PartialEq)]
pub struct Span {
    trace_id: TraceId,
    name: Option<String>,
    parent_id: Option<SpanId>,
    id: SpanId,
    kind: Option<Kind>,
    timestamp: Option<Timestamp>,
    duration: Option<Duration>,
    debug: bool,
    shared: bool,
    local_endpoint: Option<Endpoint>,
    remote_endpoint: Option<Endpoint>,
    annotations: Vec<Annotation>,
    tags: Vec<(String, String)>,
}

impl View for Span {
    type V = SpanView;

    closed spec fn view(&self) -> SpanView {
        SpanView {
            trace_id: self.trace_id@,
            name: match self.name {
                Some(ref s) => Some(s@),
                None => None,
            },
            parent_id: match self.parent_id {
                Some(p) => Some(p@),
                None => None,
            },
            id: self.id@,
            kind: self.kind,
            timestamp: match self.timestamp {
                Some(t) => Some(t@),
                None => None,
            },
            duration: match self.duration {
                Some(d) => Some(d@),
                None => None,
            },
            debug: self.debug,
            shared: self.shared,
            local_endpoint: match self.local_endpoint {
                Some(ref e) => Some(e@),
                None => None,
            },
            remote_endpoint: match self.remote_endpoint {
                Some(ref e) => Some(e@),
                None => None,
            },
            annotations: self.annotations@.map_values(|a: Annotation| a@),
            tags: self.tags@.map_values(|t: (String, String)| (t.0@, t.1@)),
        }
    }
}

/// Copies an annotation list, keeping its view.
fn clone_annotations(v: &Vec<Annotation>) -> (r: Vec<Annotation>)
    ensures
        r@.map_values(|a: Annotation| a@) == v@.map_values(|a: Annotation| a@),
{
    let mut r: Vec<Annotation> = Vec::new();
    let n = v.len();
    let mut i: usize = 0;
    while i < n
        invariant
            n == v@.len(),
            i <= n,
            r@.len() == i,
            forall|j: int| 0 <= j < i ==> r@[j]@ == v@[j]@,
        decreases n - i,
    {
        r.push(v[i].clone());
        i = i + 1;
    }
    proof {
        assert forall|j: int| #![trigger v@[j]] 0 <= j < n implies r@.map_values(
            |a: Annotation| a@,
        )[j] == v@.map_values(|a: Annotation| a@)[j] by {
            assert(r@[j]@ == v@[j]@);
        }
        assert(r@.map_values(|a: Annotation| a@) =~= v@.map_values(|a: Annotation| a@));
    }
    r
}

/// Copies a tag list, keeping its view.
fn clone_tags(v: &Vec<(String, String)>) -> (r: Vec<(String, String)>)
    ensures
        r@.map_values(|t: (String, String)| (t.0@, t.1@)) == v@.map_values(
            |t: (String, String)| (t.0@, t.1@),
        ),
{
    let mut r: Vec<(String, String)> = Vec::new();
    let n = v.len();
    let mut i: usize = 0;
    while i < n
        invariant
            n == v@.len(),
            i <= n,
            r@.len() == i,
            forall|j: int| 0 <= j < i ==> r@[j].0@ == v@[j].0@ && r@[j].1@ == v@[j].1@,
        decreases n - i,
    {
        let p0 = v[i].0.clone();
        let p1 = v[i].1.clone();
        r.push((p0, p1));
        i = i + 1;
    }
    proof {
        assert forall|j: int| #![trigger v@[j]] 0 <= j < n implies r@.map_values(
            |t: (String, String)| (t.0@, t.1@),
        )[j] == v@.map_values(|t: (String, String)| (t.0@, t.1@))[j] by {
            assert(r@[j].0@ == v@[j].0@ && r@[j].1@ == v@[j].1@);
        }
        assert(r@.map_values(|t: (String, String)| (t.0@, t.1@)) =~= v@.map_values(
            |t: (String, String)| (t.0@, t.1@),
        ));
    }
    r
}

impl Clone for Span {
    /// A span clones to an equal span.
    fn clone(&self) -> (r: Span)
        ensures
            r@ == self@,
    {
        let r = Span {
            trace_id: self.trace_id,
            name: self.name.clone(),
            parent_id: self.parent_id,
            id: self.id,
            kind: self.kind,
            timestamp: self.timestamp,
            duration: self.duration,
            debug: self.debug,
            shared: self.shared,
            local_endpoint: self.local_endpoint.clone(),
            remote_endpoint: self.remote_endpoint.clone(),
            annotations: clone_annotations(&self.annotations),
            tags: clone_tags(&self.tags),
        };
        proof {
            assert(r@ =~= self@);
        }
        r
    }
}

impl Span {
    /// Returns a builder used to construct a `Span`.
    pub fn builder() -> (r: Builder)
        ensures
            r@.trace_id is None,
            r@.name is None,
            r@.parent_id is None,
            r@.id is None,
            r@.kind is None,
            r@.timestamp is None,
            r@.duration is None,
            r@.debug == false,
            r@.shared == false,
            r@.local_endpoint is None,
            r@.remote_endpoint is None,
            r@.annotations == Seq::<AnnotationView>::empty(),
            r@.tags == Seq::<(Seq<char>, Seq<char>)>::empty(),
    {
        let r = Builder {
            trace_id: None,
            name: None,
            parent_id: None,
            id: None,
            kind: None,
            timestamp: None,
            duration: None,
            debug: false,
            shared: false,
            local_endpoint: None,
            remote_endpoint: None,
            annotations: Vec::new(),
            tags: Vec::new(),
        };
        proof {
            assert(r@.annotations =~= Seq::<AnnotationView>::empty());
            assert(r@.tags =~= Seq::<(Seq<char>, Seq<char>)>::empty());
        }
        r
    }

    /// The identifier for the trace, set on all spans within it.
    pub fn trace_id(&self) -> (r: TraceId)
        ensures
            r@ == self@.trace_id,
    {
        self.trace_id
    }

    /// The logical operation this span represents, lowercased.
    pub fn name(&self) -> (r: Option<&str>)
        ensures
            match r {
                Some(s) => self@.name == Some(s@),
                None => self@.name is None,
            },
    {
        match &self.name {
            Some(s) => Some(s.as_str()),
            None => None,
        }
    }

    /// The parent span ID, or `None` if this is the root span in a trace.
    pub fn parent_id(&self) -> (r: Option<SpanId>)
        ensures
            match r {
                Some(p) => self@.parent_id == Some(p@),
                None => self@.parent_id is None,
            },
    {
        self.parent_id
    }

    /// The unique 64 bit identifier for this operation within the trace.
    pub fn id(&self) -> (r: SpanId)
        ensures
            r@ == self@.id,
    {
        self.id
    }

    /// The "kind" of operation this span represents.
    pub fn kind(&self) -> (r: Option<Kind>)
        ensures
            r == self@.kind,
    {
        self.kind
    }

    /// The start of the span.
    pub fn timestamp(&self) -> (r: Option<Timestamp>)
        ensures
            match r {
                Some(t) => self@.timestamp == Some(t@),
                None => self@.timestamp is None,
            },
    {
        self.timestamp
    }

    /// The duration of the critical path, if known.
    pub fn duration(&self) -> (r: Option<Duration>)
        ensures
            match r {
                Some(d) => self@.duration == Some(d@),
                None => self@.duration is None,
            },
    {
        self.duration
    }

    /// Determines if this span is part of a normal or forcibly sampled
    /// trace.
    pub fn debug(&self) -> (r: bool)
        ensures
            r == self@.debug,
    {
        self.debug
    }

    /// Determines if this span was started by another tracer.
    pub fn shared(&self) -> (r: bool)
        ensures
            r == self@.shared,
    {
        self.shared
    }

    /// Returns the host that recorded this span.
    pub fn local_endpoint(&self) -> (r: Option<&Endpoint>)
        ensures
            match r {
                Some(e) => self@.local_endpoint == Some(e@),
                None => self@.local_endpoint is None,
            },
    {
        match &self.local_endpoint {
            Some(e) => Some(e),
            None => None,
        }
    }

    /// Returns the other side of the connection for RPC or messaging
    /// spans.
    pub fn remote_endpoint(&self) -> (r: Option<&Endpoint>)
        ensures
            match r {
                Some(e) => self@.remote_endpoint == Some(e@),
                None => self@.remote_endpoint is None,
            },
    {
        match &self.remote_endpoint {
            Some(e) => Some(e),
            None => None,
        }
    }

    /// Returns the annotations associated with this span.
    pub fn annotations(&self) -> (r: &Vec<Annotation>)
        ensures
            r@.map_values(|a: Annotation| a@) == self@.annotations,
    {
        &self.annotations
    }

    /// Returns the tags used to give the span context for search and
    /// analysis, as key and value pairs in insertion order.
    pub fn tags(&self) -> (r: &Vec<(String, String)>)
        ensures
            r@.map_values(|t: (String, String)| (t.0@, t.1@)) == self@.tags,
    {
        &self.tags
    }
}

/// A builder for `Span`s.
pub struct Builder {
    trace_id: Option<TraceId>,
    name: Option<String>,
    parent_id: Option<SpanId>,
    id: Option<SpanId>,
    kind: Option<Kind>,
    timestamp: Option<Timestamp>,
    duration: Option<Duration>,
    debug: bool,
    shared: bool,
    local_endpoint: Option<Endpoint>,
    remote_endpoint: Option<Endpoint>,
    annotations: Vec<Annotation>,
    tags: Vec<(String, String)>,
}

/// What a [`Builder`] holds: the fields as set so far, with the trace and
/// span IDs still optional.
#[verifier::ext_equal]
pub ghost struct BuilderView {
    /// The bytes of the trace ID, once set.
    pub trace_id: Option<Seq<u8>>,
    /// The operation name, already lowercased.
    pub name: Option<Seq<char>>,
    /// The bytes of the parent span ID.
    pub parent_id: Option<Seq<u8>>,
    /// The bytes of the span ID, once set.
    pub id: Option<Seq<u8>>,
    /// The kind of operation.
    pub kind: Option<Kind>,
    /// The start instant, in nanoseconds since the epoch.
    pub timestamp: Option<nat>,
    /// The duration, in nanoseconds.
    pub duration: Option<nat>,
    /// Whether the span was forcibly sampled.
    pub debug: bool,
    /// Whether the span was started by another tracer.
    pub shared: bool,
    /// The endpoint that recorded the span.
    pub local_endpoint: Option<EndpointView>,
    /// The other side of the connection.
    pub remote_endpoint: Option<EndpointView>,
    /// The annotations, in insertion order.
    pub annotations: Seq<AnnotationView>,
    /// The tags, in insertion order.
    pub tags: Seq<(Seq<char>, Seq<char>)>,
}

impl View for Builder {
    type V = BuilderView;

    closed spec fn view(&self) -> BuilderView {
        BuilderView {
            trace_id: match self.trace_id {
                Some(t) => Some(t@),
                None => None,
            },
            name: match self.name {
                Some(ref s) => Some(s@),
                None => None,
            },
            parent_id: match self.parent_id {
                Some(p) => Some(p@),
                None => None,
            },
            id: match self.id {
                Some(i) => Some(i@),
                None => None,
            },
            kind: self.kind,
            timestamp: match self.timestamp {
                Some(t) => Some(t@),
                None => None,
            },
            duration: match self.duration {
                Some(d) => Some(d@),
                None => None,
            },
            debug: self.debug,
            shared: self.shared,
            local_endpoint: match self.local_endpoint {
                Some(ref e) => Some(e@),
                None => None,
            },
            remote_endpoint: match self.remote_endpoint {
                Some(ref e) => Some(e@),
                None => None,
            },
            annotations: self.annotations@.map_values(|a: Annotation| a@),
            tags: self.tags@.map_values(|t: (String, String)| (t.0@, t.1@)),
        }
    }
}

impl Builder {
    /// Sets the trace ID of the span.
    pub fn trace_id(&mut self, trace_id: TraceId) -> (r: &mut Builder)
        ensures
            r@ == (BuilderView { trace_id: Some(trace_id@), ..old(self)@ }),
            final(self)@ == final(r)@,
    {
        self.trace_id = Some(trace_id);
        self
    }

    /// Sets the name of the span, lowercasing it first.
    ///
    /// Defaults to `None`.
    pub fn name(&mut self, name: &str) -> (r: &mut Builder)
        ensures
            r@ == (BuilderView { name: Some(lower_of(name@)), ..old(self)@ }),
            final(self)@ == final(r)@,
    {
        self.name = Some(lowercase(name));
        self
    }

    /// Sets the ID of the span's parent.
    ///
    /// Defaults to `None`.
    pub fn parent_id(&mut self, parent_id: SpanId) -> (r: &mut Builder)
        ensures
            r@ == (BuilderView { parent_id: Some(parent_id@), ..old(self)@ }),
            final(self)@ == final(r)@,
    {
        self.parent_id = Some(parent_id);
        self
    }

    /// Sets the ID of the span.
    pub fn id(&mut self, id: SpanId) -> (r: &mut Builder)
        ensures
            r@ == (BuilderView { id: Some(id@), ..old(self)@ }),
            final(self)@ == final(r)@,
    {
        self.id = Some(id);
        self
    }

    /// Sets the kind of the span.
    ///
    /// Defaults to `None`.
    pub fn kind(&mut self, kind: Kind) -> (r: &mut Builder)
        ensures
            r@ == (BuilderView { kind: Some(kind), ..old(self)@ }),
            final(self)@ == final(r)@,
    {
        self.kind = Some(kind);
        self
    }

    /// Sets the time of the beginning of the span.
    ///
    /// Defaults to `None`.
    pub fn timestamp(&mut self, timestamp: Timestamp) -> (r: &mut Builder)
        ensures
            r@ == (BuilderView { timestamp: Some(timestamp@), ..old(self)@ }),
            final(self)@ == final(r)@,
    {
        self.timestamp = Some(timestamp);
        self
    }

    /// Sets the duration of the span.
    ///
    /// Defaults to `None`.
    pub fn duration(&mut self, duration: Duration) -> (r: &mut Builder)
        ensures
            r@ == (BuilderView { duration: Some(duration@), ..old(self)@ }),
            final(self)@ == final(r)@,
    {
        self.duration = Some(duration);
        self
    }

    /// Sets the debug state of the span.
    ///
    /// Defaults to `false`.
    pub fn debug(&mut self, debug: bool) -> (r: &mut Builder)
        ensures
            r@ == (BuilderView { debug: debug, ..old(self)@ }),
            final(self)@ == final(r)@,
    {
        self.debug = debug;
        self
    }

    /// Sets the shared state of the span.
    ///
    /// Defaults to `false`.
    pub fn shared(&mut self, shared: bool) -> (r: &mut Builder)
        ensures
            r@ == (BuilderView { shared: shared, ..old(self)@ }),
            final(self)@ == final(r)@,
    {
        self.shared = shared;
        self
    }

    /// Sets the local endpoint of the span.
    ///
    /// Defaults to `None`.
    pub fn local_endpoint(&mut self, local_endpoint: Endpoint) -> (r: &mut Builder)
        ensures
            r@ == (BuilderView { local_endpoint: Some(local_endpoint@), ..old(self)@ }),
            final(self)@ == final(r)@,
    {
        self.local_endpoint = Some(local_endpoint);
        self
    }

    /// Sets the remote endpoint of the span.
    ///
    /// Defaults to `None`.
    pub fn remote_endpoint(&mut self, remote_endpoint: Endpoint) -> (r: &mut Builder)
        ensures
            r@ == (BuilderView { remote_endpoint: Some(remote_endpoint@), ..old(self)@ }),
            final(self)@ == final(r)@,
    {
        self.remote_endpoint = Some(remote_endpoint);
        self
    }

    /// Adds an annotation to the span.
    pub fn annotation(&mut self, annotation: Annotation) -> (r: &mut Builder)
        ensures
            r@ == (BuilderView {
                annotations: old(self)@.annotations.push(annotation@),
                ..old(self)@
            }),
            final(self)@ == final(r)@,
    {
        let ghost prior = self.annotations@;
        self.annotations.push(annotation);
        proof {
            assert(self.annotations@.map_values(|a: Annotation| a@) =~= prior.map_values(
                |a: Annotation| a@,
            ).push(annotation@));
        }
        self
    }

    /// Adds multiple annotations to the span.
    pub fn annotations(&mut self, annotations: Vec<Annotation>) -> (r: &mut Builder)
        ensures
            r@ == (BuilderView {
                annotations: old(self)@.annotations + annotations@.map_values(
                    |a: Annotation| a@,
                ),
                ..old(self)@
            }),
            final(self)@ == final(r)@,
    {
        let ghost prior = self.annotations@;
        let mut rest = annotations;
        self.annotations.append(&mut rest);
        proof {
            assert(self.annotations@.map_values(|a: Annotation| a@) =~= prior.map_values(
                |a: Annotation| a@,
            ) + annotations@.map_values(|a: Annotation| a@));
        }
        self
    }

    /// Adds a tag to the span, replacing any earlier value under the same
    /// key.
    pub fn tag(&mut self, key: &str, value: &str) -> (r: &mut Builder)
        ensures
            r@ == (BuilderView {
                tags: tags_without(old(self)@.tags, key@).push((key@, value@)),
                ..old(self)@
            }),
            final(self)@ == final(r)@,
    {
        let k: String = key.to_owned();
        let v: String = value.to_owned();
        let ghost prior = self.tags@.map_values(|t: (String, String)| (t.0@, t.1@));
        let mut kept: Vec<(String, String)> = Vec::new();
        let n = self.tags.len();
        proof {
            assert(prior.take(0) =~= Seq::<(Seq<char>, Seq<char>)>::empty());
            assert(kept@.map_values(|t: (String, String)| (t.0@, t.1@)) =~= tags_without(
                prior.take(0),
                key@,
            ));
        }
        let mut i: usize = 0;
        while i < n
            invariant
                n == self.tags@.len(),
                i <= n,
                k@ == key@,
                prior == self.tags@.map_values(|t: (String, String)| (t.0@, t.1@)),
                kept@.map_values(|t: (String, String)| (t.0@, t.1@)) == tags_without(
                    prior.take(i as int),
                    key@,
                ),
            decreases n - i,
        {
            let entry_key_matches = {
                let pair = &self.tags[i];
                pair.0 == k
            };
            let ghost kept_prior = kept@.map_values(|t: (String, String)| (t.0@, t.1@));
            if !entry_key_matches {
                let p0 = self.tags[i].0.clone();
                let p1 = self.tags[i].1.clone();
                kept.push((p0, p1));
            }
            proof {
                lemma_tags_without_push(prior.take(i as int), prior[i as int], key@);
                assert(prior.take(i + 1) =~= prior.take(i as int).push(prior[i as int]));
                if !entry_key_matches {
                    assert(kept@.map_values(|t: (String, String)| (t.0@, t.1@)) =~= kept_prior
                        + seq![prior[i as int]]);
                    assert(kept_prior + seq![prior[i as int]] =~= tags_without(
                        prior.take(i + 1),
                        key@,
                    ));
                }
            }
            i = i + 1;
        }
        proof {
            assert(prior.take(n as int) =~= prior);
        }
        let ghost kept_final = kept@.map_values(|t: (String, String)| (t.0@, t.1@));
        kept.push((k, v));
        proof {
            assert(kept@.map_values(|t: (String, String)| (t.0@, t.1@)) =~= kept_final.push(
                (key@, value@),
            ));
        }
        self.tags = kept;
        self
    }

    /// Adds multiple tags to the span, each as `tag` would.
    pub fn tags(&mut self, tags: Vec<(String, String)>) -> (r: &mut Builder)
        ensures
            final(self)@ == final(r)@,
            r@.tags == tags_applied(
                old(self)@.tags,
                tags@.map_values(|t: (String, String)| (t.0@, t.1@)),
            ),
            r@.trace_id == old(self)@.trace_id,
            r@.id == old(self)@.id,
            r@.name == old(self)@.name,
            r@.parent_id == old(self)@.parent_id,
            r@.kind == old(self)@.kind,
            r@.timestamp == old(self)@.timestamp,
            r@.duration == old(self)@.duration,
            r@.debug == old(self)@.debug,
            r@.shared == old(self)@.shared,
            r@.local_endpoint == old(self)@.local_endpoint,
            r@.remote_endpoint == old(self)@.remote_endpoint,
            r@.annotations == old(self)@.annotations,
    {
        let ghost entries = tags@.map_values(|t: (String, String)| (t.0@, t.1@));
        let n = tags.len();
        proof {
            assert(entries.skip(0) =~= entries);
        }
        let mut i: usize = 0;
        while i < n
            invariant
                n == tags@.len(),
                i <= n,
                entries == tags@.map_values(|t: (String, String)| (t.0@, t.1@)),
                tags_applied(self@.tags, entries.skip(i as int)) == tags_applied(
                    old(self)@.tags,
                    entries,
                ),
                self@.trace_id == old(self)@.trace_id,
                self@.id == old(self)@.id,
                self@.name == old(self)@.name,
                self@.parent_id == old(self)@.parent_id,
                self@.kind == old(self)@.kind,
                self@.timestamp == old(self)@.timestamp,
                self@.duration == old(self)@.duration,
                self@.debug == old(self)@.debug,
                self@.shared == old(self)@.shared,
                self@.local_endpoint == old(self)@.local_endpoint,
                self@.remote_endpoint == old(self)@.remote_endpoint,
                self@.annotations == old(self)@.annotations,
            decreases n - i,
        {
            let ghost before = self@.tags;
            let p0 = tags[i].0.clone();
            let p1 = tags[i].1.clone();
            self.tag(p0.as_str(), p1.as_str());
            proof {
                assert(entries.skip(i as int)[0] == entries[i as int]);
                assert(entries.skip(i as int).drop_first() =~= entries.skip(i + 1));
                assert(self@.tags == tags_without(before, entries[i as int].0).push(
                    entries[i as int],
                ));
            }
            i = i + 1;
        }
        proof {
            assert(entries.skip(n as int) =~= Seq::<(Seq<char>, Seq<char>)>::empty());
        }
        self
    }

    /// Constructs a `Span`.
    ///
    /// The trace ID and span ID must have been set.
    pub fn build(&self) -> (r: Span)
        requires
            self@.trace_id is Some,
            self@.id is Some,
        ensures
            r@.trace_id == self@.trace_id.unwrap(),
            r@.name == self@.name,
            r@.parent_id == self@.parent_id,
            r@.id == self@.id.unwrap(),
            r@.kind == self@.kind,
            r@.timestamp == self@.timestamp,
            r@.duration == self@.duration,
            r@.debug == self@.debug,
            r@.shared == self@.shared,
            r@.local_endpoint == self@.local_endpoint,
            r@.remote_endpoint == self@.remote_endpoint,
            r@.annotations == self@.annotations,
            r@.tags == self@.tags,
    {
        Span {
            trace_id: self.trace_id.unwrap(),
            name: self.name.clone(),
            parent_id: self.parent_id,
            id: self.id.unwrap(),
            kind: self.kind,
            timestamp: self.timestamp,
            duration: self.duration,
            debug: self.debug,
            shared: self.shared,
            local_endpoint: self.local_endpoint.clone(),
            remote_endpoint: self.remote_endpoint.clone(),
            annotations: clone_annotations(&self.annotations),
            tags: clone_tags(&self.tags),
        }
    }
}

/// `tags_without` over a sequence extended at the back.
proof fn lemma_tags_without_push(
    tags: Seq<(Seq<char>, Seq<char>)>,
    entry: (Seq<char>, Seq<char>),
    key: Seq<char>,
)
    ensures
        tags_without(tags.push(entry), key) == if entry.0 == key {
            tags_without(tags, key)
        } else {
            tags_without(tags, key) + seq![entry]
        },
    decreases tags.len(),
{
    if tags.len() == 0 {
        let single = tags.push(entry);
        let empty = Seq::<(Seq<char>, Seq<char>)>::empty();
        assert(single.len() == 1);
        assert(single[0] == entry);
        assert(single.drop_first() =~= empty);
        assert(tags_without(empty, key) == empty);
        assert(tags =~= empty);
        if entry.0 == key {
            assert(tags_without(single, key) == tags_without(single.drop_first(), key));
            assert(tags_without(single, key) =~= tags_without(tags, key));
        } else {
            assert(tags_without(single, key) == seq![single[0]] + tags_without(
                single.drop_first(),
                key,
            ));
            assert(tags_without(single, key) =~= tags_without(tags, key) + seq![entry]);
        }
    } else {
        lemma_tags_without_push(tags.drop_first(), entry, key);
        assert(tags.push(entry).drop_first() =~= tags.drop_first().push(entry));
        assert(tags.push(entry)[0] == tags[0]);
        if entry.0 == key {
            assert(tags_without(tags.push(entry), key) =~= tags_without(tags, key));
        } else {
            assert(tags_without(tags.push(entry), key) =~= tags_without(tags, key) + seq![entry]);
        }
    }
}

} // verus!
