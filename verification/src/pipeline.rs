//! The background half of the HTTP reporter.
//!
//! The foreground offers completed spans to a [`SpanQueue`]; the worker
//! repeatedly takes a chunk, serializes it, and posts the resulting
//! [`SpanBody`] to the collector at the URI `resolve_spans_path` built.
//! The decisions — which spans enter a batch and what bytes go on the
//! wire — live here; issuing the POST and waiting on it stay with the
//! caller driving the worker.

use crate::json::{json_of, try_serialize, wire_fits};
use crate::span::{Span, SpanView};
use crate::span_body::{body_fits, full_bytes, SpanBody};
use vstd::prelude::*;

verus! {

/// The serialized form of a batch: every span whose wire numbers fit,
/// in order. One that does not fit would be a serialization failure;
/// it is dropped, as the wire cannot carry it.
pub open spec fn batch_docs(spans: Seq<SpanView>) -> Seq<Seq<u8>>
    decreases spans.len(),
{
    if spans.len() == 0 {
        Seq::empty()
    } else if wire_fits(spans[0]) {
        seq![json_of(spans[0])] + batch_docs(spans.drop_first())
    } else {
        batch_docs(spans.drop_first())
    }
}

/// `batch_docs` over a list extended at the back.
#[verifier::rlimit(60)]
#[verifier::spinoff_prover]
proof fn lemma_batch_docs_push(spans: Seq<SpanView>, v: SpanView)
    ensures
        batch_docs(spans.push(v)) == if wire_fits(v) {
            batch_docs(spans) + seq![json_of(v)]
        } else {
            batch_docs(spans)
        },
    decreases spans.len(),
{
    if spans.len() == 0 {
        let single = spans.push(v);
        assert(single[0] == v);
        assert(single.drop_first() =~= Seq::<SpanView>::empty());
        assert(batch_docs(single.drop_first()) =~= Seq::<Seq<u8>>::empty());
        if wire_fits(v) {
            assert(batch_docs(single) =~= batch_docs(spans) + seq![json_of(v)]);
        } else {
            assert(batch_docs(single) =~= batch_docs(spans));
        }
    } else {
        lemma_batch_docs_push(spans.drop_first(), v);
        assert(spans.push(v).drop_first() =~= spans.drop_first().push(v));
        assert(spans.push(v)[0] == spans[0]);
        if wire_fits(v) {
            assert(batch_docs(spans.push(v)) =~= batch_docs(spans) + seq![json_of(v)]);
        } else {
            assert(batch_docs(spans.push(v)) =~= batch_docs(spans));
        }
    }
}

/// Serializes a batch of spans into the body of one collector request,
/// together with how many spans were dropped as serialization failures.
///
/// Every span whose wire numbers fit contributes its JSON object, in
/// order; one that does not is dropped and counted. The body is `None`
/// only when the assembled array would not fit a machine word.
pub fn batch_body(spans: &Vec<Span>) -> (r: (Option<SpanBody>, usize))
    ensures
        match r.0 {
            Some(b) => {
                &&& b.wf()
                &&& b.data() == full_bytes(batch_docs(spans@.map_values(|s: Span| s@)))
                &&& b.spec_len() == b.data().len()
            },
            None => full_bytes(batch_docs(spans@.map_values(|s: Span| s@))).len() > usize::MAX,
        },
        r.1 + batch_docs(spans@.map_values(|s: Span| s@)).len() == spans@.len(),
{
    let ghost views = spans@.map_values(|s: Span| s@);
    let mut docs: Vec<Vec<u8>> = Vec::new();
    let n = spans.len();
    proof {
        assert(views.take(0) =~= Seq::<SpanView>::empty());
        assert(docs@.map_values(|d: Vec<u8>| d@) =~= batch_docs(views.take(0)));
    }
    let mut i: usize = 0;
    while i < n
        invariant
            n == spans@.len(),
            i <= n,
            views == spans@.map_values(|s: Span| s@),
            docs@.map_values(|d: Vec<u8>| d@) == batch_docs(views.take(i as int)),
            docs@.len() <= i,
            forall|j: int| 0 <= j < docs@.len() ==> (#[trigger] docs@[j])@.len() >= 2,
        decreases n - i,
    {
        let ghost prior = docs@.map_values(|d: Vec<u8>| d@);
        match try_serialize(&spans[i]) {
            Some(doc) => {
                docs.push(doc);
                proof {
                    assert(docs@.map_values(|d: Vec<u8>| d@) =~= prior.push(json_of(
                        views[i as int],
                    )));
                }
            },
            None => {},
        }
        proof {
            lemma_batch_docs_push(views.take(i as int), views[i as int]);
            assert(views.take(i + 1) =~= views.take(i as int).push(views[i as int]));
            if wire_fits(views[i as int]) {
                assert(prior + seq![json_of(views[i as int])] =~= prior.push(json_of(
                    views[i as int],
                )));
            }
        }
        i = i + 1;
    }
    proof {
        assert(views.take(n as int) =~= views);
    }
    let dropped = n - docs.len();
    if !body_fits(&docs) {
        return (None, dropped);
    }
    proof {
        assert forall|j: int| 0 <= j < docs@.len() implies #[trigger] docs@[j]@.len() > 0 by {
            assert(docs@[j]@.len() >= 2);
        }
    }
    (Some(SpanBody::new(docs)), dropped)
}

} // verus!
