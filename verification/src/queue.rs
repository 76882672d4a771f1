//! The bounded span queue that feeds the reporting worker.
//!
//! The foreground `offer` never blocks: a span either enters the queue
//! or, when the queue is full, is dropped and counted. The background
//! worker takes spans in chunks, in arrival order. The counters make the
//! queue's bookkeeping exact: everything offered was accepted or
//! dropped, and once the queue is drained, everything accepted was
//! taken.

use crate::span::{Span, SpanView};
use vstd::prelude::*;

verus! {

/// A bounded first-in, first-out queue of completed spans.
pub struct SpanQueue {
    buf: Vec<Span>,
    capacity: usize,
    accepted: Ghost<nat>,
    dropped: Ghost<nat>,
    taken: Ghost<nat>,
}

impl SpanQueue {
    /// The spans waiting in the queue, oldest first.
    pub closed spec fn pending(&self) -> Seq<SpanView> {
        self.buf@.map_values(|s: Span| s@)
    }

    /// The queue's capacity.
    pub closed spec fn capacity(&self) -> nat {
        self.capacity as nat
    }

    /// How many offered spans entered the queue.
    pub closed spec fn accepted(&self) -> nat {
        self.accepted@
    }

    /// How many offered spans were dropped against a full queue.
    pub closed spec fn dropped(&self) -> nat {
        self.dropped@
    }

    /// How many spans the worker has taken out.
    pub closed spec fn taken(&self) -> nat {
        self.taken@
    }

    /// The queue's bookkeeping: every accepted span is either still
    /// pending or was taken, and the queue never exceeds its capacity.
    pub open spec fn wf(&self) -> bool {
        &&& self.accepted() == self.taken() + self.pending().len()
        &&& self.pending().len() <= self.capacity()
    }

    /// An empty queue of the given capacity.
    pub fn new(queue_size: usize) -> (r: SpanQueue)
        ensures
            r.wf(),
            r.pending() == Seq::<SpanView>::empty(),
            r.capacity() == queue_size,
            r.accepted() == 0,
            r.dropped() == 0,
            r.taken() == 0,
    {
        let r = SpanQueue {
            buf: Vec::new(),
            capacity: queue_size,
            accepted: Ghost(0),
            dropped: Ghost(0),
            taken: Ghost(0),
        };
        proof {
            assert(r.pending() =~= Seq::<SpanView>::empty());
        }
        r
    }

    /// How many spans are waiting.
    pub fn len(&self) -> (r: usize)
        ensures
            r == self.pending().len(),
    {
        self.buf.len()
    }

    /// Whether the queue is empty.
    pub fn is_empty(&self) -> (r: bool)
        ensures
            r == (self.pending().len() == 0),
    {
        self.buf.is_empty()
    }

    /// Offers a span without blocking. When the queue is full the span
    /// is dropped and only counted; otherwise it joins the back of the
    /// queue.
    pub fn offer(&mut self, span: Span) -> (accepted: bool)
        requires
            old(self).wf(),
        ensures
            final(self).wf(),
            final(self).capacity() == old(self).capacity(),
            final(self).taken() == old(self).taken(),
            accepted == (old(self).pending().len() < old(self).capacity()),
            accepted ==> {
                &&& final(self).pending() == old(self).pending().push(span@)
                &&& final(self).accepted() == old(self).accepted() + 1
                &&& final(self).dropped() == old(self).dropped()
            },
            !accepted ==> {
                &&& final(self).pending() == old(self).pending()
                &&& final(self).accepted() == old(self).accepted()
                &&& final(self).dropped() == old(self).dropped() + 1
            },
    {
        if self.buf.len() < self.capacity {
            let ghost prior = self.buf@;
            self.buf.push(span);
            proof {
                self.accepted@ = self.accepted@ + 1;
                assert(self.buf@.map_values(|s: Span| s@) =~= prior.map_values(|s: Span| s@).push(
                    self.buf@.last()@,
                ));
            }
            true
        } else {
            proof {
                self.dropped@ = self.dropped@ + 1;
            }
            false
        }
    }

    /// Takes up to `chunk_size` spans from the front of the queue, in
    /// arrival order; fewer only if the queue runs out.
    pub fn take_chunk(&mut self, chunk_size: usize) -> (batch: Vec<Span>)
        requires
            old(self).wf(),
        ensures
            final(self).wf(),
            final(self).capacity() == old(self).capacity(),
            final(self).accepted() == old(self).accepted(),
            final(self).dropped() == old(self).dropped(),
            batch@.map_values(|s: Span| s@) == old(self).pending().take(
                vstd::math::min(chunk_size as int, old(self).pending().len() as int),
            ),
            final(self).pending() == old(self).pending().skip(
                vstd::math::min(chunk_size as int, old(self).pending().len() as int),
            ),
            final(self).taken() == old(self).taken() + vstd::math::min(
                chunk_size as int,
                old(self).pending().len() as int,
            ),
    {
        let ghost orig = self.buf@;
        let k = if chunk_size < self.buf.len() {
            chunk_size
        } else {
            self.buf.len()
        };
        let mut batch: Vec<Span> = Vec::new();
        let mut i: usize = 0;
        while i < k
            invariant
                i <= k,
                k <= orig.len(),
                self.buf@ == orig.skip(i as int),
                batch@ == orig.take(i as int),
                self.capacity == old(self).capacity,
                self.accepted == old(self).accepted,
                self.dropped == old(self).dropped,
                self.taken == old(self).taken,
            decreases k - i,
        {
            let s = self.buf.remove(0);
            batch.push(s);
            proof {
                assert(self.buf@ =~= orig.skip(i + 1));
                assert(batch@ =~= orig.take(i + 1));
            }
            i = i + 1;
        }
        proof {
            self.taken@ = self.taken@ + k as nat;
            assert(batch@.map_values(|s: Span| s@) =~= orig.take(k as int).map_values(
                |s: Span| s@,
            ));
            assert(orig.take(k as int).map_values(|s: Span| s@) =~= orig.map_values(
                |s: Span| s@,
            ).take(k as int));
            assert(self.buf@.map_values(|s: Span| s@) =~= orig.map_values(|s: Span| s@).skip(
                k as int,
            ));
        }
        batch
    }

    /// Everything the queue accepted has been taken once it is drained.
    pub proof fn lemma_drained(&self)
        requires
            self.wf(),
            self.pending().len() == 0,
        ensures
            self.accepted() == self.taken(),
    {
    }
}

} // verus!
