//! The request body for a batch of serialized spans.
//!
//! A batch travels as a JSON array: an opening bracket, the spans'
//! bytes joined by commas, and a closing bracket. [`SpanBuf`] walks that
//! array chunk by chunk without building it in one allocation;
//! [`SpanBody`] wraps it with the total length, for a client that wants
//! the content length up front.

use vstd::prelude::*;
use vstd::slice::slice_subrange;

verus! {

/// ASCII `'['`.
pub const OPEN: u8 = 91;

/// ASCII `']'`.
pub const CLOSE: u8 = 93;

/// ASCII `','`.
pub const COMMA: u8 = 44;

const OPEN_CHUNK: [u8; 1] = [OPEN];

const CLOSE_CHUNK: [u8; 1] = [CLOSE];

const COMMA_CHUNK: [u8; 1] = [COMMA];

const EMPTY_CHUNK: [u8; 0] = [];

#[derive(Clone, Copy, Debug)]
enum SpanBufState {
    Empty,
    Before { span: usize },
    Inside { span: usize, offset: usize },
    Closing,
    Terminal,
}

/// The bytes still to come from the separator before span `i` onward.
pub open spec fn from_before(spans: Seq<Seq<u8>>, i: int) -> Seq<u8>
    decreases spans.len() - i,
{
    if i < 0 || i >= spans.len() {
        seq![CLOSE]
    } else {
        (if i == 0 {
            seq![OPEN]
        } else {
            seq![COMMA]
        }) + spans[i] + (if i + 1 >= spans.len() {
            seq![CLOSE]
        } else {
            from_before(spans, i + 1)
        })
    }
}

/// The whole array: brackets around the spans joined by commas.
pub open spec fn full_bytes(spans: Seq<Seq<u8>>) -> Seq<u8> {
    if spans.len() == 0 {
        seq![OPEN, CLOSE]
    } else {
        from_before(spans, 0)
    }
}

/// The summed length of the spans from `i` onward.
pub open spec fn len_from(spans: Seq<Seq<u8>>, i: int) -> nat
    decreases spans.len() - i,
{
    if i < 0 || i >= spans.len() {
        0
    } else {
        spans[i].len() + len_from(spans, i + 1)
    }
}

/// A suffix of the array is its spans' bytes plus one separator per
/// span and the closing bracket.
proof fn lemma_from_before_len(spans: Seq<Seq<u8>>, i: int)
    requires
        0 <= i <= spans.len(),
    ensures
        from_before(spans, i).len() == len_from(spans, i) + (spans.len() - i) + 1,
    decreases spans.len() - i,
{
    if i < spans.len() {
        lemma_from_before_len(spans, i + 1);
    }
}

/// Skipping twice is skipping the sum.
proof fn lemma_skip_skip(s: Seq<u8>, a: int, b: int)
    requires
        0 <= a,
        0 <= b,
        a + b <= s.len(),
    ensures
        s.skip(a).skip(b) == s.skip(a + b),
{
    assert(s.skip(a).skip(b) =~= s.skip(a + b));
}

/// Later suffixes are shorter.
proof fn lemma_from_before_le(spans: Seq<Seq<u8>>, j: int, i: int)
    requires
        0 <= j <= i <= spans.len(),
    ensures
        from_before(spans, i).len() <= from_before(spans, j).len(),
    decreases i - j,
{
    if j < i {
        lemma_from_before_len(spans, j);
        lemma_from_before_len(spans, j + 1);
        lemma_from_before_le(spans, j + 1, i);
    }
}

/// Whether the array the spans would form fits a machine word, counted
/// without building it.
pub fn body_fits(docs: &Vec<Vec<u8>>) -> (r: bool)
    ensures
        r == (full_bytes(docs@.map_values(|s: Vec<u8>| s@)).len() <= usize::MAX),
{
    let ghost spans = docs@.map_values(|s: Vec<u8>| s@);
    let n = docs.len();
    if n == 0 {
        return true;
    }
    let mut tot: u128 = 1;
    let mut i: usize = n;
    while i > 0
        invariant
            spans == docs@.map_values(|s: Vec<u8>| s@),
            0 < n == spans.len(),
            i <= n,
            tot == from_before(spans, i as int).len(),
            tot <= usize::MAX,
        decreases i,
    {
        i = i - 1;
        let extra = docs[i].len();
        let new_tot: u128 = tot + 1 + extra as u128;
        proof {
            assert(spans[i as int] == docs@[i as int]@);
            assert(from_before(spans, i as int) =~= (if i == 0 {
                seq![OPEN]
            } else {
                seq![COMMA]
            }) + spans[i as int] + (if i + 1 >= spans.len() {
                seq![CLOSE]
            } else {
                from_before(spans, i as int + 1)
            }));
        }
        if new_tot > usize::MAX as u128 {
            proof {
                lemma_from_before_le(spans, 0, i as int);
            }
            return false;
        }
        tot = new_tot;
    }
    true
}

/// A `SpanBuf` yields the bytes of a span batch in contiguous chunks.
pub struct SpanBuf {
    state: SpanBufState,
    spans: Vec<Vec<u8>>,
}

impl SpanBuf {
    /// The serialized spans the buffer was built over.
    pub closed spec fn spec_spans(&self) -> Seq<Seq<u8>> {
        self.spans@.map_values(|s: Vec<u8>| s@)
    }

    /// The bytes not yet handed out.
    pub closed spec fn remaining_bytes(&self) -> Seq<u8> {
        let spans = self.spec_spans();
        match self.state {
            SpanBufState::Empty => seq![OPEN, CLOSE],
            SpanBufState::Before { span } => from_before(spans, span as int),
            SpanBufState::Inside { span, offset } => spans[span as int].skip(offset as int) + (
            if span as int + 1 >= spans.len() {
                seq![CLOSE]
            } else {
                from_before(spans, span as int + 1)
            }),
            SpanBufState::Closing => seq![CLOSE],
            SpanBufState::Terminal => Seq::empty(),
        }
    }

    /// The state indices are in range, every span is nonempty, and the
    /// remaining bytes fit a machine word.
    pub open spec fn wf(&self) -> bool {
        &&& self.states_wf()
        &&& self.remaining_bytes().len() <= usize::MAX
    }

    /// The state indices are in range and every span is nonempty.
    pub closed spec fn states_wf(&self) -> bool {
        let spans = self.spec_spans();
        &&& forall|i: int| 0 <= i < spans.len() ==> #[trigger] spans[i].len() > 0
        &&& match self.state {
            SpanBufState::Empty => spans.len() == 0,
            SpanBufState::Before { span } => 0 <= span < spans.len(),
            SpanBufState::Inside { span, offset } => 0 <= span < spans.len() && offset < spans[
                span as int
            ].len(),
            SpanBufState::Closing => true,
            SpanBufState::Terminal => true,
        }
    }

    /// Builds a buffer positioned at the start of the array.
    pub fn new(spans: Vec<Vec<u8>>) -> (r: SpanBuf)
        requires
            forall|i: int| 0 <= i < spans@.len() ==> #[trigger] spans@[i]@.len() > 0,
            full_bytes(spans@.map_values(|s: Vec<u8>| s@)).len() <= usize::MAX,
        ensures
            r.wf(),
            r.spec_spans() == spans@.map_values(|s: Vec<u8>| s@),
            r.remaining_bytes() == full_bytes(spans@.map_values(|s: Vec<u8>| s@)),
    {
        proof {
            let view = spans@.map_values(|s: Vec<u8>| s@);
            assert forall|i: int| 0 <= i < view.len() implies #[trigger] view[i].len() > 0 by {
                assert(spans@[i]@.len() > 0);
            }
        }
        if spans.is_empty() {
            SpanBuf { state: SpanBufState::Empty, spans }
        } else {
            SpanBuf { state: SpanBufState::Before { span: 0 }, spans }
        }
    }

    /// The length of the suffix of the array from the separator before
    /// span `from`, minus that one separator.
    fn suffix_len(&self, from: usize) -> (r: usize)
        requires
            self.wf(),
            from < self.spans@.len(),
            from_before(self.spec_spans(), from as int).len() <= usize::MAX,
        ensures
            1 + r == from_before(self.spec_spans(), from as int).len(),
    {
        let ghost spans = self.spec_spans();
        let n = self.spans.len();
        let mut total: usize = 1;
        let mut i: usize = n;
        while i > from
            invariant
                spans == self.spec_spans(),
                from < n == spans.len(),
                from <= i <= n,
                from_before(spans, from as int).len() <= usize::MAX,
                total == from_before(spans, i as int).len(),
            decreases i,
        {
            i = i - 1;
            proof {
                lemma_from_before_len(spans, i as int);
                lemma_from_before_len(spans, i as int + 1);
                lemma_from_before_le(spans, from as int, i as int);
            }
            let extra = self.spans[i].len();
            total = total + 1 + extra;
        }
        total - 1
    }

    /// How many bytes are still to come.
    pub fn remaining(&self) -> (r: usize)
        requires
            self.wf(),
        ensures
            r == self.remaining_bytes().len(),
    {
        let ghost spans = self.spec_spans();
        match self.state {
            SpanBufState::Empty => 2,
            SpanBufState::Before { span } => {
                let tail = self.suffix_len(span);
                1 + tail
            },
            SpanBufState::Inside { span, offset } => {
                let n = self.spans.len();
                let here = self.spans[span].len() - offset;
                if span + 1 < n {
                    proof {
                        assert(from_before(spans, span as int + 1).len()
                            <= self.remaining_bytes().len());
                    }
                    let tail = self.suffix_len(span + 1);
                    here + 1 + tail
                } else {
                    here + 1
                }
            },
            SpanBufState::Closing => 1,
            SpanBufState::Terminal => 0,
        }
    }

    /// The next contiguous chunk: a separator, the rest of the current
    /// span, or the closing bracket. Empty exactly when nothing remains.
    pub fn bytes(&self) -> (r: &[u8])
        requires
            self.wf(),
        ensures
            r@ == self.remaining_bytes().take(r@.len() as int),
            r@.len() == 0 <==> self.remaining_bytes().len() == 0,
    {
        let ghost spans = self.spec_spans();
        match self.state {
            SpanBufState::Empty => {
                let c: &[u8] = OPEN_CHUNK.as_slice();
                proof {
                    assert(c@ =~= self.remaining_bytes().take(1));
                }
                c
            },
            SpanBufState::Before { span } => {
                let c: &[u8] = if span == 0 {
                    OPEN_CHUNK.as_slice()
                } else {
                    COMMA_CHUNK.as_slice()
                };
                proof {
                    lemma_from_before_len(spans, span as int);
                    assert(c@ =~= self.remaining_bytes().take(1));
                }
                c
            },
            SpanBufState::Inside { span, offset } => {
                let v = &self.spans[span];
                let c = slice_subrange(v.as_slice(), offset, v.len());
                proof {
                    assert(c@ =~= self.remaining_bytes().take(c@.len() as int));
                }
                c
            },
            SpanBufState::Closing => {
                let c: &[u8] = CLOSE_CHUNK.as_slice();
                proof {
                    assert(c@ =~= self.remaining_bytes().take(1));
                }
                c
            },
            SpanBufState::Terminal => {
                let c: &[u8] = EMPTY_CHUNK.as_slice();
                proof {
                    assert(c@ =~= self.remaining_bytes().take(0));
                }
                c
            },
        }
    }

    /// Consumes `cnt` bytes from the front of the remaining bytes.
    pub fn advance(&mut self, cnt: usize)
        requires
            old(self).wf(),
            cnt <= old(self).remaining_bytes().len(),
        ensures
            final(self).wf(),
            final(self).spec_spans() == old(self).spec_spans(),
            final(self).remaining_bytes() == old(self).remaining_bytes().skip(cnt as int),
    {
        let ghost orig = old(self).remaining_bytes();
        let ghost spans = old(self).spec_spans();
        let mut remaining = cnt;
        while remaining > 0
            invariant
                self.wf(),
                self.spec_spans() == spans,
                remaining <= cnt,
                cnt <= orig.len(),
                remaining <= self.remaining_bytes().len(),
                self.remaining_bytes() == orig.skip(cnt - remaining),
            decreases remaining,
        {
            let ghost before = self.remaining_bytes();
            let (consumed, next) = match self.state {
                SpanBufState::Empty => (1, SpanBufState::Closing),
                SpanBufState::Before { span } => (1, SpanBufState::Inside { span, offset: 0 }),
                SpanBufState::Inside { span, offset } => {
                    let n = self.spans.len();
                    let len = self.spans[span].len();
                    if len - offset > remaining {
                        (remaining, SpanBufState::Inside { span, offset: offset + remaining })
                    } else if span + 1 == n {
                        (len - offset, SpanBufState::Closing)
                    } else {
                        (len - offset, SpanBufState::Before { span: span + 1 })
                    }
                },
                SpanBufState::Closing => (1, SpanBufState::Terminal),
                SpanBufState::Terminal => {
                    proof {
                        assert(false);
                    }
                    (1, SpanBufState::Terminal)
                },
            };
            self.state = next;
            proof {
                assert(consumed <= remaining);
                assert(self.remaining_bytes() =~= before.skip(consumed as int));
                lemma_skip_skip(orig, cnt - remaining, consumed as int);
                assert(cnt - remaining + consumed == cnt - (remaining - consumed));
            }
            remaining = remaining - consumed;
        }
        proof {
            assert(self.remaining_bytes() =~= orig.skip(cnt as int));
        }
    }
}

/// A `SpanBody` carries one batch of serialized spans together with the
/// total length of the array it forms on the wire.
pub struct SpanBody {
    len: u64,
    spans: Option<SpanBuf>,
}

impl SpanBody {
    /// The bytes the body will produce; empty once the buffer has been
    /// taken.
    pub closed spec fn data(&self) -> Seq<u8> {
        match self.spans {
            Some(ref b) => b.remaining_bytes(),
            None => Seq::empty(),
        }
    }

    /// The length stamped on the body.
    pub closed spec fn spec_len(&self) -> nat {
        self.len as nat
    }

    /// The buffer, if it has not been taken yet, is well formed.
    pub open spec fn wf(&self) -> bool {
        self.buf_wf() && self.spec_len() == self.data().len()
    }

    /// The held buffer's own well-formedness.
    pub closed spec fn buf_wf(&self) -> bool {
        match self.spans {
            Some(ref b) => b.wf(),
            None => true,
        }
    }

    /// Builds a body over serialized spans.
    ///
    /// Each span must be nonempty — serialized records always are — and
    /// the whole array must fit a machine word.
    pub fn new(vec: Vec<Vec<u8>>) -> (r: SpanBody)
        requires
            forall|i: int| 0 <= i < vec@.len() ==> #[trigger] vec@[i]@.len() > 0,
            full_bytes(vec@.map_values(|s: Vec<u8>| s@)).len() <= usize::MAX,
        ensures
            r.wf(),
            r.data() == full_bytes(vec@.map_values(|s: Vec<u8>| s@)),
            r.spec_len() == r.data().len(),
    {
        let ghost spans = vec@.map_values(|s: Vec<u8>| s@);
        proof {
            assert forall|i: int| 0 <= i < spans.len() implies #[trigger] spans[i].len() > 0 by {
                assert(vec@[i]@.len() > 0);
            }
        }
        let n = vec.len();
        let mut total: usize = 1;
        let mut i: usize = n;
        proof {
            if n > 0 {
                lemma_from_before_len(spans, n as int);
            }
        }
        while i > 0
            invariant
                spans == vec@.map_values(|s: Vec<u8>| s@),
                i <= n == spans.len(),
                n > 0 ==> total == from_before(spans, i as int).len(),
                n > 0 ==> from_before(spans, 0).len() <= usize::MAX,
                n == 0 ==> total == 1,
            decreases i,
        {
            i = i - 1;
            proof {
                lemma_from_before_len(spans, i as int);
                lemma_from_before_len(spans, i as int + 1);
                lemma_from_before_le(spans, 0, i as int);
            }
            let extra = vec[i].len();
            total = total + 1 + extra;
        }
        let len = if n == 0 {
            2u64
        } else {
            total as u64
        };
        let buf = SpanBuf::new(vec);
        SpanBody { len, spans: Some(buf) }
    }

    /// The exact number of bytes the body produces.
    pub fn content_length(&self) -> (r: Option<u64>)
        ensures
            r == Some(self.spec_len() as u64),
    {
        Some(self.len)
    }

    /// Whether the buffer has been handed out already.
    pub fn is_end_stream(&self) -> (r: bool)
        ensures
            r == self.taken_out(),
            r ==> self.data().len() == 0,
    {
        self.spans.is_none()
    }

    /// Whether `take_data` has already handed the buffer out.
    pub closed spec fn taken_out(&self) -> bool {
        self.spans is None
    }

    /// Hands out the whole buffer, once.
    pub fn take_data(&mut self) -> (r: Option<SpanBuf>)
        requires
            old(self).wf(),
        ensures
            match r {
                Some(b) => b.wf() && b.remaining_bytes() == old(self).data(),
                None => old(self).data().len() == 0,
            },
            final(self).data().len() == 0,
            final(self).spec_len() == old(self).spec_len(),
    {
        self.spans.take()
    }
}

} // verus!
