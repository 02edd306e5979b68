//! Streamed HTML serialization: an ordered buffer of output chunks built
//! during one render pass. Chunk order is document order; a deferred chunk
//! (async or out-of-order) resolves in place, in the slot reserved for it,
//! so output order never depends on the order in which deferred chunks
//! complete.

use crate::hook::ErrorBoundaryErrorHook;
use crate::hook::hook_preserved;
use crate::hook::lemma_hook_preserved_refl;
use crate::hook::lemma_hook_preserved_trans;
use crate::view::ViewNode;
use crate::view::sync_html;
use crate::view::throw_count;
use vstd::prelude::*;
use vstd::string::StrSliceExecFns;
use vstd::string::StringExecFns;

verus! {

/// One chunk of streamed output: resolved text, a deferred sub-sequence
/// that resolves in place, or a deferred sub-sequence that may complete
/// later than its following siblings but still occupies its original
/// position slot.
#[derive(Debug)]
pub enum StreamChunk {
    Sync(String),
    Async(Vec<StreamChunk>),
    OutOfOrder(Vec<StreamChunk>),
}

/// The text a chunk contributes to the final output, in document order.
pub open spec fn chunk_text(c: StreamChunk) -> Seq<char>
    decreases c, 0int,
{
    match c {
        StreamChunk::Sync(s) => s@,
        StreamChunk::Async(cs) => chunks_text_from(cs@, 0),
        StreamChunk::OutOfOrder(cs) => chunks_text_from(cs@, 0),
    }
}

/// The text of the chunks of `s` from index `i` on, concatenated in order.
pub open spec fn chunks_text_from(s: Seq<StreamChunk>, i: int) -> Seq<char>
    decreases s, s.len() - i,
{
    if i < 0 || i >= s.len() {
        Seq::empty()
    } else {
        chunk_text(s[i]) + chunks_text_from(s, i + 1)
    }
}

/// The text of a chunk sequence, concatenated in document order.
pub open spec fn chunks_text(s: Seq<StreamChunk>) -> Seq<char> {
    chunks_text_from(s, 0)
}

proof fn lemma_chunks_text_from_shift(a: Seq<StreamChunk>, b: Seq<StreamChunk>, j: int)
    requires
        0 <= j <= b.len(),
    ensures
        chunks_text_from(a + b, a.len() + j) == chunks_text_from(b, j),
    decreases b.len() - j,
{
    if j < b.len() {
        lemma_chunks_text_from_shift(a, b, j + 1);
        assert((a + b)[a.len() + j] == b[j]);
    }
}

proof fn lemma_chunks_text_from_concat(a: Seq<StreamChunk>, b: Seq<StreamChunk>, i: int)
    requires
        0 <= i <= a.len(),
    ensures
        chunks_text_from(a + b, i) == chunks_text_from(a, i) + chunks_text_from(b, 0),
    decreases a.len() - i,
{
    if i == a.len() {
        lemma_chunks_text_from_shift(a, b, 0);
        assert(chunks_text_from(a, i) =~= Seq::<char>::empty());
        assert(chunks_text_from(a + b, i) =~= chunks_text_from(a, i) + chunks_text_from(b, 0));
    } else {
        lemma_chunks_text_from_concat(a, b, i + 1);
        assert((a + b)[i] == a[i]);
        assert((chunk_text(a[i]) + chunks_text_from(a, i + 1)) + chunks_text_from(b, 0)
            =~= chunk_text(a[i]) + (chunks_text_from(a, i + 1) + chunks_text_from(b, 0)));
    }
}

/// Concatenating chunk sequences concatenates their texts.
pub proof fn lemma_chunks_text_concat(a: Seq<StreamChunk>, b: Seq<StreamChunk>)
    ensures
        chunks_text(a + b) == chunks_text(a) + chunks_text(b),
{
    lemma_chunks_text_from_concat(a, b, 0);
}

/// The text of a single chunk is that chunk's text.
pub proof fn lemma_chunks_text_singleton(c: StreamChunk)
    ensures
        chunks_text(seq![c]) == chunk_text(c),
{
    let s = seq![c];
    assert(chunks_text_from(s, 1) =~= Seq::<char>::empty());
    assert(chunks_text_from(s, 0) == chunk_text(s[0]) + chunks_text_from(s, 1));
    assert(chunk_text(c) + Seq::<char>::empty() =~= chunk_text(c));
}

/// Appending one chunk appends its text.
pub proof fn lemma_chunks_text_push(s: Seq<StreamChunk>, c: StreamChunk)
    ensures
        chunks_text(s.push(c)) == chunks_text(s) + chunk_text(c),
{
    assert(s.push(c) =~= s + seq![c]);
    lemma_chunks_text_concat(s, seq![c]);
    lemma_chunks_text_singleton(c);
}

/// What one pass of flattening makes of a chunk: resolved text passes
/// through, a deferred in-place chunk is spliced into its slot, and an
/// out-of-order chunk stays a single chunk at its original position,
/// carrying its resolved content for the final consumer.
pub open spec fn flatten_one(c: StreamChunk) -> Seq<StreamChunk> {
    match c {
        StreamChunk::Sync(s) => seq![StreamChunk::Sync(s)],
        StreamChunk::Async(cs) => cs@,
        StreamChunk::OutOfOrder(cs) => seq![StreamChunk::OutOfOrder(cs)],
    }
}

/// The result of flattening a chunk sequence in document order.
pub open spec fn flattened_chunks(s: Seq<StreamChunk>) -> Seq<StreamChunk>
    decreases s.len(),
{
    if s.len() == 0 {
        Seq::empty()
    } else {
        flattened_chunks(s.drop_last()) + flatten_one(s.last())
    }
}

/// Law: flattening resolves each deferred chunk in the position slot that
/// was reserved for it, so the output text always matches the document
/// order of the source, no matter in which time order the deferred chunks
/// completed.
pub proof fn lemma_flatten_preserves_order(s: Seq<StreamChunk>)
    ensures
        chunks_text(flattened_chunks(s)) == chunks_text(s),
    decreases s.len(),
{
    if s.len() > 0 {
        let dl = s.drop_last();
        let last = s.last();
        lemma_flatten_preserves_order(dl);
        lemma_chunks_text_concat(flattened_chunks(dl), flatten_one(last));
        assert(chunks_text(flatten_one(last)) == chunk_text(last)) by {
            match last {
                StreamChunk::Sync(t) => {
                    lemma_chunks_text_singleton(StreamChunk::Sync(t));
                },
                StreamChunk::Async(cs) => {},
                StreamChunk::OutOfOrder(cs) => {
                    lemma_chunks_text_singleton(StreamChunk::OutOfOrder(cs));
                },
            }
        }
        assert(s =~= dl + seq![last]);
        lemma_chunks_text_concat(dl, seq![last]);
        lemma_chunks_text_singleton(last);
    }
}

/// Flatten a chunk sequence once, in order: sync chunks pass through,
/// deferred in-place chunks are spliced into their slot, out-of-order
/// chunks stay single chunks at their original position.
pub fn flatten_chunks(chunks: Vec<StreamChunk>) -> (out: Vec<StreamChunk>)
    ensures
        out@ == flattened_chunks(chunks@),
        chunks_text(out@) == chunks_text(chunks@),
{
    let ghost orig = chunks@;
    let mut rest = chunks;
    let mut out: Vec<StreamChunk> = Vec::new();
    while rest.len() > 0
        invariant
            rest@.len() <= orig.len(),
            rest@ == orig.skip(orig.len() - rest@.len()),
            out@ == flattened_chunks(orig.take(orig.len() - rest@.len())),
        decreases rest@.len(),
    {
        let ghost k = orig.len() - rest@.len();
        let c = rest.remove(0);
        proof {
            assert(c == orig[k]);
            assert(rest@ =~= orig.skip(k + 1));
            assert(orig.take(k + 1).drop_last() =~= orig.take(k));
            assert(orig.take(k + 1).last() == orig[k]);
        }
        let ghost out_pre = out@;
        match c {
            StreamChunk::Sync(s) => {
                out.push(StreamChunk::Sync(s));
                proof {
                    assert(out@ =~= out_pre + flatten_one(orig[k]));
                }
            },
            StreamChunk::Async(mut cs) => {
                out.append(&mut cs);
            },
            StreamChunk::OutOfOrder(cs) => {
                out.push(StreamChunk::OutOfOrder(cs));
                proof {
                    assert(out@ =~= out_pre + flatten_one(orig[k]));
                }
            },
        }
    }
    proof {
        assert(orig.take(orig.len() as int) =~= orig);
        lemma_flatten_preserves_order(orig);
    }
    out
}

/// An ordered, append-only buffer of output chunks assembled during one
/// render pass. Trailing resolved text is coalesced in `sync_buf` until a
/// deferred chunk needs a slot of its own.
#[derive(Debug)]
pub struct StreamBuilder {
    pub chunks: Vec<StreamChunk>,
    pub sync_buf: String,
}

impl StreamBuilder {
    /// All the text this buffer holds, in document order.
    pub open spec fn text(&self) -> Seq<char> {
        chunks_text(self.chunks@) + self.sync_buf@
    }

    pub fn new() -> (r: Self)
        ensures
            r.chunks@ == Seq::<StreamChunk>::empty(),
            r.text() == Seq::<char>::empty(),
    {
        let r = StreamBuilder { chunks: Vec::new(), sync_buf: String::new() };
        proof {
            assert(r.text() =~= Seq::<char>::empty());
        }
        r
    }

    /// Append resolved text.
    pub fn push_sync(&mut self, text: &str)
        ensures
            final(self).text() == old(self).text() + text@,
            final(self).chunks == old(self).chunks,
    {
        self.sync_buf.append(text);
        proof {
            assert((chunks_text(self.chunks@) + old(self).sync_buf@) + text@ =~= chunks_text(
                self.chunks@,
            ) + (old(self).sync_buf@ + text@));
        }
    }

    /// Move any coalesced trailing text into a chunk of its own, so the
    /// next chunk gets its own position slot.
    fn flush_sync(&mut self)
        ensures
            final(self).text() == old(self).text(),
            final(self).sync_buf@ == Seq::<char>::empty(),
    {
        if self.sync_buf.as_str().unicode_len() > 0 {
            let mut taken = String::new();
            core::mem::swap(&mut taken, &mut self.sync_buf);
            let ghost pre = self.chunks@;
            self.chunks.push(StreamChunk::Sync(taken));
            proof {
                lemma_chunks_text_push(pre, StreamChunk::Sync(taken));
                assert(self.text() =~= old(self).text());
            }
        } else {
            proof {
                assert(self.sync_buf@.len() == 0);
                assert(self.sync_buf@ =~= Seq::<char>::empty());
                assert(self.text() =~= old(self).text());
            }
        }
    }

    /// Reserve the next position slot for a deferred sub-sequence that
    /// resolves in place.
    pub fn push_async(&mut self, chunks: Vec<StreamChunk>)
        ensures
            final(self).text() == old(self).text() + chunks_text(chunks@),
    {
        self.flush_sync();
        let ghost pre = self.chunks@;
        self.chunks.push(StreamChunk::Async(chunks));
        proof {
            lemma_chunks_text_push(pre, StreamChunk::Async(chunks));
            assert(self.text() =~= old(self).text() + chunks_text(chunks@));
        }
    }

    /// Reserve the next position slot for a deferred sub-sequence that may
    /// complete later than its following siblings but still occupies this
    /// slot.
    pub fn push_out_of_order(&mut self, chunks: Vec<StreamChunk>)
        ensures
            final(self).text() == old(self).text() + chunks_text(chunks@),
    {
        self.flush_sync();
        let ghost pre = self.chunks@;
        self.chunks.push(StreamChunk::OutOfOrder(chunks));
        proof {
            lemma_chunks_text_push(pre, StreamChunk::OutOfOrder(chunks));
            assert(self.text() =~= old(self).text() + chunks_text(chunks@));
        }
    }

    /// Concatenate another buffer's chunks after this one's, preserving
    /// relative order.
    pub fn append(&mut self, other: StreamBuilder)
        ensures
            final(self).text() == old(self).text() + other.text(),
    {
        self.flush_sync();
        let StreamBuilder { mut chunks, sync_buf } = other;
        let ghost pre = self.chunks@;
        let ghost added = chunks@;
        self.chunks.append(&mut chunks);
        self.sync_buf = sync_buf;
        proof {
            lemma_chunks_text_concat(pre, added);
            assert(self.text() =~= old(self).text() + other.text());
        }
    }

    /// Drain this buffer for final flattening.
    pub fn take_chunks(&mut self) -> (out: Vec<StreamChunk>)
        ensures
            chunks_text(out@) == old(self).text(),
            final(self).text() == Seq::<char>::empty(),
            final(self).chunks@ == Seq::<StreamChunk>::empty(),
    {
        self.flush_sync();
        let mut out: Vec<StreamChunk> = Vec::new();
        core::mem::swap(&mut out, &mut self.chunks);
        proof {
            assert(self.text() =~= Seq::<char>::empty());
            assert(chunks_text(out@) =~= old(self).text());
        }
        out
    }
}

impl ViewNode {
    /// Serialize this view into an async-capable buffer: plain content goes
    /// into the current slot, and each suspended sub-view gets a deferred
    /// slot of its own (an out-of-order slot when `out_of_order` streaming
    /// was requested). Any error thrown during serialization lands in the
    /// hook's registry as a side effect.
    pub fn to_html_async_with_buf(
        &self,
        hook: &mut ErrorBoundaryErrorHook,
        buf: &mut StreamBuilder,
        out_of_order: bool,
    )
        ensures
            final(buf).text() == old(buf).text() + sync_html(*self),
            final(hook).errors@.is_empty() <==> (old(hook).errors@.is_empty() && throw_count(*self)
                == 0),
            final(hook).id == old(hook).id,
            final(hook).shared_context is Some <==> old(hook).shared_context is Some,
            hook_preserved(*old(hook), *final(hook)),
            forall|k: u64|
                old(hook).errors@.contains_key(k) ==> final(hook).errors@.contains_key(k),
        decreases *self,
    {
        match self {
            ViewNode::Nothing => {
                proof {
                    lemma_hook_preserved_refl(*hook);
                    assert(old(buf).text() + sync_html(*self) =~= old(buf).text());
                }
            },
            ViewNode::Text(s) => {
                buf.push_sync(s.as_str());
                proof {
                    lemma_hook_preserved_refl(*hook);
                }
            },
            ViewNode::Throw(e) => {
                let _key = hook.throw(e.clone());
                proof {
                    assert(old(buf).text() + sync_html(*self) =~= old(buf).text());
                }
            },
            ViewNode::Pair(a, b) => {
                (&**a).to_html_async_with_buf(hook, buf, out_of_order);
                let ghost mid = *hook;
                (&**b).to_html_async_with_buf(hook, buf, out_of_order);
                proof {
                    lemma_hook_preserved_trans(*old(hook), mid, *hook);
                    assert((old(buf).text() + sync_html(**a)) + sync_html(**b) =~= old(buf).text()
                        + (sync_html(**a) + sync_html(**b)));
                }
            },
            ViewNode::Suspend(c) => {
                let mut inner = StreamBuilder::new();
                (&**c).to_html_async_with_buf(hook, &mut inner, out_of_order);
                let chunks = inner.take_chunks();
                if out_of_order {
                    buf.push_out_of_order(chunks);
                } else {
                    buf.push_async(chunks);
                }
                proof {
                    assert(Seq::<char>::empty() + sync_html(**c) =~= sync_html(**c));
                }
            },
        }
    }
}

} // verus!
