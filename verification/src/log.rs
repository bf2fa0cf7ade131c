//! Interrupt-safe diagnostic logger.
//!
//! Log frames are produced through a streaming frame encoder; the encoded
//! wire bytes are buffered, chunk by chunk, in a fixed-capacity
//! multi-producer/multi-consumer queue and drained asynchronously by an
//! external consumer.
//!
//! The frame protocol is strict: `acquire` opens the one frame the whole
//! process may have open, `write` feeds it, `release` closes it. Opening a
//! frame while one is open is a fatal programming error, not a recoverable
//! condition: the contracts exclude it, and the surrounding firmware tests
//! `taken()` and aborts before ever reaching that state. The whole frame
//! runs inside one critical section, entered and left by the surrounding
//! firmware around `acquire`/`release`.
//!
//! Losing data is tolerated but never corrupting it: when a chunk cannot be
//! queued, the sticky `overflow` flag silently drops the rest of the frame,
//! and `release` then drains the queue completely, so a consumer never sees
//! a partial frame.

use vstd::prelude::*;

verus! {

/// Capacity of one queued chunk, in bytes.
pub const MAX_BYTES: usize = 128;

#[verifier::external_type_specification]
#[verifier::external_body]
pub struct ExEncoder(defmt::Encoder);

#[verifier::external_type_specification]
#[verifier::external_body]
#[verifier::reject_recursive_types(T)]
pub struct ExMpMcQueue<T, const N: usize>(heapless::mpmc::MpMcQueue<T, N>);

/// The chunks buffered in the queue, head first.
pub uninterp spec fn queue_chunks(q: heapless::mpmc::MpMcQueue<Vec<u8>, 64>) -> Seq<Seq<u8>>;

/// Relies on heapless::mpmc::MpMcQueue::new: a freshly created queue is
/// empty.
#[verifier::external_body]
fn queue_new() -> (q: heapless::mpmc::MpMcQueue<Vec<u8>, 64>)
    ensures
        queue_chunks(q) == Seq::<Seq<u8>>::empty(),
{
    heapless::mpmc::MpMcQueue::new()
}

/// Relies on heapless::mpmc::MpMcQueue::enqueue: appends the item at the
/// tail, handing it back exactly when the queue already holds its capacity
/// of 64 items.
#[verifier::external_body]
fn queue_enqueue(q: &mut heapless::mpmc::MpMcQueue<Vec<u8>, 64>, chunk: Vec<u8>) -> (ok: bool)
    ensures
        ok == (queue_chunks(*old(q)).len() < 64),
        ok ==> queue_chunks(*final(q)) == queue_chunks(*old(q)).push(chunk@),
        !ok ==> queue_chunks(*final(q)) == queue_chunks(*old(q)),
{
    q.enqueue(chunk).is_ok()
}

/// Relies on heapless::mpmc::MpMcQueue::dequeue: removes and returns the
/// item at the head, or returns nothing exactly when the queue is empty.
#[verifier::external_body]
fn queue_dequeue(q: &mut heapless::mpmc::MpMcQueue<Vec<u8>, 64>) -> (r: Option<Vec<u8>>)
    ensures
        match r {
            Option::Some(chunk) => queue_chunks(*old(q)).len() > 0 && chunk@ == queue_chunks(
                *old(q),
            )[0] && queue_chunks(*final(q)) == queue_chunks(*old(q)).drop_first(),
            Option::None => queue_chunks(*old(q)).len() == 0 && queue_chunks(*final(q))
                == queue_chunks(*old(q)),
        },
{
    q.dequeue()
}

/// Relies on defmt::Encoder::new: creates a streaming frame encoder.
#[verifier::external_body]
fn encoder_new() -> defmt::Encoder {
    defmt::Encoder::new()
}

/// Relies on defmt::Encoder::start_frame: begins a frame and hands the
/// encoded wire bytes to a callback, zero or more times; the callback here
/// only collects them, in order.
#[verifier::external_body]
fn encoder_start_frame(e: &mut defmt::Encoder) -> (chunks: Vec<Vec<u8>>)
{
    let mut out: Vec<Vec<u8>> = Vec::new();
    e.start_frame(|b: &[u8]| out.push(b.to_vec()));
    out
}

/// Relies on defmt::Encoder::write: encodes part of the open frame's data
/// and hands the wire bytes to a callback, zero or more times; the callback
/// here only collects them, in order.
#[verifier::external_body]
fn encoder_write(e: &mut defmt::Encoder, data: &[u8]) -> (chunks: Vec<Vec<u8>>)
{
    let mut out: Vec<Vec<u8>> = Vec::new();
    e.write(data, |b: &[u8]| out.push(b.to_vec()));
    out
}

/// Relies on defmt::Encoder::end_frame: flushes the open frame, closing it
/// with a frame separator, and hands the wire bytes to a callback, zero or
/// more times; the callback here only collects them, in order.
#[verifier::external_body]
fn encoder_end_frame(e: &mut defmt::Encoder) -> (chunks: Vec<Vec<u8>>)
{
    let mut out: Vec<Vec<u8>> = Vec::new();
    e.end_frame(|b: &[u8]| out.push(b.to_vec()));
    out
}

/// The observable logger state: whether a frame is open, whether the open
/// frame has lost data, and the chunks buffered for the consumer.
pub struct LogState {
    pub taken: bool,
    pub overflow: bool,
    pub chunks: Seq<Seq<u8>>,
}

/// How one encoded chunk changes the logger state: dropped silently once
/// overflow is set; otherwise queued, unless it exceeds the chunk capacity
/// or the queue is full, either of which sets the sticky overflow flag.
pub open spec fn chunk_step(s: LogState, c: Seq<u8>) -> LogState {
    if s.overflow {
        s
    } else if c.len() > MAX_BYTES {
        LogState { overflow: true, ..s }
    } else if s.chunks.len() >= 64 {
        LogState { overflow: true, ..s }
    } else {
        LogState { chunks: s.chunks.push(c), ..s }
    }
}

/// The state at the instant a frame has just been opened: as before, but
/// with the frame-open flag set.
pub open spec fn opened(s: LogState) -> LogState {
    LogState { taken: true, ..s }
}

/// The logger state after a whole sequence of encoded chunks, in order.
pub open spec fn chunks_fold(s: LogState, cs: Seq<Seq<u8>>) -> LogState
    decreases cs.len(),
{
    if cs.len() == 0 {
        s
    } else {
        chunk_step(chunks_fold(s, cs.drop_last()), cs.last())
    }
}

/// Feeding chunks never changes the frame-open flag.
pub proof fn lemma_fold_taken(s: LogState, cs: Seq<Seq<u8>>)
    ensures
        chunks_fold(s, cs).taken == s.taken,
    decreases cs.len(),
{
    if cs.len() == 0 {
    } else {
        lemma_fold_taken(s, cs.drop_last());
    }
}

/// Overflow is sticky: once data has been lost within a frame, every further
/// chunk of that frame is dropped and the state no longer moves.
pub proof fn lemma_fold_sticky(s: LogState, cs: Seq<Seq<u8>>)
    requires
        s.overflow,
    ensures
        chunks_fold(s, cs) == s,
    decreases cs.len(),
{
    if cs.len() == 0 {
    } else {
        lemma_fold_sticky(s, cs.drop_last());
    }
}

/// Lossless-transport law: when a frame's chunks go through without setting
/// overflow, every one of them was appended to the queue, in order, after
/// the queue's prior contents — nothing reordered, dropped or altered.
pub proof fn lemma_fold_no_overflow(s: LogState, cs: Seq<Seq<u8>>)
    requires
        !chunks_fold(s, cs).overflow,
    ensures
        !s.overflow,
        chunks_fold(s, cs).chunks == s.chunks + cs,
    decreases cs.len(),
{
    if cs.len() == 0 {
        assert(s.chunks + cs =~= s.chunks);
    } else {
        let mid = chunks_fold(s, cs.drop_last());
        assert(!mid.overflow);
        lemma_fold_no_overflow(s, cs.drop_last());
        assert((s.chunks + cs.drop_last()).push(cs.last()) =~= s.chunks + cs);
    }
}

/// The process-wide logger: the frame-open flag, the sticky overflow flag,
/// the chunk queue shared with the external consumer, and the streaming
/// frame encoder.
pub struct BufferLogger {
    taken: bool,
    overflow: bool,
    queue: heapless::mpmc::MpMcQueue<Vec<u8>, 64>,
    encoder: defmt::Encoder,
}

impl BufferLogger {
    /// The observable state: flags and buffered chunks.
    pub closed spec fn view(&self) -> LogState {
        LogState { taken: self.taken, overflow: self.overflow, chunks: queue_chunks(self.queue) }
    }

    /// A fresh logger: no frame open, no loss recorded, empty queue.
    pub fn new() -> (l: Self)
        ensures
            !l.view().taken,
            !l.view().overflow,
            l.view().chunks == Seq::<Seq<u8>>::empty(),
    {
        BufferLogger { taken: false, overflow: false, queue: queue_new(), encoder: encoder_new() }
    }

    /// Whether a frame is open. The surrounding firmware tests this inside
    /// the critical section and aborts on reentrant acquisition.
    pub fn taken(&self) -> (t: bool)
        ensures
            t == self.view().taken,
    {
        self.taken
    }

    /// Whether the open frame has lost data.
    pub fn overflowed(&self) -> (o: bool)
        ensures
            o == self.view().overflow,
    {
        self.overflow
    }

    /// Buffers one encoded chunk for the consumer, exactly as `chunk_step`
    /// says: dropped silently if the frame already overflowed; recorded as
    /// overflow if it exceeds the chunk capacity or the queue is full.
    pub fn write_to_queue(&mut self, bytes: &[u8])
        ensures
            final(self).view() == chunk_step(old(self).view(), bytes@),
    {
        if self.overflow {
            return ;
        }
        if bytes.len() > MAX_BYTES {
            self.overflow = true;
            return ;
        }
        let chunk: Vec<u8> = vstd::slice::slice_to_vec(bytes);
        let ok = queue_enqueue(&mut self.queue, chunk);
        if !ok {
            self.overflow = true;
        }
    }

    /// Buffers a sequence of encoded chunks, in order, exactly as
    /// `chunks_fold` says.
    pub fn push_chunks(&mut self, chunks: &Vec<Vec<u8>>)
        ensures
            final(self).view() == chunks_fold(old(self).view(), chunks.deep_view()),
    {
        let mut i: usize = 0;
        while i < chunks.len()
            invariant
                i <= chunks.len(),
                self.view() == chunks_fold(old(self).view(), chunks.deep_view().take(i as int)),
            decreases chunks.len() - i,
        {
            proof {
                assert(chunks.deep_view().take(i as int + 1).drop_last() =~= chunks.deep_view().take(
                    i as int,
                ));
                assert(chunks.deep_view().take(i as int + 1).last() == chunks.deep_view()[i as int]);
                assert(chunks.deep_view()[i as int] =~= chunks@[i as int]@);
            }
            let chunk: &Vec<u8> = &chunks[i];
            self.write_to_queue(chunk.as_slice());
            i = i + 1;
        }
        proof {
            assert(chunks.deep_view().take(chunks.deep_view().len() as int) =~= chunks.deep_view());
        }
    }

    /// Opens the process's one log frame and starts the streaming encoder.
    /// A frame must not already be open: reentrant acquisition is a fatal
    /// programming error, excluded here and turned into an abort by the
    /// surrounding firmware's `taken()` check.
    pub fn acquire(&mut self)
        requires
            !old(self).view().taken,
        ensures
            final(self).view().taken,
            (exists|cs: Seq<Seq<u8>>|
                final(self).view() == #[trigger] chunks_fold(opened(old(self).view()), cs)),
            old(self).view().overflow ==> final(self).view() == opened(old(self).view()),
            !final(self).view().overflow ==> !old(self).view().overflow
                && old(self).view().chunks.is_prefix_of(final(self).view().chunks),
    {
        self.taken = true;
        let ghost s1 = opened(old(self).view());
        let chunks = encoder_start_frame(&mut self.encoder);
        self.push_chunks(&chunks);
        proof {
            assert(self.view() == chunks_fold(opened(old(self).view()), chunks.deep_view()));
            lemma_fold_taken(s1, chunks.deep_view());
            if !self.view().overflow {
                lemma_fold_no_overflow(s1, chunks.deep_view());
                assert(s1.chunks =~= self.view().chunks.subrange(0, s1.chunks.len() as int));
            }
            if old(self).view().overflow {
                lemma_fold_sticky(s1, chunks.deep_view());
            }
        }
    }

    /// Feeds bytes into the open frame. The encoder hands back the encoded
    /// wire chunks, which are buffered in order; once the frame has
    /// overflowed, the state no longer moves.
    pub fn write(&mut self, bytes: &[u8])
        requires
            old(self).view().taken,
        ensures
            final(self).view().taken,
            (exists|cs: Seq<Seq<u8>>|
                final(self).view() == #[trigger] chunks_fold(old(self).view(), cs)),
            old(self).view().overflow ==> final(self).view() == old(self).view(),
            !final(self).view().overflow ==> !old(self).view().overflow
                && old(self).view().chunks.is_prefix_of(final(self).view().chunks),
    {
        let chunks = encoder_write(&mut self.encoder, bytes);
        self.push_chunks(&chunks);
        proof {
            lemma_fold_taken(old(self).view(), chunks.deep_view());
            if old(self).view().overflow {
                lemma_fold_sticky(old(self).view(), chunks.deep_view());
            }
            if !self.view().overflow {
                lemma_fold_no_overflow(old(self).view(), chunks.deep_view());
                assert(old(self).view().chunks =~= self.view().chunks.subrange(
                    0,
                    old(self).view().chunks.len() as int,
                ));
            }
        }
    }

    /// Closes the open frame: flushes the encoder, and if any data was lost
    /// during the frame, drains the queue completely, so the consumer sees
    /// either the whole frame or none of it. Clears both the overflow and
    /// the frame-open flag. Signalling the consumer and leaving the critical
    /// section are the surrounding firmware's part, performed right after.
    pub fn release(&mut self)
        requires
            old(self).view().taken,
        ensures
            !final(self).view().taken,
            !final(self).view().overflow,
            old(self).view().overflow ==> final(self).view().chunks == Seq::<Seq<u8>>::empty(),
            (exists|cs: Seq<Seq<u8>>|
                final(self).view().chunks == (if (#[trigger] chunks_fold(
                    old(self).view(),
                    cs,
                )).overflow {
                    Seq::<Seq<u8>>::empty()
                } else {
                    chunks_fold(old(self).view(), cs).chunks
                })),
            old(self).view().chunks.is_prefix_of(final(self).view().chunks)
                || final(self).view().chunks == Seq::<Seq<u8>>::empty(),
    {
        let chunks = encoder_end_frame(&mut self.encoder);
        self.push_chunks(&chunks);
        proof {
            assert(self.view() == chunks_fold(old(self).view(), chunks.deep_view()));
            lemma_fold_taken(old(self).view(), chunks.deep_view());
            if old(self).view().overflow {
                lemma_fold_sticky(old(self).view(), chunks.deep_view());
            }
            if !self.view().overflow {
                lemma_fold_no_overflow(old(self).view(), chunks.deep_view());
                assert(old(self).view().chunks =~= self.view().chunks.subrange(
                    0,
                    old(self).view().chunks.len() as int,
                ));
            }
        }
        if self.overflow {
            self.overflow = false;
            let mut drained = queue_dequeue(&mut self.queue);
            while drained.is_some()
                invariant
                    !self.overflow,
                    self.taken == old(self).view().taken,
                    drained.is_none() ==> queue_chunks(self.queue).len() == 0,
                decreases queue_chunks(self.queue).len() + if drained.is_some() {
                    1int
                } else {
                    0int
                },
            {
                drained = queue_dequeue(&mut self.queue);
            }
            proof {
                assert(queue_chunks(self.queue) =~= Seq::<Seq<u8>>::empty());
            }
        }
        self.taken = false;
    }

    /// Nothing to do: the queue itself is the buffering boundary, and the
    /// external consumer drains it asynchronously.
    pub fn flush(&mut self)
        ensures
            final(self).view() == old(self).view(),
    {
    }

    /// The queue the external consumer drains; chunks appear in it in the
    /// order they were pushed.
    pub fn get_queue(&self) -> (q: &heapless::mpmc::MpMcQueue<Vec<u8>, 64>)
        ensures
            queue_chunks(*q) == self.view().chunks,
    {
        &self.queue
    }

    /// Removes and returns the chunk at the head of the queue, as the
    /// external consumer does.
    pub fn pop_chunk(&mut self) -> (r: Option<Vec<u8>>)
        ensures
            final(self).view().taken == old(self).view().taken,
            final(self).view().overflow == old(self).view().overflow,
            match r {
                Option::Some(chunk) => old(self).view().chunks.len() > 0 && chunk@ == old(
                    self,
                ).view().chunks[0] && final(self).view().chunks == old(
                    self,
                ).view().chunks.drop_first(),
                Option::None => old(self).view().chunks.len() == 0 && final(self).view() == old(
                    self,
                ).view(),
            },
    {
        queue_dequeue(&mut self.queue)
    }
}

} // verus!
