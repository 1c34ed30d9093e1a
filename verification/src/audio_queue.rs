//! Synchronization queue: per-stream buffering and alignment onto the shared
//! queue clock.
//!
//! Every registered input owns a FIFO of normalized sample batches, the
//! receiving end of its delivery channel, a buffering/normalization stage, a
//! `required` flag and an optional fixed offset. The queue is driven
//! synchronously by one scheduler thread; it never blocks on a channel — it
//! takes what a channel currently offers and treats "nothing available" as a
//! valid outcome that defers readiness.
//!
//! Instants (`queue_start`, `now`) count nanoseconds since the process
//! epoch; durations and timestamps count nanoseconds.

use vstd::prelude::*;

use crate::channel;
use crate::input_processor::{processor_step, InputProcessor, ProcessorModel};
use crate::samples::{
    batch_end, batch_views, batch_wf, batches_wf, event_view, AudioSamplesBatch, AudioSamplesSet,
    BatchModel, PipelineEvent, PipelineEventModel,
};
use crate::types::InputId;

verus! {

/// Options a stream is registered with.
#[derive(Clone, Copy, Debug, PartialEq, Eq, Structural)]
pub struct InputOptions {
    /// A required stream blocks the shared timeline until it is ready or at
    /// end-of-stream; an optional one contributes opportunistically.
    pub required: bool,
    /// Fixed duration from queue-clock zero at which this stream's content
    /// should appear; `None` resolves the mapping from the stream's start
    /// time instead.
    pub offset: Option<u64>,
}

/// Buffer state of one registered input stream.
pub struct AudioQueueInput {
    /// Identity of the stream this buffer belongs to.
    pub input_id: InputId,
    /// Normalized batches not yet consumed, ordered by start timestamp and
    /// non-overlapping; timestamps are stream-local (zero at stream start).
    pub queue: Vec<AudioSamplesBatch>,
    /// Receiving end of the stream's delivery channel; opaque to contracts.
    pub receiver: crossbeam_channel::Receiver<PipelineEvent<AudioSamplesBatch>>,
    /// Buffering/normalization stage all channel data passes through.
    pub input_samples_processor: InputProcessor,
    /// Whether the shared timeline must wait for this stream.
    pub required: bool,
    /// Fixed offset of the stream relative to queue-clock zero, if any.
    pub offset: Option<u64>,
}

/// The stream's start time as the normalization stage knows it.
pub open spec fn start_of(inp: AudioQueueInput) -> Option<u64> {
    match inp.input_samples_processor.start {
        Some(st) => Some(st.start_time),
        None => None,
    }
}

/// Inverse timestamp reconciliation: the stream-local timestamp that is
/// presented at queue-clock timestamp `queue_pts`, or `None` when that
/// instant precedes the stream (or the stream's mapping is not determined
/// yet).
pub open spec fn input_pts_spec(
    offset: Option<u64>,
    start_time: Option<u64>,
    queue_start: u64,
    queue_pts: u64,
) -> Option<u64> {
    match offset {
        Some(o) => if queue_pts >= o {
            Some((queue_pts - o) as u64)
        } else {
            None
        },
        None => match start_time {
            Some(s) => if queue_start + queue_pts >= s {
                Some((queue_start + queue_pts - s) as u64)
            } else {
                None
            },
            None => None,
        },
    }
}

/// Forward timestamp reconciliation: the queue-clock timestamp at which
/// stream-local timestamp `input_pts` is presented (saturating at queue-clock
/// zero for content from before the queue started).
pub open spec fn queue_pts_spec(
    offset: Option<u64>,
    start_time: u64,
    queue_start: u64,
    input_pts: int,
) -> int {
    match offset {
        Some(o) => input_pts + o,
        None => if start_time + input_pts >= queue_start {
            start_time + input_pts - queue_start
        } else {
            0
        },
    }
}

/// Well-formed input buffer: the FIFO is ordered and non-overlapping, and a
/// stream whose start is undetermined has released nothing into it.
pub open spec fn input_wf(inp: AudioQueueInput) -> bool {
    &&& batches_wf(batch_views(inp.queue@))
    &&& (inp.input_samples_processor.start is None ==> inp.queue@.len() == 0)
}

/// The registration-time configuration of two buffer states agrees.
pub open spec fn same_input_config(a: AudioQueueInput, b: AudioQueueInput) -> bool {
    &&& a.input_id == b.input_id
    &&& a.required == b.required
    &&& a.offset == b.offset
    &&& a.input_samples_processor.buffer_duration == b.input_samples_processor.buffer_duration
}

/// How filling from the channel may move a buffer state: configuration kept,
/// batches only appended, start time and end-of-stream only ever discovered,
/// never forgotten.
pub open spec fn input_progressed(pre: AudioQueueInput, post: AudioQueueInput) -> bool {
    &&& same_input_config(pre, post)
    &&& batch_views(pre.queue@).is_prefix_of(batch_views(post.queue@))
    &&& (pre.input_samples_processor.start matches Some(st)
        ==> post.input_samples_processor.start == Some(st))
    &&& (pre.input_samples_processor.eos_received ==> post.input_samples_processor.eos_received)
}

/// Whether a buffer state can already answer for a range starting at
/// `range_start`: the stream is at end-of-stream, or enough data is buffered
/// past the needed timestamp, or the stream provably contributes nothing at
/// `range_start` (fixed offset still in the future, or — for an optional
/// stream — still buffering).
pub open spec fn input_ready_spec(inp: AudioQueueInput, range_start: u64, queue_start: u64) -> bool {
    if inp.input_samples_processor.eos_received {
        true
    } else {
        match input_pts_spec(inp.offset, start_of(inp), queue_start, range_start) {
            Some(p) => {
                let q = batch_views(inp.queue@);
                q.len() > 0 && batch_end(q.last()) > p
            },
            None => match inp.offset {
                Some(_) => true,
                None => inp.input_samples_processor.start is Some || !inp.required,
            },
        }
    }
}

/// A batch overlapping the requested range (all in stream-local timestamps):
/// it starts before the range ends and ends after the range starts.
pub open spec fn batch_overlaps(b: BatchModel, s_in: int, e_in: int) -> bool {
    b.start_pts < e_in && batch_end(b) > s_in
}

/// Start timestamp of a batch rewritten onto the queue clock.
pub open spec fn rebased_start(
    b: BatchModel,
    offset: Option<u64>,
    start_time: int,
    queue_start: u64,
) -> int {
    match offset {
        Some(o) => b.start_pts + o,
        None => if start_time + b.start_pts >= queue_start {
            start_time + b.start_pts - queue_start
        } else {
            0
        },
    }
}

/// A batch rewritten onto the queue clock, its duration clamped so the end
/// timestamp still fits the timestamp type.
pub open spec fn rebased_batch(
    b: BatchModel,
    offset: Option<u64>,
    start_time: int,
    queue_start: u64,
) -> BatchModel {
    let s = rebased_start(b, offset, start_time, queue_start);
    BatchModel {
        start_pts: s,
        duration: if b.duration > u64::MAX - s {
            u64::MAX - s
        } else {
            b.duration
        },
        samples: b.samples,
    }
}

/// What one pop returns from a FIFO holding `q`: every batch overlapping the
/// requested range (given stream-locally as `[s_in, e_in)`), in order,
/// rewritten onto the queue clock.
pub open spec fn pop_result_spec(
    q: Seq<BatchModel>,
    s_in: int,
    e_in: int,
    offset: Option<u64>,
    start_time: int,
    queue_start: u64,
) -> Seq<BatchModel>
    decreases q.len(),
{
    if q.len() == 0 {
        Seq::empty()
    } else {
        let rest = pop_result_spec(q.drop_first(), s_in, e_in, offset, start_time, queue_start);
        if batch_overlaps(q[0], s_in, e_in) {
            seq![rebased_batch(q[0], offset, start_time, queue_start)] + rest
        } else {
            rest
        }
    }
}

/// A FIFO after evicting, from the front, every batch that ends before the
/// stream-local cutoff.
pub open spec fn evicted(q: Seq<BatchModel>, cutoff: int) -> Seq<BatchModel>
    decreases q.len(),
{
    if q.len() > 0 && batch_end(q[0]) < cutoff {
        evicted(q.drop_first(), cutoff)
    } else {
        q
    }
}

/// A FIFO after appending released batches in order: each batch is appended
/// at the back if it starts no earlier than the FIFO currently ends, and is
/// dropped otherwise (content that would overlap or precede already-buffered
/// content).
pub open spec fn append_ordered(q: Seq<BatchModel>, bs: Seq<BatchModel>) -> Seq<BatchModel>
    decreases bs.len(),
{
    if bs.len() == 0 {
        q
    } else {
        let q2 = if q.len() == 0 || batch_end(q.last()) <= bs[0].start_pts {
            q.push(bs[0])
        } else {
            q
        };
        append_ordered(q2, bs.drop_first())
    }
}

/// How a run of delivery-channel events moves one input's normalization
/// stage and FIFO: each event steps the stage and appends, in order, what it
/// releases.
pub open spec fn enqueue_fold(
    proc: ProcessorModel,
    queue: Seq<BatchModel>,
    now: u64,
    evs: Seq<PipelineEventModel>,
) -> (ProcessorModel, Seq<BatchModel>)
    decreases evs.len(),
{
    if evs.len() == 0 {
        (proc, queue)
    } else {
        let step = processor_step(proc, now, evs[0]);
        enqueue_fold(step.0, append_ordered(queue, step.1), now, evs.drop_first())
    }
}

/// Folding one more event is stepping the fold's result once.
proof fn lemma_enqueue_fold_push(
    proc: ProcessorModel,
    queue: Seq<BatchModel>,
    now: u64,
    evs: Seq<PipelineEventModel>,
    e: PipelineEventModel,
)
    ensures
        enqueue_fold(proc, queue, now, evs.push(e)).0 == processor_step(
            enqueue_fold(proc, queue, now, evs).0,
            now,
            e,
        ).0,
        enqueue_fold(proc, queue, now, evs.push(e)).1 == append_ordered(
            enqueue_fold(proc, queue, now, evs).1,
            processor_step(enqueue_fold(proc, queue, now, evs).0, now, e).1,
        ),
    decreases evs.len(),
{
    if evs.len() == 0 {
        assert(evs.push(e)[0] == e);
        assert(evs.push(e).drop_first() =~= evs);
        let step = processor_step(proc, now, e);
        assert(enqueue_fold(proc, queue, now, evs.push(e)) == enqueue_fold(
            step.0,
            append_ordered(queue, step.1),
            now,
            evs,
        ));
        assert(enqueue_fold(step.0, append_ordered(queue, step.1), now, evs) == (
            step.0,
            append_ordered(queue, step.1),
        ));
        assert(enqueue_fold(proc, queue, now, evs) == (proc, queue));
    } else {
        assert(evs.push(e)[0] == evs[0]);
        assert(evs.push(e).drop_first() =~= evs.drop_first().push(e));
        let step = processor_step(proc, now, evs[0]);
        assert(enqueue_fold(proc, queue, now, evs.push(e)) == enqueue_fold(
            step.0,
            append_ordered(queue, step.1),
            now,
            evs.drop_first().push(e),
        ));
        assert(enqueue_fold(proc, queue, now, evs) == enqueue_fold(
            step.0,
            append_ordered(queue, step.1),
            now,
            evs.drop_first(),
        ));
        lemma_enqueue_fold_push(step.0, append_ordered(queue, step.1), now, evs.drop_first(), e);
    }
}

/// The exact contract of one pop against one input: with the conversions of
/// both range ends and the stream's start determined (over the state after
/// filling), the result is precisely the overlap selection, rewritten onto
/// the queue clock, of some extension `q_mid` of the previously buffered run,
/// and the FIFO keeps exactly the batches of `q_mid` not wholly consumed;
/// otherwise nothing is returned and the buffer only progressed.
pub open spec fn pop_outcome(
    pre: AudioQueueInput,
    post: AudioQueueInput,
    out: Seq<AudioSamplesBatch>,
    pts_range: (u64, u64),
    queue_start: u64,
) -> bool {
    let c0 = input_pts_spec(post.offset, start_of(post), queue_start, pts_range.0);
    let c1 = input_pts_spec(post.offset, start_of(post), queue_start, pts_range.1);
    if c0 is Some && c1 is Some && post.input_samples_processor.start is Some {
        exists|q_mid: Seq<BatchModel>|
            {
                &&& #[trigger] batches_wf(q_mid)
                &&& batch_views(pre.queue@).is_prefix_of(q_mid)
                &&& batch_views(out) == pop_result_spec(
                    q_mid,
                    c0->0 as int,
                    c1->0 as int,
                    post.offset,
                    post.input_samples_processor.start->0.start_time as int,
                    queue_start,
                )
                &&& batch_views(post.queue@) == evicted(q_mid, c1->0 as int)
            }
    } else {
        out.len() == 0 && input_progressed(pre, post)
    }
}

/// Appending one batch commutes with selecting and rewriting a pop result.
proof fn lemma_pop_result_push(
    q: Seq<BatchModel>,
    x: BatchModel,
    s_in: int,
    e_in: int,
    offset: Option<u64>,
    start_time: int,
    queue_start: u64,
)
    ensures
        pop_result_spec(q.push(x), s_in, e_in, offset, start_time, queue_start) == pop_result_spec(
            q,
            s_in,
            e_in,
            offset,
            start_time,
            queue_start,
        ) + (if batch_overlaps(x, s_in, e_in) {
            seq![rebased_batch(x, offset, start_time, queue_start)]
        } else {
            Seq::<BatchModel>::empty()
        }),
    decreases q.len(),
{
    let tail = if batch_overlaps(x, s_in, e_in) {
        seq![rebased_batch(x, offset, start_time, queue_start)]
    } else {
        Seq::<BatchModel>::empty()
    };
    if q.len() == 0 {
        assert(q.push(x).drop_first() =~= q);
        assert(pop_result_spec(q.push(x), s_in, e_in, offset, start_time, queue_start)
            =~= pop_result_spec(q, s_in, e_in, offset, start_time, queue_start) + tail);
    } else {
        assert(q.push(x).drop_first() =~= q.drop_first().push(x));
        lemma_pop_result_push(q.drop_first(), x, s_in, e_in, offset, start_time, queue_start);
        assert(pop_result_spec(q.push(x), s_in, e_in, offset, start_time, queue_start)
            =~= pop_result_spec(q, s_in, e_in, offset, start_time, queue_start) + tail);
    }
}

/// Every batch a pop returns intersects the requested queue-clock range
/// `[range_start, range_end)`: it ends after `range_start` and starts before
/// `range_end`; and it is well formed.
pub proof fn lemma_pop_result_bounds(
    q: Seq<BatchModel>,
    s_in: int,
    e_in: int,
    offset: Option<u64>,
    start_time: int,
    queue_start: u64,
    range_start: u64,
    range_end: u64,
)
    requires
        forall|i: int| 0 <= i < q.len() ==> batch_wf(#[trigger] q[i]),
        range_start < range_end,
        queue_start + range_end <= u64::MAX,
        match offset {
            Some(o) => s_in == range_start - o && e_in == range_end - o && range_start >= o,
            None => {
                &&& 0 <= start_time
                &&& queue_start + range_start >= start_time
                &&& s_in == queue_start + range_start - start_time
                &&& e_in == queue_start + range_end - start_time
            },
        },
    ensures
        forall|k: int|
            0 <= k < pop_result_spec(q, s_in, e_in, offset, start_time, queue_start).len() ==> {
                let rb = #[trigger] pop_result_spec(q, s_in, e_in, offset, start_time, queue_start)[k];
                &&& rb.start_pts < range_end
                &&& batch_end(rb) > range_start
                &&& batch_wf(rb)
            },
    decreases q.len(),
{
    if q.len() > 0 {
        lemma_pop_result_bounds(
            q.drop_first(),
            s_in,
            e_in,
            offset,
            start_time,
            queue_start,
            range_start,
            range_end,
        );
        let res = pop_result_spec(q, s_in, e_in, offset, start_time, queue_start);
        let rest = pop_result_spec(q.drop_first(), s_in, e_in, offset, start_time, queue_start);
        if batch_overlaps(q[0], s_in, e_in) {
            let rb = rebased_batch(q[0], offset, start_time, queue_start);
            assert(rb.start_pts < range_end && batch_end(rb) > range_start && batch_wf(rb));
            assert forall|k: int| 0 <= k < res.len() implies {
                let rbk = #[trigger] res[k];
                &&& rbk.start_pts < range_end
                &&& batch_end(rbk) > range_start
                &&& batch_wf(rbk)
            } by {
                if k > 0 {
                    assert(res[k] == rest[k - 1]);
                }
            }
        }
    }
}

/// Evicting from the front of a well-formed FIFO leaves a well-formed FIFO.
proof fn lemma_evicted_wf(q: Seq<BatchModel>, cutoff: int)
    requires
        batches_wf(q),
    ensures
        batches_wf(evicted(q, cutoff)),
    decreases q.len(),
{
    if q.len() > 0 && batch_end(q[0]) < cutoff {
        assert forall|i: int| 0 <= i < q.drop_first().len() implies batch_wf(
            #[trigger] q.drop_first()[i],
        ) by {
            assert(q.drop_first()[i] == q[i + 1]);
        }
        assert forall|i: int|
            0 <= i && i + 1 < q.drop_first().len() implies batch_end(q.drop_first()[i]) <= (
        #[trigger] q.drop_first()[i + 1]).start_pts by {
            assert(q.drop_first()[i] == q[i + 1]);
            assert(q.drop_first()[i + 1] == q[i + 2]);
        }
        lemma_evicted_wf(q.drop_first(), cutoff);
    }
}

/// Every batch surviving an eviction ends at or after the cutoff, provided
/// the FIFO was ordered.
pub proof fn lemma_evicted_ends(q: Seq<BatchModel>, cutoff: int)
    requires
        batches_wf(q),
    ensures
        forall|i: int|
            0 <= i < evicted(q, cutoff).len() ==> batch_end(#[trigger] evicted(q, cutoff)[i])
                >= cutoff,
    decreases q.len(),
{
    if q.len() > 0 && batch_end(q[0]) < cutoff {
        assert forall|i: int| 0 <= i < q.drop_first().len() implies batch_wf(
            #[trigger] q.drop_first()[i],
        ) by {
            assert(q.drop_first()[i] == q[i + 1]);
        }
        assert forall|i: int|
            0 <= i && i + 1 < q.drop_first().len() implies batch_end(q.drop_first()[i]) <= (
        #[trigger] q.drop_first()[i + 1]).start_pts by {
            assert(q.drop_first()[i] == q[i + 1]);
            assert(q.drop_first()[i + 1] == q[i + 2]);
        }
        lemma_evicted_wf(q.drop_first(), cutoff);
        lemma_evicted_ends(q.drop_first(), cutoff);
    } else if q.len() > 0 {
        assert forall|i: int| 0 <= i < q.len() implies batch_end(#[trigger] q[i]) >= cutoff by {
            crate::samples::lemma_ordered_ends(q, 0, i);
        }
    }
}

/// Prefixes compose.
proof fn lemma_prefix_trans(a: Seq<BatchModel>, b: Seq<BatchModel>, c: Seq<BatchModel>)
    requires
        a.is_prefix_of(b),
        b.is_prefix_of(c),
    ensures
        a.is_prefix_of(c),
{
    assert(a =~= c.subrange(0, a.len() as int));
}

/// A buffer state has progressed from itself.
proof fn lemma_progressed_refl(a: AudioQueueInput)
    ensures
        input_progressed(a, a),
{
    assert(batch_views(a.queue@).is_prefix_of(batch_views(a.queue@)));
}

/// Progress steps compose.
proof fn lemma_progressed_trans(a: AudioQueueInput, b: AudioQueueInput, c: AudioQueueInput)
    requires
        input_progressed(a, b),
        input_progressed(b, c),
    ensures
        input_progressed(a, c),
{
    lemma_prefix_trans(batch_views(a.queue@), batch_views(b.queue@), batch_views(c.queue@));
}

/// Copy a run of samples.
fn clone_samples(v: &Vec<i16>) -> (r: Vec<i16>)
    ensures
        r@ == v@,
{
    let mut r: Vec<i16> = Vec::new();
    let mut i: usize = 0;
    while i < v.len()
        invariant
            0 <= i <= v@.len(),
            r@ == v@.subrange(0, i as int),
        decreases v@.len() - i,
    {
        r.push(v[i]);
        assert(r@ =~= v@.subrange(0, i + 1));
        i += 1;
    }
    proof {
        assert(r@ =~= v@);
    }
    r
}

/// Evict, from the front of an ordered FIFO, every batch that ends before
/// the stream-local `cutoff`.
fn evict_front(queue: &mut Vec<AudioSamplesBatch>, cutoff: u64)
    requires
        batches_wf(batch_views(old(queue)@)),
    ensures
        batches_wf(batch_views(final(queue)@)),
        batch_views(final(queue)@) == evicted(batch_views(old(queue)@), cutoff as int),
{
    let ghost q0 = batch_views(queue@);
    while queue.len() > 0 && queue[0].end_pts() < cutoff
        invariant
            batches_wf(batch_views(queue@)),
            forall|ii: int|
                0 <= ii < queue@.len() ==> #[trigger] queue@[ii]@ == batch_views(queue@)[ii],
            evicted(batch_views(queue@), cutoff as int) == evicted(q0, cutoff as int),
        decreases queue@.len(),
    {
        let ghost views_before = batch_views(queue@);
        queue.remove(0);
        proof {
            assert(batch_views(queue@) =~= views_before.drop_first());
            assert forall|ii: int|
                0 <= ii && ii + 1 < batch_views(queue@).len() implies batch_end(
                batch_views(queue@)[ii],
            ) <= (#[trigger] batch_views(queue@)[ii + 1]).start_pts by {
                assert(batch_views(queue@)[ii] == views_before[ii + 1]);
                assert(batch_views(queue@)[ii + 1] == views_before[ii + 2]);
            }
        }
    }
    proof {
        assert(evicted(batch_views(queue@), cutoff as int) == batch_views(queue@));
    }
}

impl AudioQueueInput {
    /// Feed one already-received delivery event through the normalization
    /// stage and append what it releases to the FIFO, keeping it ordered:
    /// content that would overlap or precede already-buffered content is
    /// dropped.
    fn enqueue_event(&mut self, now: u64, event: PipelineEvent<AudioSamplesBatch>)
        requires
            input_wf(*old(self)),
        ensures
            input_wf(*final(self)),
            input_progressed(*old(self), *final(self)),
            final(self).receiver == old(self).receiver,
            final(self).input_samples_processor@ == processor_step(
                old(self).input_samples_processor@,
                now,
                event_view(event),
            ).0,
            batch_views(final(self).queue@) == append_ordered(
                batch_views(old(self).queue@),
                processor_step(old(self).input_samples_processor@, now, event_view(event)).1,
            ),
    {
        let ghost q0 = batch_views(old(self).queue@);
        let ghost released = processor_step(
            old(self).input_samples_processor@,
            now,
            event_view(event),
        ).1;
        let mut out = self.input_samples_processor.process_new_chunk(now, event);
        let ghost proc_after = self.input_samples_processor;
        proof {
            assert(batch_views(self.queue@).is_prefix_of(batch_views(self.queue@)));
            if self.input_samples_processor.start is None {
                assert(old(self).input_samples_processor.start is None);
                assert(self.queue@.len() == 0);
            }
            assert(input_progressed(*old(self), *self));
            assert(batch_views(out@) == released);
        }
        while out.len() > 0
            invariant
                input_wf(*self),
                input_progressed(*old(self), *self),
                self.receiver == old(self).receiver,
                self.input_samples_processor == proc_after,
                append_ordered(batch_views(self.queue@), batch_views(out@)) == append_ordered(
                    q0,
                    released,
                ),
                forall|k: int| 0 <= k < out@.len() ==> batch_wf(#[trigger] out@[k]@),
                self.input_samples_processor.start is None ==> out@.len() == 0,
            decreases out@.len(),
        {
            let ghost mid = *self;
            let ghost q_before = batch_views(self.queue@);
            let ghost out_before = out@;
            let ghost out_views_before = batch_views(out@);
            let b = out.remove(0);
            proof {
                assert(batch_wf(b@));
                assert forall|k: int| 0 <= k < out@.len() implies batch_wf(#[trigger] out@[k]@) by {
                    assert(out@[k] == out_before[k + 1]);
                }
            }
            let push_ok: bool;
            if self.queue.len() == 0 {
                push_ok = true;
            } else {
                let last = self.queue.len() - 1;
                proof {
                    assert(self.queue@[last as int]@ == batch_views(self.queue@)[last as int]);
                }
                let back_end = self.queue[last].end_pts();
                push_ok = back_end <= b.start_pts;
            }
            proof {
                assert(batch_views(out@) =~= out_views_before.drop_first());
                assert(out_views_before[0] == b@);
            }
            if push_ok {
                let ghost bm = b@;
                self.queue.push(b);
                proof {
                    assert(batch_views(self.queue@) =~= q_before.push(bm));
                    assert forall|i: int|
                        0 <= i && i + 1 < batch_views(self.queue@).len() implies batch_end(
                        batch_views(self.queue@)[i],
                    ) <= (#[trigger] batch_views(self.queue@)[i + 1]).start_pts by {
                        if i + 1 < q_before.len() {
                            assert(batch_views(self.queue@)[i] == q_before[i]);
                            assert(batch_views(self.queue@)[i + 1] == q_before[i + 1]);
                        } else {
                            assert(batch_views(self.queue@)[i + 1] == bm);
                        }
                    }
                    assert(q_before.is_prefix_of(batch_views(self.queue@)));
                    assert(input_progressed(mid, *self));
                    lemma_progressed_trans(*old(self), mid, *self);
                    assert(append_ordered(q_before, out_views_before) == append_ordered(
                        batch_views(self.queue@),
                        batch_views(out@),
                    ));
                }
            } else {
                proof {
                    assert(batch_views(self.queue@).is_prefix_of(batch_views(self.queue@)));
                    assert(input_progressed(mid, *self));
                    lemma_progressed_trans(*old(self), mid, *self);
                    assert(!(q_before.len() == 0 || batch_end(q_before.last()) <= b@.start_pts));
                    assert(append_ordered(q_before, out_views_before) == append_ordered(
                        batch_views(self.queue@),
                        batch_views(out@),
                    ));
                }
            }
        }
        proof {
            assert(batch_views(out@) =~= Seq::<BatchModel>::empty());
            assert(append_ordered(batch_views(self.queue@), batch_views(out@)) == batch_views(
                self.queue@,
            ));
        }
    }

    /// Receive everything the delivery channel currently offers, without
    /// blocking, and run it through the normalization stage into the FIFO.
    pub fn try_enqueue_samples(&mut self, now: u64)
        requires
            input_wf(*old(self)),
        ensures
            input_wf(*final(self)),
            input_progressed(*old(self), *final(self)),
            final(self).receiver == old(self).receiver,
            exists|evs: Seq<PipelineEventModel>|
                {
                    let folded = #[trigger] enqueue_fold(
                        old(self).input_samples_processor@,
                        batch_views(old(self).queue@),
                        now,
                        evs,
                    );
                    &&& final(self).input_samples_processor@ == folded.0
                    &&& batch_views(final(self).queue@) == folded.1
                },
    {
        let ghost proc0 = old(self).input_samples_processor@;
        let ghost q0 = batch_views(old(self).queue@);
        let ghost mut evs: Seq<PipelineEventModel> = Seq::empty();
        let mut events = channel::try_drain(&self.receiver);
        proof {
            assert(batch_views(self.queue@).is_prefix_of(batch_views(self.queue@)));
            assert(enqueue_fold(proc0, q0, now, evs) == (proc0, q0));
        }
        while events.len() > 0
            invariant
                input_wf(*self),
                input_progressed(*old(self), *self),
                self.receiver == old(self).receiver,
                proc0 == old(self).input_samples_processor@,
                q0 == batch_views(old(self).queue@),
                self.input_samples_processor@ == enqueue_fold(proc0, q0, now, evs).0,
                batch_views(self.queue@) == enqueue_fold(proc0, q0, now, evs).1,
            decreases events@.len(),
        {
            let ghost mid = *self;
            let ev = events.remove(0);
            let ghost evm = event_view(ev);
            self.enqueue_event(now, ev);
            proof {
                lemma_progressed_trans(*old(self), mid, *self);
                lemma_enqueue_fold_push(proc0, q0, now, evs, evm);
                evs = evs.push(evm);
            }
        }
        proof {
            let folded = enqueue_fold(proc0, q0, now, evs);
            assert(final(self).input_samples_processor@ == folded.0 && batch_views(
                final(self).queue@,
            ) == folded.1);
        }
    }

    /// Inverse reconciliation against the current state, without touching
    /// the channel.
    fn input_pts_now(&self, queue_pts: u64, queue_start: u64) -> (r: Option<u64>)
        requires
            queue_start as int + queue_pts as int <= u64::MAX,
        ensures
            r == input_pts_spec(self.offset, start_of(*self), queue_start, queue_pts),
    {
        match self.offset {
            Some(o) => if queue_pts >= o {
                Some(queue_pts - o)
            } else {
                None
            },
            None => match self.input_samples_processor.start {
                Some(st) => {
                    let abs = queue_start + queue_pts;
                    if abs >= st.start_time {
                        Some(abs - st.start_time)
                    } else {
                        None
                    }
                },
                None => None,
            },
        }
    }

    /// Stream-local timestamp presented at queue timestamp `queue_pts`.
    /// With a fixed offset the mapping needs nothing from the channel and
    /// the state is left untouched; otherwise the channel is drained first
    /// so a start time can still be discovered. `None` when the stream has
    /// not determined its mapping, or `queue_pts` precedes the stream's
    /// content.
    pub fn input_pts_from_queue_pts(
        &mut self,
        queue_pts: u64,
        queue_start_time: u64,
        now: u64,
    ) -> (r: Option<u64>)
        requires
            input_wf(*old(self)),
            queue_start_time as int + queue_pts as int <= u64::MAX,
        ensures
            input_wf(*final(self)),
            input_progressed(*old(self), *final(self)),
            old(self).offset matches Some(_) ==> *final(self) == *old(self),
            r == input_pts_spec(
                final(self).offset,
                start_of(*final(self)),
                queue_start_time,
                queue_pts,
            ),
    {
        match self.offset {
            Some(_) => {
                proof {
                    lemma_progressed_refl(*self);
                }
            },
            None => {
                self.try_enqueue_samples(now);
            },
        }
        self.input_pts_now(queue_pts, queue_start_time)
    }

    /// The stream's start time, draining the channel first so it can still
    /// be discovered; `None` while the stream keeps buffering.
    pub fn input_start_time(&mut self, now: u64) -> (r: Option<u64>)
        requires
            input_wf(*old(self)),
        ensures
            input_wf(*final(self)),
            input_progressed(*old(self), *final(self)),
            r is Some <==> start_of(*final(self)) is Some,
            r == start_of(*final(self)),
    {
        self.try_enqueue_samples(now);
        self.input_samples_processor.start_time()
    }

    /// Whether this stream can already answer for a range starting at
    /// `pts_range.0`. A stream already at end-of-stream is ready for any
    /// further query and the channel is not touched; otherwise the channel
    /// is drained as far as it currently offers data. `false` means the
    /// caller must retry once more data arrived.
    pub fn check_ready_for_pts(&mut self, pts_range: (u64, u64), queue_start: u64, now: u64) -> (r:
        bool)
        requires
            input_wf(*old(self)),
            queue_start as int + pts_range.0 as int <= u64::MAX,
        ensures
            input_wf(*final(self)),
            input_progressed(*old(self), *final(self)),
            old(self).input_samples_processor.eos_received ==> (*final(self) == *old(self) && r),
            r == input_ready_spec(*final(self), pts_range.0, queue_start),
    {
        if self.input_samples_processor.did_receive_eos() {
            proof {
                lemma_progressed_refl(*self);
            }
            return true;
        }
        self.try_enqueue_samples(now);
        if self.input_samples_processor.did_receive_eos() {
            return true;
        }
        match self.input_pts_now(pts_range.0, queue_start) {
            Some(p) => {
                if self.queue.len() == 0 {
                    false
                } else {
                    let last = self.queue.len() - 1;
                    proof {
                        assert(self.queue@[last as int]@ == batch_views(self.queue@)[last as int]);
                    }
                    let back_end = self.queue[last].end_pts();
                    back_end > p
                }
            },
            None => {
                match self.offset {
                    Some(_) => true,
                    None => {
                        match self.input_samples_processor.start {
                            Some(_) => true,
                            None => !self.required,
                        }
                    },
                }
            },
        }
    }

    /// Batches with samples in `pts_range`, timestamps rewritten onto the
    /// queue clock; batches wholly consumed by the range are then evicted,
    /// partially overlapping ones are retained for later ranges. Empty while
    /// the stream's mapping is undetermined or the range precedes the
    /// stream's content.
    pub fn pop_samples(&mut self, pts_range: (u64, u64), queue_start: u64, now: u64) -> (r: Vec<
        AudioSamplesBatch,
    >)
        requires
            input_wf(*old(self)),
            pts_range.0 < pts_range.1,
            queue_start as int + pts_range.1 as int <= u64::MAX,
        ensures
            input_wf(*final(self)),
            same_input_config(*old(self), *final(self)),
            old(self).input_samples_processor.start matches Some(st)
                ==> final(self).input_samples_processor.start == Some(st),
            old(self).input_samples_processor.eos_received
                ==> final(self).input_samples_processor.eos_received,
            forall|k: int|
                0 <= k < r@.len() ==> {
                    let rb = #[trigger] r@[k]@;
                    &&& rb.start_pts < pts_range.1
                    &&& batch_end(rb) > pts_range.0
                    &&& batch_wf(rb)
                },
            pop_outcome(*old(self), *final(self), r@, pts_range, queue_start),
    {
        self.try_enqueue_samples(now);
        let s_in = match self.input_pts_now(pts_range.0, queue_start) {
            Some(v) => v,
            None => {
                return Vec::new();
            },
        };
        let e_in = match self.input_pts_now(pts_range.1, queue_start) {
            Some(v) => v,
            None => {
                return Vec::new();
            },
        };
        let st = match self.input_samples_processor.start {
            Some(st) => st,
            None => {
                return Vec::new();
            },
        };
        let ghost q_mid = batch_views(self.queue@);
        let ghost cfg_offset = self.offset;
        let ghost frame = *self;
        let mut r: Vec<AudioSamplesBatch> = Vec::new();
        proof {
            assert(batch_views(r@) =~= pop_result_spec(
                q_mid.take(0),
                s_in as int,
                e_in as int,
                self.offset,
                st.start_time as int,
                queue_start,
            ));
        }
        let mut i: usize = 0;
        while i < self.queue.len()
            invariant
                input_wf(*self),
                self.input_id == frame.input_id,
                self.receiver == frame.receiver,
                self.required == frame.required,
                self.offset == frame.offset,
                self.input_samples_processor == frame.input_samples_processor,
                q_mid == batch_views(self.queue@),
                0 <= i <= self.queue@.len(),
                self.offset matches Some(o) ==> (pts_range.0 >= o && s_in == pts_range.0 - o
                    && e_in == pts_range.1 - o),
                self.offset is None ==> (queue_start + pts_range.0 >= st.start_time && s_in
                    == queue_start + pts_range.0 - st.start_time && e_in == queue_start
                    + pts_range.1 - st.start_time),
                self.input_samples_processor.start == Some(st),
                pts_range.0 < pts_range.1,
                queue_start as int + pts_range.1 as int <= u64::MAX,
                batch_views(r@) == pop_result_spec(
                    q_mid.take(i as int),
                    s_in as int,
                    e_in as int,
                    self.offset,
                    st.start_time as int,
                    queue_start,
                ),
            decreases self.queue@.len() - i,
        {
            let ghost taken = q_mid.take(i as int);
            let b_start = self.queue[i].start_pts;
            proof {
                assert(self.queue@[i as int]@ == batch_views(self.queue@)[i as int]);
            }
            let b_end = self.queue[i].end_pts();
            if b_start < e_in && b_end > s_in {
                let samples = clone_samples(&self.queue[i].samples);
                let b_duration = self.queue[i].duration;
                let out_start: u64 = match self.offset {
                    Some(o) => {
                        assert(b_start + o < pts_range.1);
                        b_start + o
                    },
                    None => {
                        assert(st.start_time + b_start < queue_start as int + pts_range.1);
                        let abs = st.start_time + b_start;
                        if abs >= queue_start {
                            abs - queue_start
                        } else {
                            0
                        }
                    },
                };
                let out_duration: u64 = if b_duration > u64::MAX - out_start {
                    u64::MAX - out_start
                } else {
                    b_duration
                };
                let rb = AudioSamplesBatch {
                    start_pts: out_start,
                    duration: out_duration,
                    samples,
                };
                proof {
                    assert(rb@ == rebased_batch(
                        q_mid[i as int],
                        self.offset,
                        st.start_time as int,
                        queue_start,
                    ));
                }
                r.push(rb);
                proof {
                    lemma_pop_result_push(
                        taken,
                        q_mid[i as int],
                        s_in as int,
                        e_in as int,
                        self.offset,
                        st.start_time as int,
                        queue_start,
                    );
                    assert(q_mid.take(i + 1) =~= taken.push(q_mid[i as int]));
                    assert(batch_views(r@) =~= pop_result_spec(
                        q_mid.take(i + 1),
                        s_in as int,
                        e_in as int,
                        self.offset,
                        st.start_time as int,
                        queue_start,
                    ));
                }
            } else {
                proof {
                    lemma_pop_result_push(
                        taken,
                        q_mid[i as int],
                        s_in as int,
                        e_in as int,
                        self.offset,
                        st.start_time as int,
                        queue_start,
                    );
                    assert(q_mid.take(i + 1) =~= taken.push(q_mid[i as int]));
                    assert(batch_views(r@) =~= pop_result_spec(
                        q_mid.take(i + 1),
                        s_in as int,
                        e_in as int,
                        self.offset,
                        st.start_time as int,
                        queue_start,
                    ));
                }
            }
            i += 1;
        }
        proof {
            assert(q_mid.take(q_mid.len() as int) =~= q_mid);
        }
        // Evict batches wholly consumed by this range.
        evict_front(&mut self.queue, e_in);
        proof {
            assert(batches_wf(q_mid));
            assert(batch_views(old(self).queue@).is_prefix_of(q_mid));
            let c0 = input_pts_spec(
                final(self).offset,
                start_of(*final(self)),
                queue_start,
                pts_range.0,
            );
            let c1 = input_pts_spec(
                final(self).offset,
                start_of(*final(self)),
                queue_start,
                pts_range.1,
            );
            assert(c0 == Some(s_in) && c1 == Some(e_in));
            lemma_pop_result_bounds(
                q_mid,
                s_in as int,
                e_in as int,
                cfg_offset,
                st.start_time as int,
                queue_start,
                pts_range.0,
                pts_range.1,
            );
            assert forall|k: int| 0 <= k < r@.len() implies {
                let rb = #[trigger] r@[k]@;
                &&& rb.start_pts < pts_range.1
                &&& batch_end(rb) > pts_range.0
                &&& batch_wf(rb)
            } by {
                assert(r@[k]@ == batch_views(r@)[k]);
            }
        }
        r
    }

    /// Drop every batch that ends before queue timestamp `queue_pts`; a
    /// stream whose mapping is undetermined (or starts after `queue_pts`)
    /// keeps its buffer.
    pub fn drop_old_samples(&mut self, queue_pts: u64, queue_start: u64)
        requires
            input_wf(*old(self)),
            queue_start as int + queue_pts as int <= u64::MAX,
        ensures
            input_wf(*final(self)),
            final(self).input_samples_processor == old(self).input_samples_processor,
            same_input_config(*old(self), *final(self)),
            match input_pts_spec(old(self).offset, start_of(*old(self)), queue_start, queue_pts) {
                Some(p) => batch_views(final(self).queue@) == evicted(
                    batch_views(old(self).queue@),
                    p as int,
                ),
                None => final(self).queue@ == old(self).queue@,
            },
    {
        let p = match self.input_pts_now(queue_pts, queue_start) {
            Some(p) => p,
            None => {
                return ;
            },
        };
        evict_front(&mut self.queue, p);
    }
}

/// The synchronization queue itself: one buffer state per registered input,
/// identities unique.
pub struct AudioQueue {
    /// Registered inputs, in registration order, identities pairwise
    /// distinct.
    pub inputs: Vec<AudioQueueInput>,
    /// Buffer duration handed to every stream's normalization stage.
    pub buffer_duration: u64,
}

/// Well-formed queue: every buffer state well formed, identities unique.
pub open spec fn queue_wf(q: AudioQueue) -> bool {
    &&& forall|i: int| 0 <= i < q.inputs@.len() ==> input_wf(#[trigger] q.inputs@[i])
    &&& forall|i: int, j: int|
        0 <= i < j < q.inputs@.len() ==> (#[trigger] q.inputs@[i]).input_id != (
        #[trigger] q.inputs@[j]).input_id
}

/// A just-registered buffer state.
pub open spec fn fresh_input(
    inp: AudioQueueInput,
    input_id: InputId,
    receiver: crossbeam_channel::Receiver<PipelineEvent<AudioSamplesBatch>>,
    opts: InputOptions,
    buffer_duration: u64,
) -> bool {
    &&& inp.input_id == input_id
    &&& inp.receiver == receiver
    &&& inp.queue@.len() == 0
    &&& inp.required == opts.required
    &&& inp.offset == opts.offset
    &&& inp.input_samples_processor.buffer_duration == buffer_duration
    &&& inp.input_samples_processor.start is None
    &&& !inp.input_samples_processor.eos_received
}

impl AudioQueue {
    /// An empty queue; every stream registered later buffers
    /// `buffer_duration` of content before it starts.
    pub fn new(buffer_duration: u64) -> (r: AudioQueue)
        ensures
            r.inputs@.len() == 0,
            r.buffer_duration == buffer_duration,
            queue_wf(r),
    {
        AudioQueue { inputs: Vec::new(), buffer_duration }
    }

    /// Register a stream under `input_id` with an empty FIFO; registering an
    /// identity twice silently replaces the earlier registration (last write
    /// wins).
    pub fn add_input(
        &mut self,
        input_id: &InputId,
        receiver: crossbeam_channel::Receiver<PipelineEvent<AudioSamplesBatch>>,
        opts: InputOptions,
    )
        requires
            queue_wf(*old(self)),
        ensures
            queue_wf(*final(self)),
            final(self).buffer_duration == old(self).buffer_duration,
            (exists|j: int|
                0 <= j < old(self).inputs@.len() && (#[trigger] old(self).inputs@[j]).input_id
                    == *input_id) ==> final(self).inputs@.len() == old(self).inputs@.len(),
            (forall|j: int|
                0 <= j < old(self).inputs@.len() ==> (#[trigger] old(self).inputs@[j]).input_id
                    != *input_id) ==> final(self).inputs@.len() == old(self).inputs@.len() + 1,
            forall|k: int|
                0 <= k < old(self).inputs@.len() && (#[trigger] old(self).inputs@[k]).input_id
                    != *input_id ==> final(self).inputs@[k] == old(self).inputs@[k],
            exists|k: int|
                0 <= k < final(self).inputs@.len() && (#[trigger] final(self).inputs@[k]).input_id
                    == *input_id,
            forall|k: int|
                0 <= k < final(self).inputs@.len() && (#[trigger] final(self).inputs@[k]).input_id
                    == *input_id ==> fresh_input(
                    final(self).inputs@[k],
                    *input_id,
                    receiver,
                    opts,
                    old(self).buffer_duration,
                ),
    {
        let fresh = AudioQueueInput {
            input_id: *input_id,
            queue: Vec::new(),
            receiver,
            input_samples_processor: InputProcessor::new(self.buffer_duration),
            required: opts.required,
            offset: opts.offset,
        };
        let n = self.inputs.len();
        let mut i: usize = 0;
        while i < n
            invariant
                *self == *old(self),
                queue_wf(*old(self)),
                n == self.inputs@.len(),
                0 <= i <= n,
                fresh_input(fresh, *input_id, receiver, opts, old(self).buffer_duration),
                forall|k: int|
                    0 <= k < i ==> (#[trigger] self.inputs@[k]).input_id != fresh.input_id,
            decreases n - i,
        {
            if self.inputs[i].input_id == fresh.input_id {
                self.inputs.remove(i);
                self.inputs.insert(i, fresh);
                proof {
                    assert(self.inputs@ =~= old(self).inputs@.update(i as int, fresh));
                    assert(input_wf(fresh));
                    assert forall|a: int, b: int|
                        0 <= a < b < self.inputs@.len() implies (
                        #[trigger] self.inputs@[a]).input_id != (
                        #[trigger] self.inputs@[b]).input_id by {
                        assert(old(self).inputs@[a].input_id != old(self).inputs@[b].input_id);
                    }
                    assert(self.inputs@[i as int].input_id == *input_id);
                }
                return ;
            }
            i += 1;
        }
        self.inputs.push(fresh);
        proof {
            assert(self.inputs@ =~= old(self).inputs@.push(fresh));
            assert(input_wf(fresh));
            let ln = old(self).inputs@.len() as int;
            assert(self.inputs@[ln] == fresh);
            assert forall|a: int, b: int|
                0 <= a < b < self.inputs@.len() implies (#[trigger] self.inputs@[a]).input_id != (
            #[trigger] self.inputs@[b]).input_id by {
                if b < ln {
                    assert(old(self).inputs@[a].input_id != old(self).inputs@[b].input_id);
                } else {
                    assert(self.inputs@[a] == old(self).inputs@[a]);
                    assert(self.inputs@[b] == fresh);
                }
            }
            assert(self.inputs@[ln].input_id == *input_id);
        }
    }

    /// Discard the buffer and any unread data for `input_id`; no effect if
    /// the identity is unknown.
    pub fn remove_input(&mut self, input_id: &InputId)
        requires
            queue_wf(*old(self)),
        ensures
            queue_wf(*final(self)),
            final(self).buffer_duration == old(self).buffer_duration,
            (forall|j: int|
                0 <= j < old(self).inputs@.len() ==> (#[trigger] old(self).inputs@[j]).input_id
                    != *input_id) ==> final(self).inputs@ == old(self).inputs@,
            forall|j: int|
                0 <= j < old(self).inputs@.len() && (#[trigger] old(self).inputs@[j]).input_id
                    == *input_id ==> final(self).inputs@ == old(self).inputs@.remove(j),
    {
        let n = self.inputs.len();
        let mut i: usize = 0;
        while i < n
            invariant
                *self == *old(self),
                queue_wf(*old(self)),
                n == self.inputs@.len(),
                0 <= i <= n,
                forall|k: int| 0 <= k < i ==> (#[trigger] self.inputs@[k]).input_id != *input_id,
            decreases n - i,
        {
            if self.inputs[i].input_id == *input_id {
                self.inputs.remove(i);
                proof {
                    assert forall|a: int, b: int|
                        0 <= a < b < self.inputs@.len() implies (
                        #[trigger] self.inputs@[a]).input_id != (
                        #[trigger] self.inputs@[b]).input_id by {
                        if a < i as int {
                            assert(self.inputs@[a] == old(self).inputs@[a]);
                        } else {
                            assert(self.inputs@[a] == old(self).inputs@[a + 1]);
                        }
                        if b < i as int {
                            assert(self.inputs@[b] == old(self).inputs@[b]);
                        } else {
                            assert(self.inputs@[b] == old(self).inputs@[b + 1]);
                        }
                    }
                    assert forall|j: int|
                        0 <= j < old(self).inputs@.len() && (
                        #[trigger] old(self).inputs@[j]).input_id == *input_id implies self.inputs@
                        == old(self).inputs@.remove(j) by {
                        if j != i as int {
                            assert(old(self).inputs@[i as int].input_id == *input_id);
                            assert(false);
                        }
                    }
                }
                return ;
            }
            i += 1;
        }
    }

    /// Whether every registered stream can already answer for
    /// `pts_range.0`; `false` as soon as one stream cannot yet make the
    /// determination — the caller retries after more data arrived.
    pub fn check_all_inputs_ready_for_pts(
        &mut self,
        pts_range: (u64, u64),
        queue_start: u64,
        now: u64,
    ) -> (r: bool)
        requires
            queue_wf(*old(self)),
            queue_start as int + pts_range.0 as int <= u64::MAX,
        ensures
            queue_wf(*final(self)),
            final(self).buffer_duration == old(self).buffer_duration,
            final(self).inputs@.len() == old(self).inputs@.len(),
            forall|k: int|
                0 <= k < old(self).inputs@.len() ==> input_progressed(
                    old(self).inputs@[k],
                    #[trigger] final(self).inputs@[k],
                ),
            r == forall|k: int|
                0 <= k < final(self).inputs@.len() ==> input_ready_spec(
                    #[trigger] final(self).inputs@[k],
                    pts_range.0,
                    queue_start,
                ),
    {
        let n = self.inputs.len();
        let mut i: usize = 0;
        while i < n
            invariant
                queue_wf(*self),
                n == self.inputs@.len(),
                n == old(self).inputs@.len(),
                0 <= i <= n,
                self.buffer_duration == old(self).buffer_duration,
                queue_start as int + pts_range.0 as int <= u64::MAX,
                forall|k: int| i <= k < n ==> #[trigger] self.inputs@[k] == old(self).inputs@[k],
                forall|k: int|
                    0 <= k < n ==> input_progressed(
                        old(self).inputs@[k],
                        #[trigger] self.inputs@[k],
                    ),
                forall|k: int|
                    0 <= k < i ==> input_ready_spec(
                        #[trigger] self.inputs@[k],
                        pts_range.0,
                        queue_start,
                    ),
            decreases n - i,
        {
            let ghost pre = *self;
            let inp = &mut self.inputs[i];
            let ok = inp.check_ready_for_pts(pts_range, queue_start, now);
            proof {
                assert(self.inputs@ =~= pre.inputs@.update(i as int, self.inputs@[i as int]));
            }
            if !ok {
                return false;
            }
            i += 1;
        }
        true
    }

    /// Whether every *required* stream can already answer for
    /// `pts_range.0`; optional streams never hold the timeline here.
    pub fn check_all_required_inputs_ready_for_pts(
        &mut self,
        pts_range: (u64, u64),
        queue_start: u64,
        now: u64,
    ) -> (r: bool)
        requires
            queue_wf(*old(self)),
            queue_start as int + pts_range.0 as int <= u64::MAX,
        ensures
            queue_wf(*final(self)),
            final(self).buffer_duration == old(self).buffer_duration,
            final(self).inputs@.len() == old(self).inputs@.len(),
            forall|k: int|
                0 <= k < old(self).inputs@.len() ==> input_progressed(
                    old(self).inputs@[k],
                    #[trigger] final(self).inputs@[k],
                ),
            r == forall|k: int|
                0 <= k < final(self).inputs@.len() ==> ((#[trigger] final(self).inputs@[k]).required
                    ==> input_ready_spec(final(self).inputs@[k], pts_range.0, queue_start)),
    {
        let n = self.inputs.len();
        let mut i: usize = 0;
        while i < n
            invariant
                queue_wf(*self),
                n == self.inputs@.len(),
                n == old(self).inputs@.len(),
                0 <= i <= n,
                self.buffer_duration == old(self).buffer_duration,
                queue_start as int + pts_range.0 as int <= u64::MAX,
                forall|k: int| i <= k < n ==> #[trigger] self.inputs@[k] == old(self).inputs@[k],
                forall|k: int|
                    0 <= k < n ==> input_progressed(
                        old(self).inputs@[k],
                        #[trigger] self.inputs@[k],
                    ),
                forall|k: int|
                    0 <= k < i ==> ((#[trigger] self.inputs@[k]).required ==> input_ready_spec(
                        self.inputs@[k],
                        pts_range.0,
                        queue_start,
                    )),
            decreases n - i,
        {
            let required = self.inputs[i].required;
            if required {
                let ghost pre = *self;
                let inp = &mut self.inputs[i];
                let ok = inp.check_ready_for_pts(pts_range, queue_start, now);
                proof {
                    assert(self.inputs@ =~= pre.inputs@.update(i as int, self.inputs@[i as int]));
                }
                if !ok {
                    return false;
                }
            }
            i += 1;
        }
        true
    }

    /// Whether some required stream's mapping says it should already be
    /// contributing content at `queue_pts` — used to hold the timeline
    /// instead of advancing past a stream that is due.
    pub fn has_required_inputs_for_pts(&mut self, queue_pts: u64, queue_start: u64, now: u64) -> (r:
        bool)
        requires
            queue_wf(*old(self)),
            queue_start as int + queue_pts as int <= u64::MAX,
        ensures
            queue_wf(*final(self)),
            final(self).buffer_duration == old(self).buffer_duration,
            final(self).inputs@.len() == old(self).inputs@.len(),
            forall|k: int|
                0 <= k < old(self).inputs@.len() ==> input_progressed(
                    old(self).inputs@[k],
                    #[trigger] final(self).inputs@[k],
                ),
            r == exists|k: int|
                0 <= k < final(self).inputs@.len() && (#[trigger] final(self).inputs@[k]).required
                    && input_pts_spec(
                    final(self).inputs@[k].offset,
                    start_of(final(self).inputs@[k]),
                    queue_start,
                    queue_pts,
                ) is Some,
    {
        let n = self.inputs.len();
        let mut i: usize = 0;
        while i < n
            invariant
                queue_wf(*self),
                n == self.inputs@.len(),
                n == old(self).inputs@.len(),
                0 <= i <= n,
                self.buffer_duration == old(self).buffer_duration,
                queue_start as int + queue_pts as int <= u64::MAX,
                forall|k: int| i <= k < n ==> #[trigger] self.inputs@[k] == old(self).inputs@[k],
                forall|k: int|
                    0 <= k < n ==> input_progressed(
                        old(self).inputs@[k],
                        #[trigger] self.inputs@[k],
                    ),
                forall|k: int|
                    0 <= k < i ==> !((#[trigger] self.inputs@[k]).required && input_pts_spec(
                        self.inputs@[k].offset,
                        start_of(self.inputs@[k]),
                        queue_start,
                        queue_pts,
                    ) is Some),
            decreases n - i,
        {
            let required = self.inputs[i].required;
            if required {
                let ghost pre = *self;
                let inp = &mut self.inputs[i];
                let p = inp.input_pts_from_queue_pts(queue_pts, queue_start, now);
                proof {
                    assert(self.inputs@ =~= pre.inputs@.update(i as int, self.inputs@[i as int]));
                }
                if p.is_some() {
                    return true;
                }
            }
            i += 1;
        }
        false
    }

    /// One reconciliation: for every registered stream, in registration
    /// order, the batches overlapping `range` rewritten onto the queue
    /// clock, paired with the range; batches wholly consumed are evicted.
    pub fn pop_samples_set(&mut self, range: (u64, u64), clock_start: u64, now: u64) -> (r:
        AudioSamplesSet)
        requires
            queue_wf(*old(self)),
            range.0 < range.1,
            clock_start as int + range.1 as int <= u64::MAX,
        ensures
            queue_wf(*final(self)),
            final(self).buffer_duration == old(self).buffer_duration,
            final(self).inputs@.len() == old(self).inputs@.len(),
            forall|k: int|
                0 <= k < old(self).inputs@.len() ==> same_input_config(
                    old(self).inputs@[k],
                    #[trigger] final(self).inputs@[k],
                ),
            r.start_pts == range.0,
            r.end_pts == range.1,
            r.samples@.len() == final(self).inputs@.len(),
            forall|k: int|
                0 <= k < r.samples@.len() ==> (#[trigger] r.samples@[k]).0 == final(self).inputs@[k].input_id,
            forall|k: int|
                0 <= k < r.samples@.len() ==> (forall|j: int|
                    0 <= j < (#[trigger] r.samples@[k]).1@.len() ==> {
                        let rb = (#[trigger] r.samples@[k].1@[j])@;
                        &&& rb.start_pts < range.1
                        &&& batch_end(rb) > range.0
                        &&& batch_wf(rb)
                    }),
            forall|k: int|
                0 <= k < r.samples@.len() ==> pop_outcome(
                    old(self).inputs@[k],
                    final(self).inputs@[k],
                    (#[trigger] r.samples@[k]).1@,
                    range,
                    clock_start,
                ),
            forall|k: int|
                0 <= k < old(self).inputs@.len() ==> {
                    let pre = old(self).inputs@[k];
                    let post = #[trigger] final(self).inputs@[k];
                    &&& (pre.input_samples_processor.start matches Some(st)
                        ==> post.input_samples_processor.start == Some(st))
                    &&& (pre.input_samples_processor.eos_received
                        ==> post.input_samples_processor.eos_received)
                },
    {
        let n = self.inputs.len();
        let mut out: Vec<(InputId, Vec<AudioSamplesBatch>)> = Vec::new();
        let mut i: usize = 0;
        while i < n
            invariant
                queue_wf(*self),
                n == self.inputs@.len(),
                n == old(self).inputs@.len(),
                0 <= i <= n,
                self.buffer_duration == old(self).buffer_duration,
                range.0 < range.1,
                clock_start as int + range.1 as int <= u64::MAX,
                forall|k: int|
                    0 <= k < n ==> same_input_config(
                        old(self).inputs@[k],
                        #[trigger] self.inputs@[k],
                    ),
                out@.len() == i,
                forall|k: int| i <= k < n ==> #[trigger] self.inputs@[k] == old(self).inputs@[k],
                forall|k: int|
                    0 <= k < i ==> (#[trigger] out@[k]).0 == self.inputs@[k].input_id,
                forall|k: int|
                    0 <= k < i ==> (forall|j: int|
                        0 <= j < (#[trigger] out@[k]).1@.len() ==> {
                            let rb = (#[trigger] out@[k].1@[j])@;
                            &&& rb.start_pts < range.1
                            &&& batch_end(rb) > range.0
                            &&& batch_wf(rb)
                        }),
                forall|k: int|
                    0 <= k < i ==> pop_outcome(
                        old(self).inputs@[k],
                        self.inputs@[k],
                        (#[trigger] out@[k]).1@,
                        range,
                        clock_start,
                    ),
                forall|k: int|
                    0 <= k < n ==> {
                        let pre = old(self).inputs@[k];
                        let post = #[trigger] self.inputs@[k];
                        &&& (pre.input_samples_processor.start matches Some(st)
                            ==> post.input_samples_processor.start == Some(st))
                        &&& (pre.input_samples_processor.eos_received
                            ==> post.input_samples_processor.eos_received)
                    },
            decreases n - i,
        {
            let id = self.inputs[i].input_id;
            let ghost pre = *self;
            let inp = &mut self.inputs[i];
            let bs = inp.pop_samples(range, clock_start, now);
            proof {
                assert(self.inputs@ =~= pre.inputs@.update(i as int, self.inputs@[i as int]));
            }
            out.push((id, bs));
            i += 1;
        }
        AudioSamplesSet { samples: out, start_pts: range.0, end_pts: range.1 }
    }

    /// Timeline skip-ahead: drop, for every stream, every batch that ends
    /// before queue timestamp `pts`.
    pub fn drop_old_samples(&mut self, pts: u64, queue_start: u64)
        requires
            queue_wf(*old(self)),
            queue_start as int + pts as int <= u64::MAX,
        ensures
            queue_wf(*final(self)),
            final(self).buffer_duration == old(self).buffer_duration,
            final(self).inputs@.len() == old(self).inputs@.len(),
            forall|k: int|
                0 <= k < old(self).inputs@.len() ==> {
                    let pre = old(self).inputs@[k];
                    let post = #[trigger] final(self).inputs@[k];
                    &&& same_input_config(pre, post)
                    &&& post.input_samples_processor == pre.input_samples_processor
                    &&& match input_pts_spec(pre.offset, start_of(pre), queue_start, pts) {
                        Some(p) => batch_views(post.queue@) == evicted(
                            batch_views(pre.queue@),
                            p as int,
                        ),
                        None => post.queue@ == pre.queue@,
                    }
                },
    {
        let n = self.inputs.len();
        let mut i: usize = 0;
        while i < n
            invariant
                queue_wf(*self),
                n == self.inputs@.len(),
                n == old(self).inputs@.len(),
                0 <= i <= n,
                self.buffer_duration == old(self).buffer_duration,
                queue_start as int + pts as int <= u64::MAX,
                forall|k: int|
                    i <= k < n ==> #[trigger] self.inputs@[k] == old(self).inputs@[k],
                forall|k: int|
                    0 <= k < i ==> {
                        let pre = old(self).inputs@[k];
                        let post = #[trigger] self.inputs@[k];
                        &&& same_input_config(pre, post)
                        &&& post.input_samples_processor == pre.input_samples_processor
                        &&& match input_pts_spec(pre.offset, start_of(pre), queue_start, pts) {
                            Some(p) => batch_views(post.queue@) == evicted(
                                batch_views(pre.queue@),
                                p as int,
                            ),
                            None => post.queue@ == pre.queue@,
                        }
                    },
            decreases n - i,
        {
            let ghost pre = *self;
            let inp = &mut self.inputs[i];
            inp.drop_old_samples(pts, queue_start);
            proof {
                assert(self.inputs@ =~= pre.inputs@.update(i as int, self.inputs@[i as int]));
            }
            i += 1;
        }
    }
}

/// Law: for a stream with fixed offset `o`, stream-local timestamp `t` is
/// presented at queue-clock timestamp `t + o`; the inverse mapping yields
/// `queue_pts - o` when `queue_pts >= o` and is undefined otherwise, and the
/// two mappings are mutually inverse.
pub proof fn lemma_fixed_offset_mapping(
    o: u64,
    start_time: u64,
    queue_start: u64,
    t: int,
    queue_pts: u64,
)
    requires
        0 <= t,
        t + o <= u64::MAX,
    ensures
        queue_pts_spec(Some(o), start_time, queue_start, t) == t + o,
        queue_pts >= o ==> input_pts_spec(Some(o), Some(start_time), queue_start, queue_pts)
            == Some((queue_pts - o) as u64),
        queue_pts < o ==> input_pts_spec(Some(o), Some(start_time), queue_start, queue_pts) is None,
        input_pts_spec(Some(o), Some(start_time), queue_start, (t + o) as u64) == Some(t as u64),
{
}

/// Law: for a stream without fixed offset whose start time `s` is known,
/// stream-local timestamp `t` is presented at queue-clock timestamp
/// `(s - anchor) + t` (where `anchor` is the queue clock's zero instant), and
/// the mapping is monotone in `t`.
pub proof fn lemma_start_time_mapping(s: u64, queue_start: u64, t1: int, t2: int)
    requires
        0 <= t1 <= t2,
    ensures
        s >= queue_start ==> queue_pts_spec(None, s, queue_start, t1) == (s - queue_start) + t1,
        queue_pts_spec(None, s, queue_start, t1) <= queue_pts_spec(None, s, queue_start, t2),
{
}

/// Law: a pop for a fixed-offset stream rewrites a batch's start from `t` to
/// `t + o` and keeps its duration and samples, whenever the rewritten end
/// still fits the timestamp type.
pub proof fn lemma_fixed_offset_rebase(b: BatchModel, o: u64, start_time: int, queue_start: u64)
    requires
        batch_wf(b),
        batch_end(b) + o <= u64::MAX,
    ensures
        rebased_batch(b, Some(o), start_time, queue_start) == (BatchModel {
            start_pts: b.start_pts + o,
            duration: b.duration,
            samples: b.samples,
        }),
{
}

/// Law: a pop for a stream with known start time `s` rewrites a batch's
/// start from `t` to `(s - anchor) + t` and keeps its duration and samples,
/// whenever the batch lies at or after the anchor and its rewritten end
/// still fits the timestamp type.
pub proof fn lemma_start_time_rebase(b: BatchModel, s: u64, queue_start: u64)
    requires
        batch_wf(b),
        s + b.start_pts >= queue_start,
        s + batch_end(b) - queue_start <= u64::MAX,
    ensures
        rebased_batch(b, None, s as int, queue_start) == (BatchModel {
            start_pts: s + b.start_pts - queue_start,
            duration: b.duration,
            samples: b.samples,
        }),
{
}

/// Law: the timestamp a pop writes onto a returned batch is exactly the
/// forward reconciliation of the batch's stream-local start timestamp.
pub proof fn lemma_pop_rewrites_by_queue_pts(
    b: BatchModel,
    offset: Option<u64>,
    start_time: u64,
    queue_start: u64,
)
    ensures
        rebased_start(b, offset, start_time as int, queue_start) == queue_pts_spec(
            offset,
            start_time,
            queue_start,
            b.start_pts,
        ),
{
}

/// Law: ranges are consumed in order — after a pop for `first_range`, a
/// later pop for a range starting at or after `first_range`'s end never
/// returns a batch that ends strictly before that later range's start,
/// whatever arrived in between.
pub proof fn lemma_pop_sequencing(
    q: Seq<BatchModel>,
    s_in: int,
    e_in: int,
    offset: Option<u64>,
    start_time: int,
    queue_start: u64,
    first_range: (u64, u64),
    later_range: (u64, u64),
)
    requires
        forall|i: int| 0 <= i < q.len() ==> batch_wf(#[trigger] q[i]),
        first_range.1 <= later_range.0,
        later_range.0 < later_range.1,
        queue_start + later_range.1 <= u64::MAX,
        match offset {
            Some(o) => s_in == later_range.0 - o && e_in == later_range.1 - o && later_range.0
                >= o,
            None => {
                &&& 0 <= start_time
                &&& queue_start + later_range.0 >= start_time
                &&& s_in == queue_start + later_range.0 - start_time
                &&& e_in == queue_start + later_range.1 - start_time
            },
        },
    ensures
        forall|k: int|
            0 <= k < pop_result_spec(q, s_in, e_in, offset, start_time, queue_start).len()
                ==> batch_end(
                #[trigger] pop_result_spec(q, s_in, e_in, offset, start_time, queue_start)[k],
            ) >= later_range.0,
{
    lemma_pop_result_bounds(
        q,
        s_in,
        e_in,
        offset,
        start_time,
        queue_start,
        later_range.0,
        later_range.1,
    );
}

/// One way a required stream can be known not to need data for the range
/// `[range_start, range_end)`: at end-of-stream; or holding a buffered batch
/// that covers the range start; or provably not starting before the range
/// ends (fixed offset at or past `range_end`, or known start time at or past
/// the instant of `range_end`).
pub open spec fn required_ready_condition(
    inp: AudioQueueInput,
    range_start: u64,
    range_end: u64,
    queue_start: u64,
) -> bool {
    ||| inp.input_samples_processor.eos_received
    ||| (input_pts_spec(inp.offset, start_of(inp), queue_start, range_start) matches Some(p)
        && exists|j: int|
        0 <= j < batch_views(inp.queue@).len() && (#[trigger] batch_views(inp.queue@)[j]).start_pts
            <= p && batch_end(batch_views(inp.queue@)[j]) > p)
    ||| (inp.offset matches Some(o) && o >= range_end)
    ||| (inp.offset is None && (start_of(inp) matches Some(s) && s > queue_start + range_start))
}

/// Law: the all-required readiness check must succeed whenever every
/// required stream is at end-of-stream, has buffered a batch covering the
/// range start, or provably does not start before the range end.
pub proof fn lemma_required_ready_sufficient(
    q: AudioQueue,
    range_start: u64,
    range_end: u64,
    queue_start: u64,
)
    requires
        queue_wf(q),
        range_start < range_end,
        forall|k: int|
            0 <= k < q.inputs@.len() && (#[trigger] q.inputs@[k]).required
                ==> required_ready_condition(q.inputs@[k], range_start, range_end, queue_start),
    ensures
        forall|k: int|
            0 <= k < q.inputs@.len() ==> ((#[trigger] q.inputs@[k]).required ==> input_ready_spec(
                q.inputs@[k],
                range_start,
                queue_start,
            )),
{
    assert forall|k: int|
        0 <= k < q.inputs@.len() && (#[trigger] q.inputs@[k]).required implies input_ready_spec(
        q.inputs@[k],
        range_start,
        queue_start,
    ) by {
        let inp = q.inputs@[k];
        let views = batch_views(inp.queue@);
        if !inp.input_samples_processor.eos_received {
            match input_pts_spec(inp.offset, start_of(inp), queue_start, range_start) {
                Some(p) => {
                    let j = choose|j: int|
                        0 <= j < views.len() && (#[trigger] views[j]).start_pts <= p && batch_end(
                            views[j],
                        ) > p;
                    crate::samples::lemma_ordered_ends(views, j, views.len() - 1);
                },
                None => {},
            }
        }
    }
}

/// A buffer state satisfying the required-readiness condition is ready.
pub proof fn lemma_required_condition_ready(
    inp: AudioQueueInput,
    range_start: u64,
    range_end: u64,
    queue_start: u64,
)
    requires
        batches_wf(batch_views(inp.queue@)),
        range_start < range_end,
        required_ready_condition(inp, range_start, range_end, queue_start),
    ensures
        input_ready_spec(inp, range_start, queue_start),
{
    let views = batch_views(inp.queue@);
    if !inp.input_samples_processor.eos_received {
        match input_pts_spec(inp.offset, start_of(inp), queue_start, range_start) {
            Some(p) => {
                let j = choose|j: int|
                    0 <= j < views.len() && (#[trigger] views[j]).start_pts <= p && batch_end(
                        views[j],
                    ) > p;
                crate::samples::lemma_ordered_ends(views, j, views.len() - 1);
            },
            None => {},
        }
    }
}

/// Law: the required-readiness condition persists across channel progress —
/// filling a buffer from its channel can never lose it.
pub proof fn lemma_required_condition_persists(
    pre: AudioQueueInput,
    post: AudioQueueInput,
    range_start: u64,
    range_end: u64,
    queue_start: u64,
)
    requires
        input_progressed(pre, post),
        required_ready_condition(pre, range_start, range_end, queue_start),
    ensures
        required_ready_condition(post, range_start, range_end, queue_start),
{
    let pre_views = batch_views(pre.queue@);
    let post_views = batch_views(post.queue@);
    if !pre.input_samples_processor.eos_received && !(pre.offset matches Some(o) && o >= range_end)
        && !(pre.offset is None && (start_of(pre) matches Some(st) && st > queue_start
        + range_start)) {
        let p = input_pts_spec(pre.offset, start_of(pre), queue_start, range_start)->0;
        let j = choose|j: int|
            0 <= j < pre_views.len() && (#[trigger] pre_views[j]).start_pts <= p && batch_end(
                pre_views[j],
            ) > p;
        assert(post_views[j] == pre_views[j]);
        assert(input_pts_spec(post.offset, start_of(post), queue_start, range_start) == Some(p));
    }
}

/// Law: the all-required readiness check must return `true` whenever every
/// required stream already satisfied the required-readiness condition before
/// the call, whatever the drain brought in meanwhile. The hypotheses are
/// exactly what `check_all_required_inputs_ready_for_pts` ensures.
pub proof fn lemma_check_all_required_complete(
    pre: AudioQueue,
    post: AudioQueue,
    r: bool,
    range_start: u64,
    range_end: u64,
    queue_start: u64,
)
    requires
        queue_wf(post),
        range_start < range_end,
        post.inputs@.len() == pre.inputs@.len(),
        forall|k: int|
            0 <= k < pre.inputs@.len() ==> input_progressed(
                pre.inputs@[k],
                #[trigger] post.inputs@[k],
            ),
        r == (forall|k: int|
            0 <= k < post.inputs@.len() ==> ((#[trigger] post.inputs@[k]).required
                ==> input_ready_spec(post.inputs@[k], range_start, queue_start))),
        forall|k: int|
            0 <= k < pre.inputs@.len() && (#[trigger] pre.inputs@[k]).required
                ==> required_ready_condition(pre.inputs@[k], range_start, range_end, queue_start),
    ensures
        r,
{
    assert forall|k: int|
        0 <= k < post.inputs@.len() && (#[trigger] post.inputs@[k]).required implies input_ready_spec(
        post.inputs@[k],
        range_start,
        queue_start,
    ) by {
        assert(input_progressed(pre.inputs@[k], post.inputs@[k]));
        assert(pre.inputs@[k].required);
        lemma_required_condition_persists(
            pre.inputs@[k],
            post.inputs@[k],
            range_start,
            range_end,
            queue_start,
        );
        assert(input_wf(post.inputs@[k]));
        lemma_required_condition_ready(post.inputs@[k], range_start, range_end, queue_start);
    }
}

} // verus!
