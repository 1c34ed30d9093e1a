//! Buffering/normalization stage of one input stream.
//!
//! The stage absorbs the first batches of a stream until their accumulated
//! duration reaches the configured buffer duration. At that moment the
//! stream's start time becomes known — the wall-clock instant at which the
//! stream's local timestamp zero is considered to have occurred — and the
//! absorbed batches are released with their timestamps rebased so that the
//! first absorbed batch starts at zero. Later batches are rebased the same
//! way. The stage also records end-of-stream for its input.

use vstd::prelude::*;

use crate::samples::{
    batch_views, batch_wf, event_view, AudioSamplesBatch, BatchModel, PipelineEvent,
    PipelineEventModel,
};

verus! {

/// Once a stream has started: the wall-clock instant of its local zero and
/// the stream-local timestamp that was rebased onto zero.
#[derive(Clone, Copy, Debug, PartialEq, Eq, Structural)]
pub struct StreamStart {
    /// Wall-clock instant (nanoseconds since the process epoch) at which the
    /// stream's rebased timestamp zero occurred.
    pub start_time: u64,
    /// Stream-local timestamp of the first absorbed batch; subtracted from
    /// every later timestamp.
    pub base_pts: u64,
}

/// Buffering/normalization stage of one input stream.
pub struct InputProcessor {
    /// How much content to absorb before the stream counts as started.
    pub buffer_duration: u64,
    /// Known once buffering is done; `None` while the stream is buffering.
    pub start: Option<StreamStart>,
    /// An end-of-stream marker has been received.
    pub eos_received: bool,
    /// Batches absorbed while buffering, in arrival order.
    pub buffer: Vec<AudioSamplesBatch>,
    /// Accumulated duration of the absorbed batches, saturating.
    pub buffered_duration: u64,
}

/// Spec-level image of the stage.
#[verifier::ext_equal]
pub ghost struct ProcessorModel {
    pub buffer_duration: u64,
    pub start: Option<StreamStart>,
    pub eos_received: bool,
    pub buffer: Seq<BatchModel>,
    pub buffered_duration: u64,
}

impl View for InputProcessor {
    type V = ProcessorModel;

    open spec fn view(&self) -> ProcessorModel {
        ProcessorModel {
            buffer_duration: self.buffer_duration,
            start: self.start,
            eos_received: self.eos_received,
            buffer: batch_views(self.buffer@),
            buffered_duration: self.buffered_duration,
        }
    }
}

/// Saturating addition on timestamp values.
pub open spec fn sat_add(a: int, b: int) -> int {
    if a + b > u64::MAX {
        u64::MAX as int
    } else {
        a + b
    }
}

/// A batch rebased by `base`: its start moves down by `base` and its
/// duration is clamped so the end timestamp still fits the timestamp type.
pub open spec fn shifted_batch(b: BatchModel, base: int) -> BatchModel {
    let s = b.start_pts - base;
    BatchModel {
        start_pts: s,
        duration: if b.duration > u64::MAX - s {
            u64::MAX - s
        } else {
            b.duration
        },
        samples: b.samples,
    }
}

/// All batches of `q` rebased by `base`, keeping order; a batch starting
/// before `base` is out-of-order leading content and is dropped.
pub open spec fn shift_all(q: Seq<BatchModel>, base: int) -> Seq<BatchModel>
    decreases q.len(),
{
    if q.len() == 0 {
        Seq::empty()
    } else {
        let rest = shift_all(q.drop_first(), base);
        if q[0].start_pts >= base {
            seq![shifted_batch(q[0], base)] + rest
        } else {
            rest
        }
    }
}

/// Appending one batch to a run commutes with rebasing the run.
pub proof fn lemma_shift_all_push(q: Seq<BatchModel>, base: int, x: BatchModel)
    ensures
        shift_all(q.push(x), base) == shift_all(q, base) + (if x.start_pts >= base {
            seq![shifted_batch(x, base)]
        } else {
            Seq::<BatchModel>::empty()
        }),
    decreases q.len(),
{
    let tail = if x.start_pts >= base {
        seq![shifted_batch(x, base)]
    } else {
        Seq::<BatchModel>::empty()
    };
    if q.len() == 0 {
        assert(q.push(x).drop_first() =~= q);
        assert(shift_all(q.push(x), base) =~= shift_all(q, base) + tail);
    } else {
        assert(q.push(x).drop_first() =~= q.drop_first().push(x));
        lemma_shift_all_push(q.drop_first(), base, x);
        assert(shift_all(q.push(x), base) =~= shift_all(q, base) + tail);
    }
}

/// Rebased batches of a machine-valued run are well formed.
pub proof fn lemma_shift_all_wf(q: Seq<BatchModel>, base: int)
    requires
        0 <= base,
        forall|i: int|
            0 <= i < q.len() ==> 0 <= (#[trigger] q[i]).start_pts <= u64::MAX && 0 <= q[i].duration,
    ensures
        forall|i: int|
            0 <= i < shift_all(q, base).len() ==> batch_wf(#[trigger] shift_all(q, base)[i]),
    decreases q.len(),
{
    if q.len() > 0 {
        lemma_shift_all_wf(q.drop_first(), base);
        let rest = shift_all(q.drop_first(), base);
        if q[0].start_pts >= base {
            assert(batch_wf(shifted_batch(q[0], base)));
            assert forall|i: int| 0 <= i < shift_all(q, base).len() implies batch_wf(
                #[trigger] shift_all(q, base)[i],
            ) by {
                if i > 0 {
                    assert(shift_all(q, base)[i] == rest[i - 1]);
                }
            }
        }
    }
}

/// How one delivery-channel event moves the stage: the stage's state after
/// the event, and the batches it releases for the stream's FIFO.
///
/// An end-of-stream marker is recorded and discards content still held for
/// buffering. While the stream is buffering, data is absorbed; the batch
/// whose arrival makes the absorbed duration reach `buffer_duration` sets
/// the start time to `now` and releases everything absorbed, rebased by the
/// first absorbed batch's timestamp. Once started, each batch is released
/// rebased the same way.
pub open spec fn processor_step(
    pre: ProcessorModel,
    now: u64,
    event: PipelineEventModel,
) -> (ProcessorModel, Seq<BatchModel>) {
    match event {
        PipelineEventModel::EOS => (
            ProcessorModel {
                eos_received: true,
                buffer: Seq::empty(),
                buffered_duration: 0,
                ..pre
            },
            Seq::empty(),
        ),
        PipelineEventModel::Data(b) => match pre.start {
            Some(st) => (pre, shift_all(seq![b], st.base_pts as int)),
            None => {
                let absorbed = pre.buffer.push(b);
                let grown = sat_add(pre.buffered_duration as int, b.duration);
                if grown >= pre.buffer_duration {
                    let base = absorbed[0].start_pts;
                    (
                        ProcessorModel {
                            start: Some(
                                StreamStart { start_time: now, base_pts: base as u64 },
                            ),
                            buffer: Seq::empty(),
                            buffered_duration: 0,
                            ..pre
                        },
                        shift_all(absorbed, base),
                    )
                } else {
                    (
                        ProcessorModel {
                            buffer: absorbed,
                            buffered_duration: grown as u64,
                            ..pre
                        },
                        Seq::empty(),
                    )
                }
            },
        },
    }
}

/// A batch rebased for release, as an executable step.
fn shift_batch_exec(b: AudioSamplesBatch, base: u64) -> (r: AudioSamplesBatch)
    requires
        b.start_pts >= base,
    ensures
        r@ == shifted_batch(b@, base as int),
{
    let s = b.start_pts - base;
    let d = if b.duration > u64::MAX - s {
        u64::MAX - s
    } else {
        b.duration
    };
    AudioSamplesBatch { start_pts: s, duration: d, samples: b.samples }
}

impl InputProcessor {
    /// A fresh stage: still buffering, no end-of-stream seen.
    pub fn new(buffer_duration: u64) -> (r: InputProcessor)
        ensures
            r.buffer_duration == buffer_duration,
            r.start is None,
            !r.eos_received,
            r.buffer@.len() == 0,
            r.buffered_duration == 0,
    {
        InputProcessor {
            buffer_duration,
            start: None,
            eos_received: false,
            buffer: Vec::new(),
            buffered_duration: 0,
        }
    }

    /// The stream's start time, once buffering has determined it.
    pub fn start_time(&self) -> (r: Option<u64>)
        ensures
            r is Some <==> self.start is Some,
            self.start matches Some(st) ==> r == Some(st.start_time),
    {
        match self.start {
            Some(st) => Some(st.start_time),
            None => None,
        }
    }

    /// Whether this input has signaled end-of-stream.
    pub fn did_receive_eos(&self) -> (r: bool)
        ensures
            r == self.eos_received,
    {
        self.eos_received
    }

    /// Feed one delivery-channel event through the stage at wall-clock
    /// instant `now`; the returned batches (zero or more) are ready for the
    /// stream's queue, rebased so the stream starts at timestamp zero.
    ///
    /// An end-of-stream marker is recorded and discards content still held
    /// for buffering. While the stream is buffering, data is absorbed until
    /// the accumulated duration reaches `buffer_duration`; the batch
    /// completing the buffer sets the start time to `now` and releases
    /// everything absorbed. Once started, each batch is released rebased,
    /// except out-of-order content from before the stream's first batch,
    /// which is dropped.
    pub fn process_new_chunk(&mut self, now: u64, event: PipelineEvent<AudioSamplesBatch>) -> (out:
        Vec<AudioSamplesBatch>)
        ensures
            final(self)@ == processor_step(old(self)@, now, event_view(event)).0,
            batch_views(out@) == processor_step(old(self)@, now, event_view(event)).1,
            final(self).buffer_duration == old(self).buffer_duration,
            forall|k: int| 0 <= k < out@.len() ==> batch_wf(#[trigger] out@[k]@),
            final(self).start is None ==> out@.len() == 0,
            old(self).start matches Some(st) ==> final(self).start == Some(st),
            match event {
                PipelineEvent::EOS => {
                    &&& final(self).eos_received
                    &&& final(self).start == old(self).start
                    &&& final(self).buffer@.len() == 0
                    &&& final(self).buffered_duration == 0
                    &&& out@.len() == 0
                },
                PipelineEvent::Data(b) => {
                    &&& final(self).eos_received == old(self).eos_received
                    &&& match old(self).start {
                        Some(st) => {
                            &&& final(self).start == old(self).start
                            &&& final(self).buffer@ == old(self).buffer@
                            &&& final(self).buffered_duration == old(self).buffered_duration
                            &&& batch_views(out@) == shift_all(seq![b@], st.base_pts as int)
                        },
                        None => {
                            let absorbed = batch_views(old(self).buffer@).push(b@);
                            let grown = sat_add(old(self).buffered_duration as int, b.duration as int);
                            if grown >= old(self).buffer_duration {
                                let base = absorbed[0].start_pts;
                                &&& final(self).start == Some(
                                    (StreamStart { start_time: now, base_pts: base as u64 }),
                                )
                                &&& final(self).buffer@.len() == 0
                                &&& final(self).buffered_duration == 0
                                &&& batch_views(out@) == shift_all(absorbed, base)
                            } else {
                                &&& final(self).start is None
                                &&& batch_views(final(self).buffer@) == absorbed
                                &&& final(self).buffered_duration == grown
                                &&& out@.len() == 0
                            }
                        },
                    }
                },
            },
    {
        match event {
            PipelineEvent::EOS => {
                self.eos_received = true;
                self.buffer = Vec::new();
                self.buffered_duration = 0;
                Vec::new()
            },
            PipelineEvent::Data(b) => {
                match self.start {
                    Some(st) => {
                        let mut out: Vec<AudioSamplesBatch> = Vec::new();
                        let ghost bm = b@;
                        if b.start_pts >= st.base_pts {
                            out.push(shift_batch_exec(b, st.base_pts));
                        }
                        proof {
                            let base = st.base_pts as int;
                            assert(seq![bm].drop_first() =~= Seq::<BatchModel>::empty());
                            assert(shift_all(Seq::<BatchModel>::empty(), base)
                                == Seq::<BatchModel>::empty());
                            assert(shift_all(seq![bm], base) == (if bm.start_pts >= base {
                                seq![shifted_batch(bm, base)] + Seq::<BatchModel>::empty()
                            } else {
                                Seq::<BatchModel>::empty()
                            }));
                            if bm.start_pts >= base {
                                assert(batch_views(out@) =~= seq![shifted_batch(bm, base)]
                                    + Seq::<BatchModel>::empty());
                                assert(batch_views(out@) =~= shift_all(seq![bm], base));
                            } else {
                                assert(batch_views(out@) =~= shift_all(seq![bm], base));
                            }
                            lemma_shift_all_wf(seq![bm], base);
                        }
                        out
                    },
                    None => {
                        let grown = if self.buffered_duration > u64::MAX - b.duration {
                            u64::MAX
                        } else {
                            self.buffered_duration + b.duration
                        };
                        let ghost bm = b@;
                        self.buffer.push(b);
                        proof {
                            assert(batch_views(self.buffer@) =~= batch_views(
                                old(self).buffer@,
                            ).push(bm));
                        }
                        if grown >= self.buffer_duration {
                            let ghost absorbed_vec = self.buffer@;
                            let ghost absorbed = batch_views(self.buffer@);
                            let base = self.buffer[0].start_pts;
                            self.start = Some(StreamStart { start_time: now, base_pts: base });
                            self.buffered_duration = 0;
                            let mut out: Vec<AudioSamplesBatch> = Vec::new();
                            proof {
                                assert(batch_views(out@) + shift_all(
                                    batch_views(self.buffer@),
                                    base as int,
                                ) =~= shift_all(absorbed, base as int));
                            }
                            while self.buffer.len() > 0
                                invariant
                                    self.buffer_duration == old(self).buffer_duration,
                                    self.start == Some(
                                        (StreamStart { start_time: now, base_pts: base }),
                                    ),
                                    self.eos_received == old(self).eos_received,
                                    self.buffered_duration == 0,
                                    batch_views(out@) + shift_all(
                                        batch_views(self.buffer@),
                                        base as int,
                                    ) == shift_all(absorbed, base as int),
                                decreases self.buffer@.len(),
                            {
                                let ghost views_before = batch_views(self.buffer@);
                                let ghost out_before = batch_views(out@);
                                let nb = self.buffer.remove(0);
                                let ghost head = (if views_before[0].start_pts >= base as int {
                                    seq![shifted_batch(views_before[0], base as int)]
                                } else {
                                    Seq::<BatchModel>::empty()
                                });
                                proof {
                                    assert(batch_views(self.buffer@) =~= views_before.drop_first());
                                    assert(nb@ == views_before[0]);
                                    assert(shift_all(views_before, base as int) == head + shift_all(
                                        views_before.drop_first(),
                                        base as int,
                                    ));
                                }
                                if nb.start_pts >= base {
                                    out.push(shift_batch_exec(nb, base));
                                    proof {
                                        assert(batch_views(out@) =~= out_before + head);
                                    }
                                } else {
                                    proof {
                                        assert(batch_views(out@) =~= out_before + head);
                                    }
                                }
                                proof {
                                    assert((out_before + head) + shift_all(
                                        views_before.drop_first(),
                                        base as int,
                                    ) =~= out_before + (head + shift_all(
                                        views_before.drop_first(),
                                        base as int,
                                    )));
                                    assert(batch_views(out@) + shift_all(
                                        batch_views(self.buffer@),
                                        base as int,
                                    ) =~= shift_all(absorbed, base as int));
                                }
                            }
                            proof {
                                assert(batch_views(self.buffer@) =~= Seq::<BatchModel>::empty());
                                assert(batch_views(out@) =~= shift_all(absorbed, base as int));
                                assert forall|i: int| 0 <= i < absorbed.len() implies 0 <= (
                                #[trigger] absorbed[i]).start_pts <= u64::MAX && 0
                                    <= absorbed[i].duration by {
                                    assert(absorbed[i] == absorbed_vec[i]@);
                                }
                                lemma_shift_all_wf(absorbed, base as int);
                                assert forall|k: int| 0 <= k < out@.len() implies batch_wf(
                                    #[trigger] out@[k]@,
                                ) by {
                                    assert(out@[k]@ == batch_views(out@)[k]);
                                    assert(batch_views(out@)[k] == shift_all(
                                        absorbed,
                                        base as int,
                                    )[k]);
                                }
                            }
                            out
                        } else {
                            self.buffered_duration = grown;
                            Vec::new()
                        }
                    },
                }
            },
        }
    }
}

} // verus!
