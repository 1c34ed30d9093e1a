//! Sample batches and their spec-level model.
//!
//! A batch is a contiguous, ordered run of decoded audio samples for one
//! stream, carrying a start timestamp and a duration; its end timestamp is
//! `start + duration`. Timestamps are nanosecond counts (stream-local until a
//! queue reconciles them).

use vstd::prelude::*;

verus! {

/// What a delivery channel yields for one input stream: a data batch or an
/// end-of-stream marker.
pub enum PipelineEvent<T> {
    Data(T),
    EOS,
}

/// A contiguous run of decoded samples with a start timestamp and duration.
pub struct AudioSamplesBatch {
    /// Start timestamp: duration since the owning stream's origin (or since
    /// queue-clock zero once reconciled), in nanoseconds.
    pub start_pts: u64,
    /// Duration covered by `samples`, in nanoseconds.
    pub duration: u64,
    /// The decoded samples themselves.
    pub samples: Vec<i16>,
}

/// Spec-level image of a batch.
pub ghost struct BatchModel {
    pub start_pts: int,
    pub duration: int,
    pub samples: Seq<i16>,
}

impl View for AudioSamplesBatch {
    type V = BatchModel;

    open spec fn view(&self) -> BatchModel {
        BatchModel {
            start_pts: self.start_pts as int,
            duration: self.duration as int,
            samples: self.samples@,
        }
    }
}

/// Spec-level image of one delivery-channel event.
pub ghost enum PipelineEventModel {
    Data(BatchModel),
    EOS,
}

/// Spec-level image of a delivery-channel event.
pub open spec fn event_view(e: PipelineEvent<AudioSamplesBatch>) -> PipelineEventModel {
    match e {
        PipelineEvent::Data(b) => PipelineEventModel::Data(b@),
        PipelineEvent::EOS => PipelineEventModel::EOS,
    }
}

/// End timestamp of a batch: one past the last instant it covers.
pub open spec fn batch_end(b: BatchModel) -> int {
    b.start_pts + b.duration
}

/// A batch is well formed when its timestamps mirror machine values and its
/// end timestamp still fits the timestamp type.
pub open spec fn batch_wf(b: BatchModel) -> bool {
    &&& 0 <= b.start_pts
    &&& 0 <= b.duration
    &&& batch_end(b) <= u64::MAX
}

/// Spec-level image of a run of batches.
pub open spec fn batch_views(q: Seq<AudioSamplesBatch>) -> Seq<BatchModel> {
    q.map_values(|b: AudioSamplesBatch| b@)
}

/// Batches ordered by start timestamp and non-overlapping: each batch ends no
/// later than the next one starts.
pub open spec fn batches_ordered(q: Seq<BatchModel>) -> bool {
    forall|i: int| 0 <= i && i + 1 < q.len() ==> batch_end(q[i]) <= #[trigger] q[i + 1].start_pts
}

/// Well-formed buffered run: every batch well formed, ordered,
/// non-overlapping.
pub open spec fn batches_wf(q: Seq<BatchModel>) -> bool {
    &&& forall|i: int| 0 <= i < q.len() ==> batch_wf(#[trigger] q[i])
    &&& batches_ordered(q)
}

/// In an ordered run, end timestamps are non-decreasing; in particular no
/// batch ends after the last one.
pub proof fn lemma_ordered_ends(q: Seq<BatchModel>, i: int, j: int)
    requires
        batches_wf(q),
        0 <= i <= j < q.len(),
    ensures
        batch_end(q[i]) <= batch_end(q[j]),
    decreases j - i,
{
    if i < j {
        lemma_ordered_ends(q, i + 1, j);
        assert(batch_end(q[i]) <= q[i + 1].start_pts);
    }
}

impl AudioSamplesBatch {
    /// End timestamp of this batch.
    pub fn end_pts(&self) -> (r: u64)
        requires
            batch_wf(self@),
        ensures
            r == batch_end(self@),
    {
        self.start_pts + self.duration
    }
}

/// The reconciled result of one tick: for every registered stream, the
/// batches that intersect the requested range, timestamps rewritten onto the
/// queue clock, paired with the range itself.
pub struct AudioSamplesSet {
    /// One entry per registered input, in registration order.
    pub samples: Vec<(crate::types::InputId, Vec<AudioSamplesBatch>)>,
    /// Start of the requested range on the queue clock.
    pub start_pts: u64,
    /// End of the requested range on the queue clock.
    pub end_pts: u64,
}

} // verus!
