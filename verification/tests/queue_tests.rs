use compositor_core::audio_queue::{AudioQueue, InputOptions};
use compositor_core::samples::{AudioSamplesBatch, PipelineEvent};
use compositor_core::types::InputId;

const MS: u64 = 1_000_000;

fn batch(start_pts: u64, duration: u64, samples: Vec<i16>) -> AudioSamplesBatch {
    AudioSamplesBatch {
        start_pts,
        duration,
        samples,
    }
}

#[test]
fn fixed_offset_stream_pop_rewrites_pts() {
    // Stream with fixed offset 0 and no buffering: stream-local pts appear
    // unchanged on the queue clock.
    let mut queue = AudioQueue::new(0);
    let id = InputId(1);
    let (tx, rx) = crossbeam_channel::unbounded();
    queue.add_input(
        &id,
        rx,
        InputOptions {
            required: true,
            offset: Some(0),
        },
    );
    tx.send(PipelineEvent::Data(batch(0, 1000 * MS, vec![1, 2, 3])))
        .unwrap();
    let set = queue.pop_samples_set((0, 1000 * MS), 0, 0);
    assert_eq!(set.start_pts, 0);
    assert_eq!(set.end_pts, 1000 * MS);
    assert_eq!(set.samples.len(), 1);
    assert_eq!(set.samples[0].0, id);
    assert_eq!(set.samples[0].1.len(), 1);
    assert_eq!(set.samples[0].1[0].start_pts, 0);
    assert_eq!(set.samples[0].1[0].duration, 1000 * MS);
    assert_eq!(set.samples[0].1[0].samples, vec![1, 2, 3]);
}

#[test]
fn fixed_offset_shifts_queue_pts_by_offset() {
    // queue_pts(t) = t + o: a batch at stream-local 0 with offset 500ms
    // appears at queue pts 500ms.
    let mut queue = AudioQueue::new(0);
    let id = InputId(7);
    let (tx, rx) = crossbeam_channel::unbounded();
    queue.add_input(
        &id,
        rx,
        InputOptions {
            required: true,
            offset: Some(500 * MS),
        },
    );
    tx.send(PipelineEvent::Data(batch(0, 100 * MS, vec![4])))
        .unwrap();
    let set = queue.pop_samples_set((500 * MS, 1000 * MS), 0, 0);
    assert_eq!(set.samples[0].1.len(), 1);
    assert_eq!(set.samples[0].1[0].start_pts, 500 * MS);

    // A range that precedes the offset yields nothing for this stream.
    let set = queue.pop_samples_set((0, 400 * MS), 0, 0);
    assert_eq!(set.samples[0].1.len(), 0);
}

#[test]
fn start_time_stream_maps_onto_queue_clock() {
    // Un-offset stream: once the start time S is known,
    // queue_pts(t) = (S - anchor) + t.
    let queue_start: u64 = 1000 * MS;
    let now: u64 = 1500 * MS; // the stream finishes buffering 500ms after the anchor
    let mut queue = AudioQueue::new(0);
    let id = InputId(2);
    let (tx, rx) = crossbeam_channel::unbounded();
    queue.add_input(
        &id,
        rx,
        InputOptions {
            required: true,
            offset: None,
        },
    );
    // Stream-local clock starts at 5000ms; normalization rebases it to zero.
    tx.send(PipelineEvent::Data(batch(5000 * MS, 100 * MS, vec![9])))
        .unwrap();
    let set = queue.pop_samples_set((500 * MS, 700 * MS), queue_start, now);
    assert_eq!(set.samples[0].1.len(), 1);
    // (S - anchor) + 0 = 500ms.
    assert_eq!(set.samples[0].1[0].start_pts, 500 * MS);
    assert_eq!(set.samples[0].1[0].duration, 100 * MS);
}

#[test]
fn pop_returns_only_overlapping_batches() {
    // Three adjacent batches; the half-open range [100ms, 200ms) takes only
    // the middle one: a batch ending at the range start and one starting at
    // the range end are both excluded.
    let mut queue = AudioQueue::new(0);
    let id = InputId(3);
    let (tx, rx) = crossbeam_channel::unbounded();
    queue.add_input(
        &id,
        rx,
        InputOptions {
            required: true,
            offset: Some(0),
        },
    );
    tx.send(PipelineEvent::Data(batch(0, 100 * MS, vec![1])))
        .unwrap();
    tx.send(PipelineEvent::Data(batch(100 * MS, 100 * MS, vec![2])))
        .unwrap();
    tx.send(PipelineEvent::Data(batch(200 * MS, 100 * MS, vec![3])))
        .unwrap();
    let set = queue.pop_samples_set((100 * MS, 200 * MS), 0, 0);
    assert_eq!(set.samples[0].1.len(), 1);
    assert_eq!(set.samples[0].1[0].start_pts, 100 * MS);
    assert_eq!(set.samples[0].1[0].samples, vec![2]);
}

#[test]
fn later_pop_never_returns_ended_batches() {
    // After popping [0, 150ms), a pop for [150ms, 300ms) returns only
    // batches that end after 150ms, although a batch partially inside the
    // first range was retained.
    let mut queue = AudioQueue::new(0);
    let id = InputId(4);
    let (tx, rx) = crossbeam_channel::unbounded();
    queue.add_input(
        &id,
        rx,
        InputOptions {
            required: true,
            offset: Some(0),
        },
    );
    tx.send(PipelineEvent::Data(batch(0, 100 * MS, vec![1])))
        .unwrap();
    tx.send(PipelineEvent::Data(batch(100 * MS, 100 * MS, vec![2])))
        .unwrap();
    let set = queue.pop_samples_set((0, 150 * MS), 0, 0);
    assert_eq!(set.samples[0].1.len(), 2);
    let set = queue.pop_samples_set((150 * MS, 300 * MS), 0, 0);
    assert_eq!(set.samples[0].1.len(), 1);
    for (_, batches) in &set.samples {
        for b in batches {
            assert!(b.start_pts + b.duration >= 150 * MS);
        }
    }
}

#[test]
fn two_inputs_required_and_optional_offset() {
    // A required with offset 0, B optional with offset 2000ms; requesting
    // [0, 1000ms) before B delivered anything must be ready, and the sample
    // set holds A's data and an empty list for B.
    let mut queue = AudioQueue::new(0);
    let a = InputId(10);
    let b = InputId(11);
    let (tx_a, rx_a) = crossbeam_channel::unbounded();
    let (_tx_b, rx_b) = crossbeam_channel::unbounded::<PipelineEvent<AudioSamplesBatch>>();
    queue.add_input(
        &a,
        rx_a,
        InputOptions {
            required: true,
            offset: Some(0),
        },
    );
    queue.add_input(
        &b,
        rx_b,
        InputOptions {
            required: false,
            offset: Some(2000 * MS),
        },
    );
    tx_a.send(PipelineEvent::Data(batch(0, 1000 * MS, vec![5, 6])))
        .unwrap();
    assert!(queue.check_all_required_inputs_ready_for_pts((0, 1000 * MS), 0, 0));
    assert!(queue.check_all_inputs_ready_for_pts((0, 1000 * MS), 0, 0));
    let set = queue.pop_samples_set((0, 1000 * MS), 0, 0);
    assert_eq!(set.samples.len(), 2);
    assert_eq!(set.samples[0].0, a);
    assert_eq!(set.samples[0].1.len(), 1);
    assert_eq!(set.samples[0].1[0].samples, vec![5, 6]);
    assert_eq!(set.samples[1].0, b);
    assert_eq!(set.samples[1].1.len(), 0);
}

#[test]
fn required_buffering_stream_is_not_ready() {
    // A required un-offset stream that has not delivered anything holds the
    // timeline; an optional one in the same state does not.
    let mut queue = AudioQueue::new(1000 * MS);
    let req = InputId(20);
    let opt = InputId(21);
    let (_tx_r, rx_r) = crossbeam_channel::unbounded::<PipelineEvent<AudioSamplesBatch>>();
    let (_tx_o, rx_o) = crossbeam_channel::unbounded::<PipelineEvent<AudioSamplesBatch>>();
    queue.add_input(
        &req,
        rx_r,
        InputOptions {
            required: true,
            offset: None,
        },
    );
    assert!(!queue.check_all_inputs_ready_for_pts((0, 20 * MS), 0, 0));
    queue.remove_input(&req);
    queue.add_input(
        &opt,
        rx_o,
        InputOptions {
            required: false,
            offset: None,
        },
    );
    assert!(queue.check_all_inputs_ready_for_pts((0, 20 * MS), 0, 0));
}

#[test]
fn eos_stream_is_always_ready() {
    let mut queue = AudioQueue::new(1000 * MS);
    let id = InputId(30);
    let (tx, rx) = crossbeam_channel::unbounded();
    queue.add_input(
        &id,
        rx,
        InputOptions {
            required: true,
            offset: None,
        },
    );
    assert!(!queue.check_all_inputs_ready_for_pts((0, 20 * MS), 0, 0));
    tx.send(PipelineEvent::EOS).unwrap();
    assert!(queue.check_all_inputs_ready_for_pts((0, 20 * MS), 0, 0));
}

#[test]
fn has_pending_required_start_follows_offset() {
    let mut queue = AudioQueue::new(0);
    let id = InputId(40);
    let (_tx, rx) = crossbeam_channel::unbounded::<PipelineEvent<AudioSamplesBatch>>();
    queue.add_input(
        &id,
        rx,
        InputOptions {
            required: true,
            offset: Some(1000 * MS),
        },
    );
    // Before the offset the stream is not due yet; at and after it, it is.
    assert!(!queue.has_required_inputs_for_pts(500 * MS, 0, 0));
    assert!(queue.has_required_inputs_for_pts(1000 * MS, 0, 0));
    assert!(queue.has_required_inputs_for_pts(1500 * MS, 0, 0));
}

#[test]
fn optional_stream_never_pends_start() {
    let mut queue = AudioQueue::new(0);
    let id = InputId(41);
    let (_tx, rx) = crossbeam_channel::unbounded::<PipelineEvent<AudioSamplesBatch>>();
    queue.add_input(
        &id,
        rx,
        InputOptions {
            required: false,
            offset: Some(0),
        },
    );
    assert!(!queue.has_required_inputs_for_pts(500 * MS, 0, 0));
}

#[test]
fn drop_old_samples_evicts_ended_batches() {
    let mut queue = AudioQueue::new(0);
    let id = InputId(50);
    let (tx, rx) = crossbeam_channel::unbounded();
    queue.add_input(
        &id,
        rx,
        InputOptions {
            required: true,
            offset: Some(0),
        },
    );
    tx.send(PipelineEvent::Data(batch(0, 100 * MS, vec![1])))
        .unwrap();
    tx.send(PipelineEvent::Data(batch(100 * MS, 100 * MS, vec![2])))
        .unwrap();
    // Fill the buffer, then skip the timeline ahead of the first batch.
    assert!(queue.check_all_inputs_ready_for_pts((0, 10 * MS), 0, 0));
    queue.drop_old_samples(150 * MS, 0);
    let set = queue.pop_samples_set((0, 1000 * MS), 0, 0);
    assert_eq!(set.samples[0].1.len(), 1);
    assert_eq!(set.samples[0].1[0].samples, vec![2]);
}

#[test]
fn add_input_twice_replaces_buffer() {
    let mut queue = AudioQueue::new(0);
    let id = InputId(60);
    let (tx1, rx1) = crossbeam_channel::unbounded();
    queue.add_input(
        &id,
        rx1,
        InputOptions {
            required: true,
            offset: Some(0),
        },
    );
    tx1.send(PipelineEvent::Data(batch(0, 100 * MS, vec![1])))
        .unwrap();
    assert!(queue.check_all_inputs_ready_for_pts((0, 10 * MS), 0, 0));
    // Re-registering the same identity discards the earlier buffer (last
    // write wins).
    let (_tx2, rx2) = crossbeam_channel::unbounded::<PipelineEvent<AudioSamplesBatch>>();
    queue.add_input(
        &id,
        rx2,
        InputOptions {
            required: true,
            offset: Some(0),
        },
    );
    let set = queue.pop_samples_set((0, 1000 * MS), 0, 0);
    assert_eq!(set.samples.len(), 1);
    assert_eq!(set.samples[0].1.len(), 0);
}

#[test]
fn partially_overlapping_batch_is_returned_but_retained() {
    // A batch only partially inside the range is returned yet kept, so a
    // later overlapping query still sees it.
    let mut queue = AudioQueue::new(0);
    let id = InputId(61);
    let (tx, rx) = crossbeam_channel::unbounded();
    queue.add_input(
        &id,
        rx,
        InputOptions {
            required: true,
            offset: Some(0),
        },
    );
    tx.send(PipelineEvent::Data(batch(0, 200 * MS, vec![8])))
        .unwrap();
    let set = queue.pop_samples_set((0, 100 * MS), 0, 0);
    assert_eq!(set.samples[0].1.len(), 1);
    let set = queue.pop_samples_set((100 * MS, 200 * MS), 0, 0);
    assert_eq!(set.samples[0].1.len(), 1);
    assert_eq!(set.samples[0].1[0].samples, vec![8]);
}

#[test]
fn remove_unknown_input_is_harmless() {
    let mut queue = AudioQueue::new(0);
    queue.remove_input(&InputId(99));
    let set = queue.pop_samples_set((0, 1000 * MS), 0, 0);
    assert_eq!(set.samples.len(), 0);
}

#[test]
fn still_buffering_stream_contributes_nothing() {
    // Un-offset stream with a large buffer: until enough content is
    // absorbed, it is not started and pops are empty.
    let mut queue = AudioQueue::new(1000 * MS);
    let id = InputId(70);
    let (tx, rx) = crossbeam_channel::unbounded();
    queue.add_input(
        &id,
        rx,
        InputOptions {
            required: true,
            offset: None,
        },
    );
    tx.send(PipelineEvent::Data(batch(0, 100 * MS, vec![1])))
        .unwrap();
    let set = queue.pop_samples_set((0, 500 * MS), 0, 0);
    assert_eq!(set.samples[0].1.len(), 0);
    // Enough content arrives: the stream starts (start time = `now`), and
    // its content appears rebased to stream-local zero.
    tx.send(PipelineEvent::Data(batch(100 * MS, 900 * MS, vec![2])))
        .unwrap();
    let set = queue.pop_samples_set((0, 2000 * MS), 0, 0);
    assert_eq!(set.samples[0].1.len(), 2);
    assert_eq!(set.samples[0].1[0].start_pts, 0);
    assert_eq!(set.samples[0].1[1].start_pts, 100 * MS);
}
