use compositor_core::packet_stream::PacketStream;
use compositor_core::payloader::{
    EncodedChunk, EncoderOutputEvent, MediaKind, Payloader, PayloadingError,
};

fn video_chunk(data: Vec<u8>) -> EncoderOutputEvent {
    EncoderOutputEvent::Data(EncodedChunk {
        data,
        kind: MediaKind::Video,
    })
}

fn audio_chunk(data: Vec<u8>) -> EncoderOutputEvent {
    EncoderOutputEvent::Data(EncodedChunk {
        data,
        kind: MediaKind::Audio,
    })
}

#[test]
fn data_chunk_yields_ceil_n_over_m_packets_in_order() {
    // 10 bytes under max_size 3: ceil(10/3) = 4 packets whose concatenation
    // reconstructs the payload, each at most 3 bytes.
    let data: Vec<u8> = vec![0, 1, 2, 3, 4, 5, 6, 7, 8, 9];
    let (tx, rx) = crossbeam_channel::unbounded();
    let mut stream = PacketStream::new(rx, Payloader::new(true, true), 3);
    tx.send(video_chunk(data.clone())).unwrap();
    drop(tx);

    let mut collected: Vec<u8> = Vec::new();
    let mut count = 0;
    loop {
        match stream.next() {
            Some(Ok(packet)) => {
                if packet.data.is_empty() {
                    // End-of-stream packets after the channel closed.
                    continue;
                }
                assert!(packet.data.len() <= 3);
                collected.extend_from_slice(&packet.data);
                count += 1;
            }
            Some(Err(e)) => panic!("unexpected payloading failure: {:?}", e),
            None => break,
        }
    }
    assert_eq!(count, 4);
    assert_eq!(collected, data);
}

#[test]
fn empty_chunk_yields_one_empty_packet() {
    let (tx, rx) = crossbeam_channel::unbounded();
    let mut stream = PacketStream::new(rx, Payloader::new(false, false), 5);
    tx.send(audio_chunk(Vec::new())).unwrap();
    let first = stream.next();
    match first {
        Some(Ok(packet)) => assert!(packet.data.is_empty()),
        other => panic!("expected one empty packet, got {:?}", other.is_some()),
    }
    drop(tx);
    assert!(stream.next().is_none());
}

#[test]
fn audio_eos_twice_yields_success_then_error() {
    let (tx, rx) = crossbeam_channel::unbounded();
    let mut stream = PacketStream::new(rx, Payloader::new(true, true), 1400);
    tx.send(EncoderOutputEvent::AudioEOS).unwrap();
    tx.send(EncoderOutputEvent::AudioEOS).unwrap();
    match stream.next() {
        Some(Ok(packet)) => assert!(packet.data.is_empty()),
        _ => panic!("first audio EOS must yield the audio EOS packet"),
    }
    match stream.next() {
        Some(Err(PayloadingError::AudioEOSAlreadySent)) => {}
        _ => panic!("second audio EOS must surface AudioEOSAlreadySent"),
    }
}

#[test]
fn video_eos_twice_yields_success_then_error() {
    let (tx, rx) = crossbeam_channel::unbounded();
    let mut stream = PacketStream::new(rx, Payloader::new(true, true), 1400);
    tx.send(EncoderOutputEvent::VideoEOS).unwrap();
    tx.send(EncoderOutputEvent::VideoEOS).unwrap();
    assert!(matches!(stream.next(), Some(Ok(_))));
    match stream.next() {
        Some(Err(PayloadingError::VideoEOSAlreadySent)) => {}
        _ => panic!("second video EOS must surface VideoEOSAlreadySent"),
    }
}

#[test]
fn channel_close_synthesizes_video_eos() {
    // One video data chunk, then the channel closes without any EOS marker:
    // the stream still terminates cleanly, synthesizing the video EOS packet.
    let (tx, rx) = crossbeam_channel::unbounded();
    let mut stream = PacketStream::new(rx, Payloader::new(false, true), 1400);
    tx.send(video_chunk(vec![1, 2, 3])).unwrap();
    drop(tx);
    match stream.next() {
        Some(Ok(packet)) => assert_eq!(packet.data, vec![1, 2, 3]),
        _ => panic!("expected the data packet"),
    }
    match stream.next() {
        Some(Ok(packet)) => assert!(packet.data.is_empty()),
        _ => panic!("expected the synthesized video EOS packet"),
    }
    assert!(stream.next().is_none());
    assert!(stream.next().is_none());
}

#[test]
fn channel_close_without_eos_packets_ends_immediately() {
    // A strategy that owes no EOS packet at all: closing ends the sequence
    // right away.
    let (tx, rx) = crossbeam_channel::unbounded();
    let mut stream = PacketStream::new(rx, Payloader::new(false, false), 1400);
    tx.send(video_chunk(vec![7])).unwrap();
    drop(tx);
    assert!(matches!(stream.next(), Some(Ok(_))));
    assert!(stream.next().is_none());
}

#[test]
fn channel_close_accounts_audio_before_video() {
    let (tx, rx) = crossbeam_channel::unbounded::<EncoderOutputEvent>();
    let mut stream = PacketStream::new(rx, Payloader::new(true, true), 1400);
    drop(tx);
    // Audio EOS first, then video EOS, then the end of the sequence.
    assert!(matches!(stream.next(), Some(Ok(_))));
    assert!(matches!(stream.next(), Some(Ok(_))));
    assert!(stream.next().is_none());
}

#[test]
fn zero_max_size_surfaces_error_and_stream_stays_usable() {
    let (tx, rx) = crossbeam_channel::unbounded();
    let mut stream = PacketStream::new(rx, Payloader::new(true, false), 0);
    tx.send(audio_chunk(vec![1, 2])).unwrap();
    tx.send(EncoderOutputEvent::AudioEOS).unwrap();
    match stream.next() {
        Some(Err(PayloadingError::ZeroMaxPacketSize)) => {}
        _ => panic!("a zero size limit must fail packet construction"),
    }
    // The failure poisons nothing: the next pull resumes normal operation.
    assert!(matches!(stream.next(), Some(Ok(_))));
}
