//! Payloading strategy: turns encoder output chunks into size-bounded
//! transport packets and hands out at most one end-of-stream packet per media
//! kind.

use vstd::prelude::*;

verus! {

/// Media kind of an encoded chunk.
#[derive(Clone, Copy, Debug, PartialEq, Eq, Structural)]
pub enum MediaKind {
    Audio,
    Video,
}

/// A chunk of already-encoded media data tagged with its stream kind.
pub struct EncodedChunk {
    pub data: Vec<u8>,
    pub kind: MediaKind,
}

/// One event produced by the encoding stage: a data chunk or an end-of-stream
/// marker for one media kind.
pub enum EncoderOutputEvent {
    Data(EncodedChunk),
    AudioEOS,
    VideoEOS,
}

/// An immutable, size-bounded byte buffer ready for transport-layer send.
pub struct Packet {
    pub data: Vec<u8>,
}

/// Strategy-level failure to build a packet.
#[derive(Clone, Copy, Debug, PartialEq, Eq, Structural)]
pub enum PayloadingError {
    /// An audio end-of-stream marker arrived although the audio end-of-stream
    /// packet was already handed out.
    AudioEOSAlreadySent,
    /// A video end-of-stream marker arrived although the video end-of-stream
    /// packet was already handed out.
    VideoEOSAlreadySent,
    /// No packet fits under a size limit of zero.
    ZeroMaxPacketSize,
}

/// Payloading strategy with one-shot end-of-stream semantics, shared between
/// the media kinds it was configured for.
#[derive(Clone, Copy, Debug, PartialEq, Eq, Structural)]
pub struct Payloader {
    /// The strategy payloads an audio track and owes one audio EOS packet.
    pub has_audio: bool,
    /// The strategy payloads a video track and owes one video EOS packet.
    pub has_video: bool,
    /// The audio end-of-stream packet was already handed out.
    pub audio_eos_sent: bool,
    /// The video end-of-stream packet was already handed out.
    pub video_eos_sent: bool,
}

/// The packets one data chunk yields under size limit `max_size`: the chunk's
/// payload cut into maximal runs of at most `max_size` bytes, in order. An
/// empty chunk still yields one (empty) packet.
pub open spec fn chunk_packets(data: Seq<u8>, max_size: int) -> Seq<Seq<u8>>
    decreases data.len(),
{
    if max_size <= 0 {
        Seq::empty()
    } else if data.len() <= max_size {
        seq![data]
    } else {
        seq![data.subrange(0, max_size)] + chunk_packets(
            data.subrange(max_size, data.len() as int),
            max_size,
        )
    }
}

/// Concatenation of a sequence of packet payloads.
pub open spec fn concat_payloads(ps: Seq<Seq<u8>>) -> Seq<u8>
    decreases ps.len(),
{
    if ps.len() == 0 {
        Seq::empty()
    } else {
        ps[0] + concat_payloads(ps.drop_first())
    }
}

/// The payloads of a sequence of packets.
pub open spec fn payloads_of(ps: Seq<Packet>) -> Seq<Seq<u8>> {
    ps.map_values(|p: Packet| p.data@)
}

/// Law: cutting a chunk into packets loses and reorders nothing — the
/// concatenation of the packet payloads is the chunk itself.
pub proof fn lemma_chunk_packets_concat(data: Seq<u8>, max_size: int)
    requires
        max_size >= 1,
    ensures
        concat_payloads(chunk_packets(data, max_size)) == data,
    decreases data.len(),
{
    if data.len() <= max_size {
        let ps = chunk_packets(data, max_size);
        assert(ps =~= seq![data]);
        assert(ps.drop_first() =~= Seq::<Seq<u8>>::empty());
        assert(concat_payloads(Seq::<Seq<u8>>::empty()) == Seq::<u8>::empty());
        assert(concat_payloads(ps) == ps[0] + concat_payloads(ps.drop_first()));
        assert(data + Seq::<u8>::empty() =~= data);
    } else {
        let head = data.subrange(0, max_size);
        let tail = data.subrange(max_size, data.len() as int);
        lemma_chunk_packets_concat(tail, max_size);
        assert(chunk_packets(data, max_size).drop_first() =~= chunk_packets(tail, max_size));
        assert(concat_payloads(chunk_packets(data, max_size)) =~= head + tail);
        assert(head + tail =~= data);
    }
}

/// Law: a chunk of `n > 0` bytes under size limit `m` yields exactly
/// `ceil(n / m)` packets; an empty chunk yields one.
pub proof fn lemma_chunk_packets_count(data: Seq<u8>, max_size: int)
    requires
        max_size >= 1,
    ensures
        data.len() == 0 ==> chunk_packets(data, max_size).len() == 1,
        data.len() > 0 ==> chunk_packets(data, max_size).len() == (data.len() + max_size - 1)
            / max_size,
    decreases data.len(),
{
    if data.len() <= max_size {
        if data.len() > 0 {
            assert((data.len() + max_size - 1) / max_size == 1) by (nonlinear_arith)
                requires
                    max_size >= 1,
                    0 < data.len() <= max_size,
            ;
        }
    } else {
        let tail = data.subrange(max_size, data.len() as int);
        lemma_chunk_packets_count(tail, max_size);
        assert(tail.len() == data.len() - max_size);
        assert((data.len() - max_size + max_size - 1) / max_size + 1 == (data.len() + max_size - 1)
            / max_size) by (nonlinear_arith)
            requires
                max_size >= 1,
                data.len() > max_size,
        ;
    }
}

/// Every packet of a chunk carries at most `max_size` bytes.
pub proof fn lemma_chunk_packets_sizes(data: Seq<u8>, max_size: int)
    requires
        max_size >= 1,
    ensures
        forall|i: int|
            0 <= i < chunk_packets(data, max_size).len() ==> #[trigger] chunk_packets(
                data,
                max_size,
            )[i].len() <= max_size,
    decreases data.len(),
{
    let ps = chunk_packets(data, max_size);
    if data.len() <= max_size {
        assert(ps =~= seq![data]);
        assert(ps[0].len() <= max_size);
    } else {
        let tail = data.subrange(max_size, data.len() as int);
        lemma_chunk_packets_sizes(tail, max_size);
        assert forall|i: int| 0 <= i < ps.len() implies #[trigger] ps[i].len() <= max_size by {
            if i > 0 {
                assert(ps[i] == chunk_packets(tail, max_size)[i - 1]);
            }
        }
    }
}

impl Payloader {
    /// A fresh strategy for the given media kinds; no end-of-stream packet has
    /// been handed out yet.
    pub fn new(has_audio: bool, has_video: bool) -> (r: Payloader)
        ensures
            r == (Payloader { has_audio, has_video, audio_eos_sent: false, video_eos_sent: false }),
    {
        Payloader { has_audio, has_video, audio_eos_sent: false, video_eos_sent: false }
    }

    /// The ordered packets for one data chunk under size limit `max_size`.
    /// Fails exactly when `max_size` is zero; the strategy state is never
    /// touched by payloading a data chunk.
    pub fn payload(&mut self, max_size: usize, chunk: EncodedChunk) -> (r: Result<
        Vec<Packet>,
        PayloadingError,
    >)
        ensures
            *final(self) == *old(self),
            max_size == 0 ==> (r matches Err(e) && e == PayloadingError::ZeroMaxPacketSize),
            max_size >= 1 ==> (r matches Ok(ps) && payloads_of(ps@) == chunk_packets(
                chunk.data@,
                max_size as int,
            ) && ps@.len() >= 1),
    {
        if max_size == 0 {
            return Err(PayloadingError::ZeroMaxPacketSize);
        }
        let ghost data = chunk.data@;
        let ghost m = max_size as int;
        let len = chunk.data.len();
        let mut packets: Vec<Packet> = Vec::new();
        if len == 0 {
            packets.push(Packet { data: Vec::new() });
            assert(payloads_of(packets@) =~~= chunk_packets(data, m));
            return Ok(packets);
        }
        let mut i: usize = 0;
        assert(data.subrange(0, len as int) =~= data);
        while i < len
            invariant
                1 <= max_size,
                m == max_size as int,
                data == chunk.data@,
                len == data.len(),
                0 <= i <= len,
                i < len ==> payloads_of(packets@) + chunk_packets(
                    data.subrange(i as int, len as int),
                    m,
                ) =~~= chunk_packets(data, m),
                i == len ==> payloads_of(packets@) =~~= chunk_packets(data, m),
                i == len ==> packets@.len() >= 1,
            decreases len - i,
        {
            let remaining = len - i;
            let piece_len = if remaining > max_size {
                max_size
            } else {
                remaining
            };
            let mut piece: Vec<u8> = Vec::new();
            let mut j: usize = i;
            while j < i + piece_len
                invariant
                    i <= j <= i + piece_len,
                    i + piece_len <= len,
                    len == chunk.data@.len(),
                    piece@ == chunk.data@.subrange(i as int, j as int),
                decreases i + piece_len - j,
            {
                let b = chunk.data[j];
                piece.push(b);
                assert(piece@ =~= chunk.data@.subrange(i as int, j + 1));
                j += 1;
            }
            let ghost rem_seq = data.subrange(i as int, len as int);
            packets.push(Packet { data: piece });
            proof {
                if remaining > max_size {
                    assert(rem_seq.subrange(0, m) =~= data.subrange(i as int, i + piece_len));
                    assert(rem_seq.subrange(m, rem_seq.len() as int) =~= data.subrange(
                        i + piece_len,
                        len as int,
                    ));
                    assert(chunk_packets(rem_seq, m) == seq![rem_seq.subrange(0, m)]
                        + chunk_packets(data.subrange(i + piece_len, len as int), m));
                    assert(payloads_of(packets@) =~= payloads_of(packets@.drop_last()) + seq![
                        data.subrange(i as int, i + piece_len),
                    ]);
                } else {
                    assert(rem_seq =~= data.subrange(i as int, i + piece_len));
                    assert(chunk_packets(rem_seq, m) == seq![rem_seq]);
                    assert(payloads_of(packets@) =~= payloads_of(packets@.drop_last()) + seq![
                        rem_seq,
                    ]);
                }
            }
            i += piece_len;
        }
        Ok(packets)
    }

    /// The audio end-of-stream packet, handed out at most once: `None` when
    /// the strategy has no audio track or the packet was already consumed.
    /// The end-of-stream packet carries an empty payload.
    pub fn audio_eos(&mut self) -> (r: Option<Result<Packet, PayloadingError>>)
        ensures
            final(self).has_audio == old(self).has_audio,
            final(self).has_video == old(self).has_video,
            final(self).video_eos_sent == old(self).video_eos_sent,
            old(self).has_audio && !old(self).audio_eos_sent ==> {
                &&& final(self).audio_eos_sent
                &&& r matches Some(p) && p matches Ok(pk) && pk.data@ == Seq::<u8>::empty()
            },
            !(old(self).has_audio && !old(self).audio_eos_sent) ==> {
                &&& r is None
                &&& final(self).audio_eos_sent == old(self).audio_eos_sent
            },
    {
        if self.has_audio && !self.audio_eos_sent {
            self.audio_eos_sent = true;
            let pk = Packet { data: Vec::new() };
            assert(pk.data@ =~= Seq::<u8>::empty());
            Some(Ok(pk))
        } else {
            None
        }
    }

    /// The video end-of-stream packet, handed out at most once: `None` when
    /// the strategy has no video track or the packet was already consumed.
    /// The end-of-stream packet carries an empty payload.
    pub fn video_eos(&mut self) -> (r: Option<Result<Packet, PayloadingError>>)
        ensures
            final(self).has_audio == old(self).has_audio,
            final(self).has_video == old(self).has_video,
            final(self).audio_eos_sent == old(self).audio_eos_sent,
            old(self).has_video && !old(self).video_eos_sent ==> {
                &&& final(self).video_eos_sent
                &&& r matches Some(p) && p matches Ok(pk) && pk.data@ == Seq::<u8>::empty()
            },
            !(old(self).has_video && !old(self).video_eos_sent) ==> {
                &&& r is None
                &&& final(self).video_eos_sent == old(self).video_eos_sent
            },
    {
        if self.has_video && !self.video_eos_sent {
            self.video_eos_sent = true;
            let pk = Packet { data: Vec::new() };
            assert(pk.data@ =~= Seq::<u8>::empty());
            Some(Ok(pk))
        } else {
            None
        }
    }
}

} // verus!
