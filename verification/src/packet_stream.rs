//! Output packetization stream: a pull-driven, finite sequence of
//! size-bounded transport packets built from encoder output events.

use vstd::prelude::*;

use crate::channel;
use crate::payloader::{
    chunk_packets, concat_payloads, payloads_of, EncoderOutputEvent, MediaKind, Packet, Payloader,
    PayloadingError,
};

verus! {

/// Spec-level image of one encoder output event.
pub ghost enum EventModel {
    Data { data: Seq<u8>, kind: MediaKind },
    AudioEOS,
    VideoEOS,
}

/// Spec-level image of what one pull yields: a packet payload, a surfaced
/// payloading failure, or the end of the sequence.
pub ghost enum PullModel {
    Packet(Seq<u8>),
    Failure(PayloadingError),
    End,
}

/// Spec-level image of an optional encoder output event.
pub open spec fn event_model_of(ev: Option<EncoderOutputEvent>) -> Option<EventModel> {
    match ev {
        None => None,
        Some(EncoderOutputEvent::Data(c)) => Some(
            EventModel::Data { data: c.data@, kind: c.kind },
        ),
        Some(EncoderOutputEvent::AudioEOS) => Some(EventModel::AudioEOS),
        Some(EncoderOutputEvent::VideoEOS) => Some(EventModel::VideoEOS),
    }
}

/// Spec-level image of one pull result.
pub open spec fn pull_of(r: Option<Result<Packet, PayloadingError>>) -> PullModel {
    match r {
        None => PullModel::End,
        Some(Ok(p)) => PullModel::Packet(p.data@),
        Some(Err(e)) => PullModel::Failure(e),
    }
}

/// How one encoder output event (or channel disconnection, `ev == None`)
/// advances a packetization stream whose pending queue holds `pending`:
/// gives the strategy state, the pending payloads, and the pull result after
/// the event.
///
/// Disconnection first accounts for the audio end-of-stream packet, then the
/// video one, then ends the sequence. A data chunk replaces the pending queue
/// with all but the first of its packets. An explicit end-of-stream marker
/// for an already-consumed (or never-owed) end-of-stream packet is a protocol
/// violation and surfaces as a failure.
pub open spec fn stream_step(p: Payloader, pending: Seq<Seq<u8>>, mtu: int, ev: Option<EventModel>) -> (
    Payloader,
    Seq<Seq<u8>>,
    PullModel,
) {
    match ev {
        None => {
            if p.has_audio && !p.audio_eos_sent {
                (
                    Payloader { audio_eos_sent: true, ..p },
                    pending,
                    PullModel::Packet(Seq::empty()),
                )
            } else if p.has_video && !p.video_eos_sent {
                (
                    Payloader { video_eos_sent: true, ..p },
                    pending,
                    PullModel::Packet(Seq::empty()),
                )
            } else {
                (p, pending, PullModel::End)
            }
        },
        Some(EventModel::Data { data, kind }) => {
            if mtu == 0 {
                (p, pending, PullModel::Failure(PayloadingError::ZeroMaxPacketSize))
            } else {
                let ps = chunk_packets(data, mtu);
                (p, ps.drop_first(), PullModel::Packet(ps[0]))
            }
        },
        Some(EventModel::AudioEOS) => {
            if p.has_audio && !p.audio_eos_sent {
                (
                    Payloader { audio_eos_sent: true, ..p },
                    pending,
                    PullModel::Packet(Seq::empty()),
                )
            } else {
                (p, pending, PullModel::Failure(PayloadingError::AudioEOSAlreadySent))
            }
        },
        Some(EventModel::VideoEOS) => {
            if p.has_video && !p.video_eos_sent {
                (
                    Payloader { video_eos_sent: true, ..p },
                    pending,
                    PullModel::Packet(Seq::empty()),
                )
            } else {
                (p, pending, PullModel::Failure(PayloadingError::VideoEOSAlreadySent))
            }
        },
    }
}

/// Pull-driven, single-consumer stream of transport packets built from one
/// encoder output channel under a fixed size limit.
pub struct PacketStream {
    /// Upstream channel of encoder output events; opaque to contracts.
    pub packets_receiver: crossbeam_channel::Receiver<EncoderOutputEvent>,
    /// Packets produced from the most recent data chunk and not yet emitted.
    pub state: Vec<Packet>,
    /// The payloading strategy, shared sequencing state for both media kinds.
    pub payloader: Payloader,
    /// Size limit no emitted packet exceeds.
    pub mtu: usize,
}

impl PacketStream {
    /// A fresh stream with an empty pending queue.
    pub fn new(
        packets_receiver: crossbeam_channel::Receiver<EncoderOutputEvent>,
        payloader: Payloader,
        mtu: usize,
    ) -> (r: PacketStream)
        ensures
            r.state@.len() == 0,
            r.payloader == payloader,
            r.mtu == mtu,
    {
        PacketStream { packets_receiver, payloader, mtu, state: Vec::new() }
    }

    /// Advance the stream by one already-received event (`None` meaning the
    /// channel is closed), exactly as `stream_step` says.
    pub fn process_event(&mut self, event: Option<EncoderOutputEvent>) -> (r: Option<
        Result<Packet, PayloadingError>,
    >)
        ensures
            final(self).mtu == old(self).mtu,
            final(self).payloader == stream_step(
                old(self).payloader,
                payloads_of(old(self).state@),
                old(self).mtu as int,
                event_model_of(event),
            ).0,
            payloads_of(final(self).state@) == stream_step(
                old(self).payloader,
                payloads_of(old(self).state@),
                old(self).mtu as int,
                event_model_of(event),
            ).1,
            pull_of(r) == stream_step(
                old(self).payloader,
                payloads_of(old(self).state@),
                old(self).mtu as int,
                event_model_of(event),
            ).2,
    {
        match event {
            None => {
                match self.payloader.audio_eos() {
                    Some(p) => Some(p),
                    None => {
                        match self.payloader.video_eos() {
                            Some(p) => Some(p),
                            None => None,
                        }
                    },
                }
            },
            Some(EncoderOutputEvent::Data(chunk)) => {
                let ghost data = chunk.data@;
                match self.payloader.payload(self.mtu, chunk) {
                    Err(e) => Some(Err(e)),
                    Ok(mut ps) => {
                        let first = ps.remove(0);
                        proof {
                            assert(payloads_of(ps@) =~~= chunk_packets(
                                data,
                                old(self).mtu as int,
                            ).drop_first());
                        }
                        self.state = ps;
                        Some(Ok(first))
                    },
                }
            },
            Some(EncoderOutputEvent::AudioEOS) => {
                match self.payloader.audio_eos() {
                    Some(p) => Some(p),
                    None => Some(Err(PayloadingError::AudioEOSAlreadySent)),
                }
            },
            Some(EncoderOutputEvent::VideoEOS) => {
                match self.payloader.video_eos() {
                    Some(p) => Some(p),
                    None => Some(Err(PayloadingError::VideoEOSAlreadySent)),
                }
            },
        }
    }

    /// Receive the next encoder output event (blocking) and advance: the
    /// stream moves by `stream_step` for whatever the channel gave.
    pub fn next_new_packet(&mut self) -> (r: Option<Result<Packet, PayloadingError>>)
        ensures
            final(self).mtu == old(self).mtu,
            exists|ev: Option<EventModel>|
                {
                    let step = #[trigger] stream_step(
                        old(self).payloader,
                        payloads_of(old(self).state@),
                        old(self).mtu as int,
                        ev,
                    );
                    &&& final(self).payloader == step.0
                    &&& payloads_of(final(self).state@) == step.1
                    &&& pull_of(r) == step.2
                },
    {
        let event = channel::recv(&self.packets_receiver);
        let ghost ev_model = event_model_of(event);
        let r = self.process_event(event);
        proof {
            let step = stream_step(
                old(self).payloader,
                payloads_of(old(self).state@),
                old(self).mtu as int,
                ev_model,
            );
            assert(final(self).payloader == step.0 && payloads_of(final(self).state@) == step.1
                && pull_of(r) == step.2);
        }
        r
    }

    /// One pull: emit the next pending packet if any, otherwise receive and
    /// process the next encoder output event. `None` is terminal.
    pub fn next(&mut self) -> (r: Option<Result<Packet, PayloadingError>>)
        ensures
            final(self).mtu == old(self).mtu,
            old(self).state@.len() > 0 ==> {
                &&& final(self).payloader == old(self).payloader
                &&& (r matches Some(p) && p matches Ok(pk) && pk.data@ == payloads_of(
                    old(self).state@,
                )[0])
                &&& payloads_of(final(self).state@) == payloads_of(old(self).state@).drop_first()
            },
            old(self).state@.len() == 0 ==> exists|ev: Option<EventModel>|
                {
                    let step = #[trigger] stream_step(
                        old(self).payloader,
                        payloads_of(old(self).state@),
                        old(self).mtu as int,
                        ev,
                    );
                    &&& final(self).payloader == step.0
                    &&& payloads_of(final(self).state@) == step.1
                    &&& pull_of(r) == step.2
                },
    {
        if self.state.len() > 0 {
            let pk = self.state.remove(0);
            proof {
                assert(payloads_of(final(self).state@) =~~= payloads_of(
                    old(self).state@,
                ).drop_first());
            }
            Some(Ok(pk))
        } else {
            self.next_new_packet()
        }
    }
}

/// Law: a data chunk of `n` bytes pulled under size limit `m >= 1` yields
/// `ceil(n / m)` packets (one for an empty chunk) — the pull's own packet
/// followed by the pending queue — whose concatenation, in order,
/// reconstructs the chunk's payload; the strategy state is untouched.
pub proof fn lemma_data_chunk_packetization(
    p: Payloader,
    pending: Seq<Seq<u8>>,
    mtu: int,
    data: Seq<u8>,
    kind: MediaKind,
)
    requires
        mtu >= 1,
    ensures
        ({
            let step = stream_step(p, pending, mtu, Some(EventModel::Data { data, kind }));
            &&& step.0 == p
            &&& step.2 matches PullModel::Packet(first) && concat_payloads(
                seq![first] + step.1,
            ) == data
            &&& 1 + step.1.len() == (if data.len() == 0 {
                1int
            } else {
                (data.len() + mtu - 1) / mtu
            })
        }),
{
    let ps = chunk_packets(data, mtu);
    lemma_chunk_packets_len_positive(data, mtu);
    crate::payloader::lemma_chunk_packets_concat(data, mtu);
    crate::payloader::lemma_chunk_packets_count(data, mtu);
    assert(seq![ps[0]] + ps.drop_first() =~= ps);
}

/// A chunk always yields at least one packet.
proof fn lemma_chunk_packets_len_positive(data: Seq<u8>, mtu: int)
    requires
        mtu >= 1,
    ensures
        chunk_packets(data, mtu).len() >= 1,
    decreases data.len(),
{
    if data.len() > mtu {
        lemma_chunk_packets_len_positive(data.subrange(mtu, data.len() as int), mtu);
    }
}

/// Law: two audio end-of-stream markers with no intervening state reset yield
/// one end-of-stream packet and then the `AudioEOSAlreadySent` failure.
pub proof fn lemma_audio_eos_once(p: Payloader, pending: Seq<Seq<u8>>, mtu: int)
    requires
        p.has_audio,
        !p.audio_eos_sent,
    ensures
        ({
            let step1 = stream_step(p, pending, mtu, Some(EventModel::AudioEOS));
            let step2 = stream_step(step1.0, step1.1, mtu, Some(EventModel::AudioEOS));
            &&& step1.2 == PullModel::Packet(Seq::<u8>::empty())
            &&& step2.2 == PullModel::Failure(PayloadingError::AudioEOSAlreadySent)
        }),
{
}

/// Law: the same one-shot behaviour for the video end-of-stream marker.
pub proof fn lemma_video_eos_once(p: Payloader, pending: Seq<Seq<u8>>, mtu: int)
    requires
        p.has_video,
        !p.video_eos_sent,
    ensures
        ({
            let step1 = stream_step(p, pending, mtu, Some(EventModel::VideoEOS));
            let step2 = stream_step(step1.0, step1.1, mtu, Some(EventModel::VideoEOS));
            &&& step1.2 == PullModel::Packet(Seq::<u8>::empty())
            &&& step2.2 == PullModel::Failure(PayloadingError::VideoEOSAlreadySent)
        }),
{
}

/// Law: once both end-of-stream packets have been accounted for, channel
/// disconnection ends the sequence.
pub proof fn lemma_disconnect_terminates(p: Payloader, pending: Seq<Seq<u8>>, mtu: int)
    requires
        !p.has_audio || p.audio_eos_sent,
        !p.has_video || p.video_eos_sent,
    ensures
        stream_step(p, pending, mtu, None).2 == PullModel::End,
{
}

} // verus!
