//! The receiving side of one connection: a reader that asks for the exact
//! number of bytes each part of a frame needs and decodes what it is handed,
//! and the forwarding of a decoded frame towards playback.
use vstd::prelude::*;
use crate::codec::{
    Frame, FrameError, HEADER_BYTES, decode_header, decode_payload, header_len, header_timestamp,
    payload_samples,
};
use crate::handoff::{HandoffQueue, Offer, offer_post};
use crate::latency::{latency_ms, latency_of};

verus! {

/// Which part of a frame the reader waits for.
#[derive(Debug, Clone, Copy, PartialEq, Eq, Structural)]
pub enum ReadPhase {
    /// The 12-byte header.
    Header,
    /// The payload that a header announced.
    Payload { payload_len: u32, timestamp_ms: u64 },
}

/// What the reader made of the bytes it was handed.
pub enum ReadStep {
    /// A header was read; its payload is to be read next.
    NeedPayload,
    /// A whole frame was read.
    Deliver(Frame),
    /// The payload is not whole samples; the connection cannot go on.
    Malformed(FrameError),
}

/// Reads the strict sequence of frames of one connection.
pub struct FrameReader {
    phase: ReadPhase,
}

impl View for FrameReader {
    type V = ReadPhase;

    closed spec fn view(&self) -> ReadPhase {
        self.phase
    }
}

/// The number of bytes the reader asks for in `phase`.
pub open spec fn bytes_needed_in(phase: ReadPhase) -> nat {
    match phase {
        ReadPhase::Header => HEADER_BYTES as nat,
        ReadPhase::Payload { payload_len, .. } => payload_len as nat,
    }
}

impl FrameReader {
    /// A reader at the start of a connection, waiting for a header.
    pub fn new() -> (r: FrameReader)
        ensures
            r@ == ReadPhase::Header,
    {
        FrameReader { phase: ReadPhase::Header }
    }

    /// The part of a frame the reader waits for.
    pub fn phase(&self) -> (r: ReadPhase)
        ensures
            r == self@,
    {
        self.phase
    }

    /// How many bytes are to be read next, exactly.
    pub fn bytes_needed(&self) -> (r: usize)
        ensures
            r == bytes_needed_in(self@),
    {
        match self.phase {
            ReadPhase::Header => HEADER_BYTES,
            ReadPhase::Payload { payload_len, .. } => payload_len as usize,
        }
    }

    /// Takes the bytes that were asked for and says what they were.
    pub fn on_bytes(&mut self, bytes: &[u8]) -> (r: ReadStep)
        requires
            bytes@.len() == bytes_needed_in(old(self)@),
        ensures
            match old(self)@ {
                ReadPhase::Header => {
                    &&& r is NeedPayload
                    &&& final(self)@ == ReadPhase::Payload {
                        payload_len: header_len(bytes@),
                        timestamp_ms: header_timestamp(bytes@),
                    }
                },
                ReadPhase::Payload { timestamp_ms, .. } => {
                    &&& final(self)@ == ReadPhase::Header
                    &&& bytes@.len() % 4 == 0 ==> (r matches ReadStep::Deliver(f) && f.timestamp_ms
                        == timestamp_ms && f.samples@ == payload_samples(bytes@))
                    &&& bytes@.len() % 4 != 0 ==> r == ReadStep::Malformed(
                        FrameError::MalformedFrame,
                    )
                },
            },
    {
        match self.phase {
            ReadPhase::Header => {
                let (payload_len, timestamp_ms) = decode_header(bytes);
                self.phase = ReadPhase::Payload { payload_len, timestamp_ms };
                ReadStep::NeedPayload
            },
            ReadPhase::Payload { timestamp_ms, .. } => {
                self.phase = ReadPhase::Header;
                match decode_payload(bytes) {
                    Ok(samples) => ReadStep::Deliver(Frame { timestamp_ms, samples }),
                    Err(e) => ReadStep::Malformed(e),
                }
            },
        }
    }

    /// Gives up a frame in progress after a short read or an I/O error: the
    /// reader is back at its initial state, with nothing of the lost frame
    /// left in it.
    pub fn abandon(&mut self)
        ensures
            final(self)@ == ReadPhase::Header,
    {
        self.phase = ReadPhase::Header;
    }
}

/// What forwarding one received frame came to.
pub struct Delivery {
    /// The frame's one-way latency in milliseconds.
    pub latency_ms: u64,
    /// Whether the latency is worth reporting (it is not zero).
    pub report_latency: bool,
    /// What the handoff queue did with the frame's samples.
    pub offer: Offer,
}

/// Forwards a frame received at `now_ms`: measures its latency and offers its
/// samples to the queue towards playback, never blocking.
pub fn deliver(queue: &mut HandoffQueue, frame: Frame, now_ms: u64) -> (r: Delivery)
    requires
        old(queue).wf(),
    ensures
        r.latency_ms == latency_of(now_ms, frame.timestamp_ms),
        r.report_latency == (r.latency_ms != 0),
        offer_post(*old(queue), *final(queue), frame.samples@, r.offer),
{
    let latency = latency_ms(now_ms, frame.timestamp_ms);
    let offer = queue.offer(frame.samples);
    Delivery { latency_ms: latency, report_latency: latency != 0, offer }
}

} // verus!
