//! The per-source timeline: turns the frames of one SSRC, which arrive with
//! gaps, duplicates and late, into one continuous stream of PCM.
//!
//! A frame that arrives ahead of the expected one is preceded by one frame of
//! silence for each frame that is missing; a late or repeated frame is
//! dropped; and when the source goes quiet, ticks fill the time with silence.

use vstd::prelude::*;
use crate::codec::{silence, silence_frames, PcmFrame, FRAME_MILLIS};
use crate::packet::PacketHeader;
use crate::ring::{classify, forward_distance, position_of, Position};

verus! {

/// Timestamp units by which a sender advances from one frame to the next.
pub const TIMESTAMP_STEP: u32 = 160;

/// Timestamp units of disagreement with the sequence number that are worth a
/// log line: more than two frames.
pub const TIMESTAMP_TOLERANCE: u32 = 320;

/// Lifecycle of one source.
#[derive(Clone, Copy, Debug, PartialEq, Eq, Structural)]
pub enum TimelineState {
    /// Nothing has arrived yet.
    Idle,
    /// At least one frame has been emitted.
    Streaming,
    /// The source was replaced or the session ended; nothing is emitted.
    Closed,
}

/// What the timeline of one source remembers. All instants are milliseconds
/// on a monotonic clock.
#[derive(Clone, Copy, Debug, PartialEq, Eq, Structural)]
pub struct SourceTimeline {
    pub state: TimelineState,
    /// Sequence number, timestamp and arrival instant of the first frame.
    pub base_sequence: u16,
    pub base_timestamp: u32,
    pub base_instant: u64,
    /// Sequence number and timestamp of the newest frame emitted.
    pub last_sequence: u16,
    pub last_timestamp: u32,
    /// Instant up to which PCM has been emitted.
    pub last_instant: u64,
}

/// The timeline before anything has arrived.
pub open spec fn idle() -> SourceTimeline {
    SourceTimeline {
        state: TimelineState::Idle,
        base_sequence: 0,
        base_timestamp: 0,
        base_instant: 0,
        last_sequence: 0,
        last_timestamp: 0,
        last_instant: 0,
    }
}

/// Whether a packet with this sequence number is emitted: always the first
/// one, afterwards only one that is ahead of the newest emitted.
pub open spec fn accepts(t: SourceTimeline, sequence: u16) -> bool {
    match t.state {
        TimelineState::Idle => true,
        TimelineState::Streaming => position_of(t.last_sequence, sequence) is Ahead,
        TimelineState::Closed => false,
    }
}

/// Frames missing between the newest emitted and an accepted packet.
pub open spec fn gap_before(t: SourceTimeline, sequence: u16) -> nat {
    match t.state {
        TimelineState::Streaming => match position_of(t.last_sequence, sequence) {
            Position::Ahead { gap } => gap as nat,
            _ => 0,
        },
        _ => 0,
    }
}

/// The PCM that ingesting a packet appends: silence for the missing frames,
/// then the frame; nothing for a packet that is not accepted.
pub open spec fn ingest_emits(t: SourceTimeline, sequence: u16, frame: Seq<i16>) -> Seq<i16> {
    if accepts(t, sequence) {
        silence(gap_before(t, sequence)) + frame
    } else {
        Seq::empty()
    }
}

/// The timeline after ingesting a packet that arrived at `at`.
pub open spec fn after_ingest(t: SourceTimeline, header: PacketHeader, at: u64) -> SourceTimeline {
    match t.state {
        TimelineState::Idle => SourceTimeline {
            state: TimelineState::Streaming,
            base_sequence: header.sequence,
            base_timestamp: header.timestamp,
            base_instant: at,
            last_sequence: header.sequence,
            last_timestamp: header.timestamp,
            last_instant: at,
        },
        TimelineState::Streaming => if accepts(t, header.sequence) {
            SourceTimeline {
                last_sequence: header.sequence,
                last_timestamp: header.timestamp,
                last_instant: at,
                ..t
            }
        } else {
            t
        },
        TimelineState::Closed => t,
    }
}

/// Whole frames of silence owed at `now`: none unless the source is streaming
/// and more than one frame duration has passed since PCM was last emitted,
/// then one for each frame duration passed.
pub open spec fn silence_due(t: SourceTimeline, now: u64) -> nat {
    if t.state is Streaming && now - t.last_instant > 20 {
        ((now - t.last_instant) / 20) as nat
    } else {
        0
    }
}

/// The timeline after a tick at `now`: time moves on by the silence emitted.
pub open spec fn after_tick(t: SourceTimeline, now: u64) -> SourceTimeline {
    SourceTimeline { last_instant: (t.last_instant + 20 * silence_due(t, now)) as u64, ..t }
}

/// The timestamp that the sequence number implies for a packet, counted on
/// from the newest emitted frame.
pub open spec fn implied_timestamp(t: SourceTimeline, sequence: u16) -> int {
    (t.last_timestamp + 160 * forward_distance(t.last_sequence, sequence)) % 4294967296
}

/// Whether a packet's timestamp is more than two frames away, in either
/// direction round the 32-bit ring, from the one its sequence number implies.
pub open spec fn timestamp_diverges(t: SourceTimeline, header: PacketHeader) -> bool {
    let expected = implied_timestamp(t, header.sequence);
    let ahead = (header.timestamp - expected) % 4294967296;
    let behind = (expected - header.timestamp) % 4294967296;
    t.state is Streaming && ahead > 320 && behind > 320
}

impl SourceTimeline {
    /// A timeline on which nothing has arrived.
    pub fn new() -> (t: SourceTimeline)
        ensures
            t == idle(),
    {
        SourceTimeline {
            state: TimelineState::Idle,
            base_sequence: 0,
            base_timestamp: 0,
            base_instant: 0,
            last_sequence: 0,
            last_timestamp: 0,
            last_instant: 0,
        }
    }

    /// Takes in one decoded frame with the header it came under and the
    /// instant it arrived at, and returns the PCM to append to the timeline.
    pub fn ingest(&mut self, header: &PacketHeader, at: u64, frame: &PcmFrame) -> (out: Vec<i16>)
        ensures
            *final(self) == after_ingest(*old(self), *header, at),
            out@ == ingest_emits(*old(self), header.sequence, frame@),
    {
        match self.state {
            TimelineState::Idle => {
                self.state = TimelineState::Streaming;
                self.base_sequence = header.sequence;
                self.base_timestamp = header.timestamp;
                self.base_instant = at;
                self.last_sequence = header.sequence;
                self.last_timestamp = header.timestamp;
                self.last_instant = at;
                let out = crate::codec::copy_samples(frame.samples());
                assert(out@ =~= silence(0) + frame@);
                out
            },
            TimelineState::Streaming => {
                match classify(self.last_sequence, header.sequence) {
                    Position::Ahead { gap } => {
                        assert(gap as nat * 960 <= usize::MAX);
                        let mut out = silence_frames(gap as usize);
                        let samples = frame.samples();
                        let mut i: usize = 0;
                        while i < samples.len()
                            invariant
                                i <= samples@.len(),
                                samples@.len() == 960,
                                out@ == silence(gap as nat) + samples@.take(i as int),
                            decreases samples@.len() - i,
                        {
                            out.push(samples[i]);
                            assert(samples@.take(i + 1) =~= samples@.take(i as int).push(
                                samples@[i as int],
                            ));
                            i += 1;
                        }
                        assert(samples@.take(960) =~= samples@);
                        self.last_sequence = header.sequence;
                        self.last_timestamp = header.timestamp;
                        self.last_instant = at;
                        out
                    },
                    _ => Vec::new(),
                }
            },
            TimelineState::Closed => Vec::new(),
        }
    }

    /// Whole frames of silence owed at `now`.
    pub fn frames_due(&self, now: u64) -> (due: u64)
        ensures
            due == silence_due(*self, now),
    {
        match self.state {
            TimelineState::Streaming => {
                if now > self.last_instant && now - self.last_instant > FRAME_MILLIS {
                    (now - self.last_instant) / FRAME_MILLIS
                } else {
                    0
                }
            },
            _ => 0,
        }
    }

    /// Emits the silence owed at `now` and moves the timeline on by it.
    ///
    /// The silence must fit in a vector.
    pub fn tick(&mut self, now: u64) -> (out: Vec<i16>)
        requires
            silence_due(*old(self), now) * 960 <= usize::MAX,
        ensures
            *final(self) == after_tick(*old(self), now),
            out@ == silence(silence_due(*old(self), now)),
    {
        let due = self.frames_due(now);
        if due == 0 {
            let out: Vec<i16> = Vec::new();
            assert(out@ =~= silence(0));
            out
        } else {
            assert(20 * due <= now - self.last_instant) by {
                vstd::arithmetic::div_mod::lemma_fundamental_div_mod(
                    now - self.last_instant,
                    20,
                );
            }
            self.last_instant = self.last_instant + FRAME_MILLIS * due;
            silence_frames(due as usize)
        }
    }

    /// Ends the source: from now on nothing is accepted and no silence owed.
    pub fn close(&mut self)
        ensures
            *final(self) == (SourceTimeline { state: TimelineState::Closed, ..*old(self) }),
    {
        self.state = TimelineState::Closed;
    }

    /// Whether the packet's timestamp disagrees with its sequence number by
    /// more than two frames. This is worth a log line and nothing else: the
    /// sequence number decides.
    pub fn timestamp_off(&self, header: &PacketHeader) -> (off: bool)
        ensures
            off == timestamp_diverges(*self, *header),
    {
        match self.state {
            TimelineState::Streaming => {
                let steps: u64 = crate::ring::forward(self.last_sequence, header.sequence) as u64;
                let step: u64 = TIMESTAMP_STEP as u64;
                assert(step == 160);
                let sum: u64 = self.last_timestamp as u64 + step * steps;
                let expected: u64 = sum % 4294967296;
                let ts: u64 = header.timestamp as u64;
                let ahead: u64 = if ts >= expected {
                    ts - expected
                } else {
                    ts + 4294967296 - expected
                };
                let behind: u64 = if expected >= ts {
                    expected - ts
                } else {
                    expected + 4294967296 - ts
                };
                ahead > TIMESTAMP_TOLERANCE as u64 && behind > TIMESTAMP_TOLERANCE as u64
            },
            _ => false,
        }
    }
}

} // verus!
