//! The client's audio source: numbers the frames that the encoder turns
//! out and wraps each one as a media packet.

use vstd::prelude::*;
use crate::packet::{create_rtp_packet, MediaPacket, PacketHeader};

verus! {

/// Samples in one frame that the client encodes: 20 ms at 48 kHz.
pub const FRAME_SIZE: usize = 960;

/// Timestamp of the first packet of a source.
pub const START_TIME: u32 = 1200;

/// Timestamp units from one packet to the next.
pub const TIMESTAMP_STEP: u32 = 160;

/// Calls `rand::random_range` on the range from 0 up to, not including,
/// `bound`.
///
/// Trusted: the number it returns lies in that range. Which one it is
/// differs from call to call.
#[verifier::external_body]
fn random_below(bound: u32) -> (r: u32)
    requires
        bound > 0,
    ensures
        r < bound,
{
    rand::random_range(0..bound)
}

/// Picks the SSRC for a new source at random from the lower half of the
/// 32-bit range.
pub fn random_ssrc() -> (ssrc: u32)
    ensures
        ssrc < 2147483647,
{
    random_below(u32::MAX / 2)
}

/// One more on the 16-bit ring.
pub open spec fn next_sequence(sequence: u16) -> u16 {
    if sequence == u16::MAX {
        0
    } else {
        (sequence + 1) as u16
    }
}

/// One frame on, on the 32-bit ring.
pub open spec fn next_timestamp(timestamp: u32) -> u32 {
    ((timestamp + 160) % 4294967296) as u32
}

/// What becomes of the captured samples that are buffered.
#[derive(Clone, Copy, Debug, PartialEq, Eq, Structural)]
pub struct Capture {
    /// Whole frames to cut from the front, encode and send.
    pub frames: usize,
    /// Samples that stay in the buffer afterwards.
    pub kept: usize,
}

/// What becomes of `buffered` captured samples.
pub open spec fn capture_of(playing: bool, buffered: usize) -> Capture {
    if playing {
        Capture { frames: (buffered / 960) as usize, kept: (buffered % 960) as usize }
    } else {
        Capture { frames: 0, kept: 0 }
    }
}

/// The numbering of one client's audio packets.
#[derive(Clone, Copy, Debug, PartialEq, Eq, Structural)]
pub struct RTPOpusAudioSource {
    /// Whether captured audio is encoded and sent.
    pub playing: bool,
    /// Sequence number of the next packet.
    pub sequence_no: u16,
    /// Timestamp of the next packet.
    pub start_time: u32,
    pub ssrc: u32,
}

impl RTPOpusAudioSource {
    /// A source that has sent nothing yet, under an SSRC picked at random
    /// from the lower half of the 32-bit range.
    pub fn new(play_on_start: bool) -> (s: RTPOpusAudioSource)
        ensures
            s == (RTPOpusAudioSource {
                playing: play_on_start,
                sequence_no: 0,
                start_time: 1200,
                ssrc: s.ssrc,
            }),
            s.ssrc < 2147483647,
    {
        RTPOpusAudioSource::with_ssrc(play_on_start, random_ssrc())
    }

    /// A source that has sent nothing yet, under the given SSRC.
    pub fn with_ssrc(play_on_start: bool, ssrc: u32) -> (s: RTPOpusAudioSource)
        ensures
            s == (RTPOpusAudioSource {
                playing: play_on_start,
                sequence_no: 0,
                start_time: 1200,
                ssrc,
            }),
    {
        RTPOpusAudioSource { playing: play_on_start, sequence_no: 0, start_time: START_TIME, ssrc }
    }

    /// Starts or stops sending.
    pub fn set_playing(&mut self, playing: bool)
        ensures
            *final(self) == (RTPOpusAudioSource { playing, ..*old(self) }),
    {
        self.playing = playing;
    }

    /// What to do with `buffered` captured samples: while playing, the whole
    /// frames are cut and the rest is kept; while paused, nothing is cut and
    /// everything is thrown away.
    pub fn capture(&self, buffered: usize) -> (c: Capture)
        ensures
            c == capture_of(self.playing, buffered),
    {
        if self.playing {
            Capture { frames: buffered / FRAME_SIZE, kept: buffered % FRAME_SIZE }
        } else {
            Capture { frames: 0, kept: 0 }
        }
    }

    /// Wraps one encoded frame as the next packet, and counts on: the
    /// sequence number by one, the timestamp by one frame, both wrapping.
    /// A paused source gives no packet and does not count, so that the
    /// numbering goes on without a gap when it plays again.
    pub fn read(&mut self, payload: Vec<u8>) -> (packet: Option<MediaPacket>)
        ensures
            old(self).playing ==> (packet matches Some(p) && p.header == (PacketHeader {
                payload_type: 111,
                sequence: old(self).sequence_no,
                timestamp: old(self).start_time,
                ssrc: old(self).ssrc,
            }) && p.payload@ == payload@),
            old(self).playing ==> *final(self) == (RTPOpusAudioSource {
                sequence_no: next_sequence(old(self).sequence_no),
                start_time: next_timestamp(old(self).start_time),
                ..*old(self)
            }),
            !old(self).playing ==> packet is None && *final(self) == *old(self),
    {
        if !self.playing {
            return None;
        }
        let packet = create_rtp_packet(self.sequence_no, self.start_time, self.ssrc, payload);
        self.sequence_no = if self.sequence_no == u16::MAX {
            0
        } else {
            self.sequence_no + 1
        };
        self.start_time = if self.start_time > u32::MAX - TIMESTAMP_STEP {
            self.start_time - (u32::MAX - TIMESTAMP_STEP) - 1
        } else {
            self.start_time + TIMESTAMP_STEP
        };
        Some(packet)
    }
}

} // verus!
