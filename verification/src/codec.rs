//! Frames of decoded audio: one frame is 20 ms of 16-bit mono PCM at 48 kHz.
//!
//! The compressed-frame decoder itself keeps predictor state between frames
//! and lives outside this library; what it hands back is checked here.

use vstd::prelude::*;

verus! {

/// Samples per second of decoded audio.
pub const SAMPLE_RATE: u32 = 48000;

/// Duration of one frame in milliseconds.
pub const FRAME_MILLIS: u64 = 20;

/// Samples in one frame: 20 ms at 48 kHz.
pub const FRAME_SAMPLES: usize = 960;

/// Why a payload yielded no frame.
#[derive(Clone, Copy, Debug, PartialEq, Eq, Structural)]
pub enum CodecError {
    /// The decoder rejected the payload.
    InvalidPayload,
    /// The decoder produced something other than one whole frame.
    WrongFrameLength,
}

/// `frames` whole frames of zero-valued samples.
pub open spec fn silence(frames: nat) -> Seq<i16> {
    Seq::new(frames * 960, |i: int| 0i16)
}

/// Exactly one frame of PCM samples.
pub struct PcmFrame {
    samples: Vec<i16>,
}

impl View for PcmFrame {
    type V = Seq<i16>;

    closed spec fn view(&self) -> Seq<i16> {
        self.samples@
    }
}

impl PcmFrame {
    #[verifier::type_invariant]
    spec fn whole(self) -> bool {
        self.samples@.len() == 960
    }

    /// Wraps `samples` as a frame if there are exactly 960 of them.
    pub fn from_samples(samples: Vec<i16>) -> (frame: Option<PcmFrame>)
        ensures
            samples@.len() == 960 <==> frame is Some,
            frame matches Some(f) ==> f@ == samples@,
    {
        if samples.len() == FRAME_SAMPLES {
            Some(PcmFrame { samples })
        } else {
            None
        }
    }

    /// One frame of silence.
    pub fn silent() -> (frame: PcmFrame)
        ensures
            frame@ == silence(1),
    {
        let samples = zeros(FRAME_SAMPLES);
        PcmFrame { samples }
    }

    /// The frame's samples; there are always 960.
    pub fn samples(&self) -> (s: &Vec<i16>)
        ensures
            s@ == self@,
            s@.len() == 960,
    {
        proof {
            use_type_invariant(self);
        }
        &self.samples
    }

    /// Copies the frame.
    pub fn duplicate(&self) -> (copy: PcmFrame)
        ensures
            copy@ == self@,
    {
        proof {
            use_type_invariant(self);
        }
        let samples = copy_samples(&self.samples);
        PcmFrame { samples }
    }
}

/// A vector of `count` zero samples.
pub fn zeros(count: usize) -> (v: Vec<i16>)
    ensures
        v@ == Seq::new(count as nat, |i: int| 0i16),
{
    let mut v: Vec<i16> = Vec::new();
    let mut i: usize = 0;
    while i < count
        invariant
            i <= count,
            v@ == Seq::new(i as nat, |k: int| 0i16),
        decreases count - i,
    {
        v.push(0);
        i += 1;
    }
    v
}

/// `frames` whole frames of silence.
pub fn silence_frames(frames: usize) -> (v: Vec<i16>)
    requires
        frames * 960 <= usize::MAX,
    ensures
        v@ == silence(frames as nat),
{
    zeros(frames * FRAME_SAMPLES)
}

/// An element-for-element copy of `samples`.
pub fn copy_samples(samples: &Vec<i16>) -> (v: Vec<i16>)
    ensures
        v@ == samples@,
{
    let mut v: Vec<i16> = Vec::new();
    let mut i: usize = 0;
    while i < samples.len()
        invariant
            i <= samples.len(),
            v@ == samples@.take(i as int),
        decreases samples.len() - i,
    {
        v.push(samples[i]);
        i += 1;
    }
    v
}

/// What a decoder call leaves behind: the number of samples it reports, or
/// nothing if it rejected the payload, and the buffer it wrote them to.
/// The result is a frame when the decoder reports exactly 960 samples and the
/// buffer holds them.
pub open spec fn decoded_frame(buffer: Seq<i16>, reported: Option<usize>) -> Result<
    Seq<i16>,
    CodecError,
> {
    match reported {
        None => Err(CodecError::InvalidPayload),
        Some(n) => if n == 960 && buffer.len() >= 960 {
            Ok(buffer.take(960))
        } else {
            Err(CodecError::WrongFrameLength)
        },
    }
}

/// Turns the outcome of one decoder call into a frame: the first 960 samples
/// of `buffer` when the decoder reported exactly one frame, else the error.
pub fn decode_frame(buffer: &Vec<i16>, reported: Option<usize>) -> (r: Result<PcmFrame, CodecError>)
    ensures
        match decoded_frame(buffer@, reported) {
            Ok(s) => r matches Ok(f) && f@ == s,
            Err(e) => r == Err::<PcmFrame, CodecError>(e),
        },
{
    match reported {
        None => Err(CodecError::InvalidPayload),
        Some(n) => {
            if n == FRAME_SAMPLES && buffer.len() >= FRAME_SAMPLES {
                let mut samples: Vec<i16> = Vec::new();
                let mut i: usize = 0;
                while i < FRAME_SAMPLES
                    invariant
                        i <= 960,
                        buffer@.len() >= 960,
                        samples@ == buffer@.take(i as int),
                    decreases 960 - i,
                {
                    samples.push(buffer[i]);
                    i += 1;
                }
                Ok(PcmFrame { samples })
            } else {
                Err(CodecError::WrongFrameLength)
            }
        },
    }
}

} // verus!
