//! Latency regulation of the audio output queue.
//!
//! The emulator pushes one frame of samples at a time; the sound card eats
//! them at its own pace. This module decides, from the number of samples
//! still queued, whether a frame must be dropped or sent with a cushion of
//! silence in front of it.

use vstd::prelude::*;

verus! {

/// Output sampling rate of the sound synthesis, in Hz.
pub const SAMPLE_RATE: u32 = 44_100;

/// Above this many queued samples (100 ms) the next frame is dropped.
pub const MAX_LATENCY_SAMPLES: u32 = 4_410;

/// Latency rebuilt after an underrun (three frames, 60 ms).
pub const TARGET_LATENCY_SAMPLES: u32 = 2_646;

/// Below this many queued samples (one frame, 20 ms) the queue is refilled.
pub const MIN_LATENCY_SAMPLES: u32 = 882;

/// What to do with the next frame of samples.
#[derive(Debug, PartialEq, Eq, Structural)]
pub enum Regulation {
    /// Throw the frame away: the queue is already too long.
    Drop,
    /// Queue the frame, preceded by `padding` samples of silence.
    Send { padding: u32 },
}

/// The decision taken for a queue holding `queued` samples.
pub open spec fn regulation_for(queued: u32) -> Regulation {
    if queued > MAX_LATENCY_SAMPLES {
        Regulation::Drop
    } else if queued < MIN_LATENCY_SAMPLES {
        Regulation::Send { padding: (TARGET_LATENCY_SAMPLES - queued) as u32 }
    } else {
        Regulation::Send { padding: 0 }
    }
}

/// Decides the fate of the next frame from the current queue length.
pub fn regulate(queued: u32) -> (r: Regulation)
    ensures
        r == regulation_for(queued),
{
    if queued > MAX_LATENCY_SAMPLES {
        Regulation::Drop
    } else if queued < MIN_LATENCY_SAMPLES {
        Regulation::Send { padding: TARGET_LATENCY_SAMPLES - queued }
    } else {
        Regulation::Send { padding: 0 }
    }
}


/// The regulation keeps the latency in bounds: a frame is dropped only
/// when more than `MAX_LATENCY_SAMPLES` wait, and when one is sent, the
/// silence put before it brings what waits to at least
/// `MIN_LATENCY_SAMPLES` (to `TARGET_LATENCY_SAMPLES` after a refill)
/// and never past `MAX_LATENCY_SAMPLES`.
pub proof fn lemma_regulation_keeps_latency_in_bounds(queued: u32)
    ensures
        regulation_for(queued) is Drop <==> queued > MAX_LATENCY_SAMPLES,
        regulation_for(queued) matches Regulation::Send { padding } ==> {
            &&& MIN_LATENCY_SAMPLES <= queued + padding <= MAX_LATENCY_SAMPLES
            &&& padding > 0 ==> queued + padding == TARGET_LATENCY_SAMPLES
        },
{
}

} // verus!
