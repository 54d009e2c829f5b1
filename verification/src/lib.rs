//! Voice activity detection post-processing and streaming bookkeeping.
//!
//! The neural model itself runs natively; this library holds the logic around
//! it: decoding the model's status codes, keeping the rolling context of a
//! stream, and turning per-frame speech decisions into speech timestamps.

use vstd::prelude::*;

pub mod status;
pub mod timestamps;
pub mod scan;
pub mod timestamp_laws;
pub mod stream;

pub use status::{SileroVadError, SileroVadStatus};
pub use stream::VadState;
pub use timestamps::{FrameLevel, MaxSpeech, SegmentConfig, SpeechTimestamp};
pub use scan::{
    apply_speech_padding, get_timestamps_from_frames, speech_segments, try_get_timestamps_from_frames,
};

verus! {

/// The sample rate supported by the 16 kHz model.
pub const SAMPLE_RATE: usize = 16_000;

/// Number of previous samples prepended to each streaming chunk.
pub const DEFAULT_CONTEXT_SAMPLES: usize = 64;

/// Number of fresh samples consumed per normal streaming step.
pub const DEFAULT_CHUNK_SAMPLES: usize = 512;

/// Total input samples expected by the model for one step.
pub const DEFAULT_INPUT_SAMPLES: usize = DEFAULT_CONTEXT_SAMPLES + DEFAULT_CHUNK_SAMPLES;

} // verus!
