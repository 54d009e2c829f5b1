//! Turning per-frame speech decisions into speech timestamps.
//!
//! The model yields one speech probability per window of audio. Each
//! probability is compared with the speech threshold and with the lower
//! silence threshold; what comes in here is the outcome of those two
//! comparisons for every frame, together with the integer settings of the
//! segmentation. The scan below groups frames into speech segments, splits
//! segments that run longer than the maximum speech duration, drops segments
//! that are too short, and finally pads every segment.

use vstd::prelude::*;

use crate::SAMPLE_RATE;

verus! {

/// A detected speech segment.
///
/// `start` and `end` are sample indices in the original 16 kHz audio.
#[derive(Debug, Clone, Copy, PartialEq, Eq, Structural)]
pub struct SpeechTimestamp {
    /// Inclusive start sample of the speech segment.
    pub start: usize,
    /// Exclusive end sample of the speech segment.
    pub end: usize,
}

/// The outcome of comparing one frame's speech probability with the thresholds.
#[derive(Debug, Clone, Copy, PartialEq, Eq, Structural)]
pub struct FrameLevel {
    /// The probability is at or above the speech threshold.
    pub speech: bool,
    /// The probability is below the silence (negative) threshold.
    pub silence: bool,
}

/// The longest speech segment allowed before it is split.
#[derive(Debug, Clone, Copy, PartialEq, Eq, Structural)]
pub enum MaxSpeech {
    /// Segments are never split for length.
    Unlimited,
    /// The maximum speech duration in samples, rounded down
    /// (`SAMPLE_RATE` times the duration in seconds). A segment of `d` samples
    /// is split once `d + window + 2 * padding` exceeds it.
    Samples(i128),
}

/// Integer settings of the segmentation.
#[derive(Debug, Clone, Copy, PartialEq, Eq, Structural)]
pub struct SegmentConfig {
    /// Minimum speech duration kept in the output.
    pub min_speech_duration_ms: usize,
    /// Maximum speech segment duration before forcing a split.
    pub max_speech: MaxSpeech,
    /// Silence duration needed before ending a speech segment.
    pub min_silence_duration_ms: usize,
    /// Padding added around detected speech segments.
    pub speech_pad_ms: usize,
    /// Number of audio samples represented by each frame.
    pub window_size_samples: usize,
    /// Minimum silence used when splitting at maximum speech duration.
    pub min_silence_at_max_speech_ms: usize,
    /// Prefer the longest possible silence when splitting at maximum speech duration.
    pub use_max_possible_silence_at_max_speech: bool,
}

impl Default for SegmentConfig {
    fn default() -> (config: Self)
        ensures
            config == default_segment_config(),
    {
        SegmentConfig {
            min_speech_duration_ms: 250,
            max_speech: MaxSpeech::Unlimited,
            min_silence_duration_ms: 100,
            speech_pad_ms: 30,
            window_size_samples: 512,
            min_silence_at_max_speech_ms: 98,
            use_max_possible_silence_at_max_speech: true,
        }
    }
}

/// The default settings: 250 ms minimum speech, no maximum, 100 ms minimum
/// silence, 30 ms padding, 512-sample windows, 98 ms silence at a forced
/// split, and splitting at the longest silence.
pub open spec fn default_segment_config() -> SegmentConfig {
    SegmentConfig {
        min_speech_duration_ms: 250,
        max_speech: MaxSpeech::Unlimited,
        min_silence_duration_ms: 100,
        speech_pad_ms: 30,
        window_size_samples: 512,
        min_silence_at_max_speech_ms: 98,
        use_max_possible_silence_at_max_speech: true,
    }
}

/// Number of samples in `ms` milliseconds of 16 kHz audio.
pub open spec fn ms_samples(ms: usize) -> int {
    SAMPLE_RATE as int * ms / 1000
}

/// `a - b`, or 0 where `b` exceeds `a`.
pub open spec fn sat_sub(a: usize, b: usize) -> usize {
    if a >= b {
        (a - b) as usize
    } else {
        0
    }
}

/// Padding of each segment, in samples.
pub open spec fn pad_samples(config: SegmentConfig) -> int {
    ms_samples(config.speech_pad_ms)
}

/// Whether a segment of `duration` samples runs past the maximum speech duration.
pub open spec fn exceeds_max_speech(config: SegmentConfig, duration: usize) -> bool {
    match config.max_speech {
        MaxSpeech::Unlimited => false,
        MaxSpeech::Samples(limit) => duration + config.window_size_samples + 2 * pad_samples(
            config,
        ) > limit,
    }
}

/// State of the scan between two frames.
pub struct Scan {
    /// Start of the segment in progress, if speech is going on.
    pub current: Option<usize>,
    /// First sample of the silence seen since the last speech frame (0: none).
    pub temp_end: usize,
    /// End of speech to use at a forced split (0: none).
    pub prev_end: usize,
    /// Start of the speech that followed `prev_end`.
    pub next_start: usize,
    /// Silences long enough to split at: (first silent sample, silence length).
    pub possible_ends: Seq<(usize, usize)>,
    /// Segments found so far.
    pub speeches: Seq<SpeechTimestamp>,
}

/// The state before the first frame.
pub open spec fn initial_scan() -> Scan {
    Scan {
        current: None,
        temp_end: 0,
        prev_end: 0,
        next_start: 0,
        possible_ends: Seq::empty(),
        speeches: Seq::empty(),
    }
}

/// `s` with `speeches` and `current` replaced and the split bookkeeping cleared.
pub open spec fn cleared(speeches: Seq<SpeechTimestamp>, current: Option<usize>) -> Scan {
    Scan {
        current,
        temp_end: 0,
        prev_end: 0,
        next_start: 0,
        possible_ends: Seq::empty(),
        speeches,
    }
}

/// Index of the longest silence among the first `k` entries; of several
/// equally long ones, the last.
pub open spec fn best_end_index(ends: Seq<(usize, usize)>, k: int) -> int
    decreases k,
{
    if k <= 1 {
        0
    } else {
        let b = best_end_index(ends, k - 1);
        if ends[k - 1].1 >= ends[b].1 {
            k - 1
        } else {
            b
        }
    }
}

/// A speech frame after silence: remember the silence if it is long enough
/// to split at, and note where speech resumed.
pub open spec fn resume_speech(config: SegmentConfig, s: Scan, cur: usize) -> Scan {
    let silence = sat_sub(cur, s.temp_end);
    Scan {
        current: s.current,
        temp_end: 0,
        prev_end: s.prev_end,
        next_start: if s.next_start < s.prev_end {
            cur
        } else {
            s.next_start
        },
        possible_ends: if silence > ms_samples(config.min_silence_at_max_speech_ms) {
            s.possible_ends.push((s.temp_end, silence))
        } else {
            s.possible_ends
        },
        speeches: s.speeches,
    }
}

/// Forced split of the segment that started at `start`; the flag tells
/// whether the frame is done with.
pub open spec fn split_speech(config: SegmentConfig, s: Scan, start: usize, cur: usize) -> (
    Scan,
    bool,
) {
    if config.use_max_possible_silence_at_max_speech && s.possible_ends.len() > 0 {
        let best = s.possible_ends[best_end_index(s.possible_ends, s.possible_ends.len() as int)];
        let next_start = best.0 + best.1;
        let speeches = s.speeches.push(SpeechTimestamp { start, end: best.0 });
        if next_start < best.0 + cur {
            (cleared(speeches, Some(next_start as usize)), false)
        } else {
            (cleared(speeches, None), false)
        }
    } else if s.prev_end != 0 {
        let speeches = s.speeches.push(SpeechTimestamp { start, end: s.prev_end });
        if s.next_start < s.prev_end {
            (cleared(speeches, None), false)
        } else {
            (cleared(speeches, Some(s.next_start)), false)
        }
    } else {
        (cleared(s.speeches.push(SpeechTimestamp { start, end: cur }), None), true)
    }
}

/// A silent frame during the segment that started at `start`.
pub open spec fn silent_frame(config: SegmentConfig, s: Scan, start: usize, cur: usize) -> Scan {
    let temp_end = if s.temp_end == 0 {
        cur
    } else {
        s.temp_end
    };
    let silence = sat_sub(cur, temp_end);
    let prev_end = if !config.use_max_possible_silence_at_max_speech && silence > ms_samples(
        config.min_silence_at_max_speech_ms,
    ) {
        temp_end
    } else {
        s.prev_end
    };
    if silence < ms_samples(config.min_silence_duration_ms) {
        Scan {
            current: s.current,
            temp_end,
            prev_end,
            next_start: s.next_start,
            possible_ends: s.possible_ends,
            speeches: s.speeches,
        }
    } else if sat_sub(temp_end, start) > ms_samples(config.min_speech_duration_ms) {
        cleared(s.speeches.push(SpeechTimestamp { start, end: temp_end }), None)
    } else {
        cleared(s.speeches, None)
    }
}

/// One frame of the scan; `cur` is the frame's first sample.
pub open spec fn scan_step(config: SegmentConfig, s: Scan, cur: usize, frame: FrameLevel) -> Scan {
    let s1 = if frame.speech && s.temp_end != 0 {
        resume_speech(config, s, cur)
    } else {
        s
    };
    if frame.speech && s1.current is None {
        Scan {
            current: Some(cur),
            temp_end: s1.temp_end,
            prev_end: s1.prev_end,
            next_start: s1.next_start,
            possible_ends: s1.possible_ends,
            speeches: s1.speeches,
        }
    } else {
        let (s2, done) = match s1.current {
            Some(start) => if exceeds_max_speech(config, sat_sub(cur, start)) {
                split_speech(config, s1, start, cur)
            } else {
                (s1, false)
            },
            None => (s1, false),
        };
        if done {
            s2
        } else {
            match s2.current {
                Some(start) => if frame.silence {
                    silent_frame(config, s2, start, cur)
                } else {
                    s2
                },
                None => s2,
            }
        }
    }
}

/// First sample of frame `index`.
pub open spec fn frame_sample(config: SegmentConfig, index: int) -> usize {
    (config.window_size_samples * index) as usize
}

/// The state after the first `n` frames.
pub open spec fn scan_frames(config: SegmentConfig, frames: Seq<FrameLevel>, n: int) -> Scan
    decreases n,
{
    if n <= 0 {
        initial_scan()
    } else {
        scan_step(
            config,
            scan_frames(config, frames, n - 1),
            frame_sample(config, n - 1),
            frames[n - 1],
        )
    }
}

/// The segments of a finished scan: speech still going on at the end of the
/// audio ends with the audio, if it is long enough.
pub open spec fn finish_scan(config: SegmentConfig, s: Scan, audio_length_samples: usize) -> Seq<
    SpeechTimestamp,
> {
    match s.current {
        Some(start) => if sat_sub(audio_length_samples, start) > ms_samples(
            config.min_speech_duration_ms,
        ) {
            s.speeches.push(SpeechTimestamp { start, end: audio_length_samples })
        } else {
            s.speeches
        },
        None => s.speeches,
    }
}

/// How far the silence between segments `i` and `i + 1` pulls their edges
/// towards each other: half the gap where it is shorter than two paddings,
/// one padding otherwise.
pub open spec fn gap_share(segs: Seq<SpeechTimestamp>, i: int, pad: usize) -> int {
    let gap = sat_sub(segs[i + 1].start, segs[i].end);
    if gap < 2 * pad {
        (gap / 2) as int
    } else {
        pad as int
    }
}

/// Start of segment `i` after padding.
pub open spec fn padded_start(segs: Seq<SpeechTimestamp>, i: int, pad: usize) -> usize {
    if i == 0 {
        sat_sub(segs[0].start, pad)
    } else {
        sat_sub(segs[i].start, gap_share(segs, i - 1, pad) as usize)
    }
}

/// End of segment `i` after padding.
pub open spec fn padded_end(
    segs: Seq<SpeechTimestamp>,
    i: int,
    audio_length_samples: usize,
    pad: usize,
) -> usize {
    let widened = if segs[i].end + pad < audio_length_samples {
        segs[i].end + pad
    } else {
        audio_length_samples as int
    };
    if i == segs.len() - 1 {
        widened as usize
    } else {
        let gap = sat_sub(segs[i + 1].start, segs[i].end);
        if gap < 2 * pad {
            (segs[i].end + gap / 2) as usize
        } else {
            widened as usize
        }
    }
}

/// The segments after padding.
pub open spec fn padded(segs: Seq<SpeechTimestamp>, audio_length_samples: usize, pad: usize) -> Seq<
    SpeechTimestamp,
> {
    Seq::new(
        segs.len(),
        |i: int|
            SpeechTimestamp {
                start: padded_start(segs, i, pad),
                end: padded_end(segs, i, audio_length_samples, pad),
            },
    )
}

/// The speech timestamps of an audio of `audio_length_samples` samples whose
/// frames were classified as `frames`.
pub open spec fn speech_timestamps(
    frames: Seq<FrameLevel>,
    audio_length_samples: usize,
    config: SegmentConfig,
) -> Seq<SpeechTimestamp> {
    if frames.len() == 0 || config.window_size_samples == 0 {
        Seq::empty()
    } else {
        padded(
            finish_scan(
                config,
                scan_frames(config, frames, frames.len() as int),
                audio_length_samples,
            ),
            audio_length_samples,
            pad_usize(config),
        )
    }
}

/// Largest sample index that a scan of `n` frames can produce.
pub open spec fn last_frame_sample(config: SegmentConfig, n: int) -> int {
    if n == 0 {
        0
    } else {
        config.window_size_samples * (n - 1)
    }
}

/// The padding as a sample count in `usize`, saturating where it does not fit.
pub open spec fn pad_usize(config: SegmentConfig) -> usize {
    if pad_samples(config) > usize::MAX {
        usize::MAX
    } else {
        pad_samples(config) as usize
    }
}

/// The additions of the padding fit in `usize`: two paddings where a gap
/// follows a segment, and one padding beyond every end that is widened by it.
pub open spec fn padding_fits(segs: Seq<SpeechTimestamp>, pad: usize) -> bool {
    &&& (segs.len() > 1 ==> 2 * pad <= usize::MAX)
    &&& forall|i: int|
        0 <= i < segs.len() && (i == segs.len() - 1 || sat_sub(segs[i + 1].start, segs[i].end) >= 2
            * pad) ==> #[trigger] segs[i].end + pad <= usize::MAX
}

/// The sample arithmetic of turning `frames` into timestamps fits in `usize`:
/// the first sample of every frame, and the padding of the segments found.
pub open spec fn timestamps_fit(
    frames: Seq<FrameLevel>,
    audio_length_samples: usize,
    config: SegmentConfig,
) -> bool {
    frames.len() == 0 || config.window_size_samples == 0 || {
        &&& last_frame_sample(config, frames.len() as int) <= usize::MAX
        &&& padding_fits(
            finish_scan(
                config,
                scan_frames(config, frames, frames.len() as int),
                audio_length_samples,
            ),
            pad_usize(config),
        )
    }
}

} // verus!
