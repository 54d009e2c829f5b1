//! The executable scan over frames and the padding of its segments.

use vstd::prelude::*;

use crate::timestamp_laws::{
    lemma_best_end_index_in_range, lemma_step_keeps_inv, scan_inv,
};
use crate::timestamps::{
    best_end_index, cleared, exceeds_max_speech, finish_scan, initial_scan, pad_usize, padding_fits, timestamps_fit,
    last_frame_sample, ms_samples, padded, padded_start, resume_speech, sat_sub, scan_frames,
    scan_step, silent_frame, speech_timestamps, split_speech, FrameLevel, MaxSpeech, Scan,
    SegmentConfig, SpeechTimestamp,
};
use crate::SAMPLE_RATE;

verus! {

/// Every recorded silence can be added to its start without overflow.
pub open spec fn ends_fit(ends: Seq<(usize, usize)>) -> bool {
    forall|i: int| 0 <= i < ends.len() ==> #[trigger] ends[i].0 + ends[i].1 <= usize::MAX
}

struct ScanState {
    current: Option<usize>,
    temp_end: usize,
    prev_end: usize,
    next_start: usize,
    possible_ends: Vec<(usize, usize)>,
    speeches: Vec<SpeechTimestamp>,
}

impl View for ScanState {
    type V = Scan;

    closed spec fn view(&self) -> Scan {
        Scan {
            current: self.current,
            temp_end: self.temp_end,
            prev_end: self.prev_end,
            next_start: self.next_start,
            possible_ends: self.possible_ends@,
            speeches: self.speeches@,
        }
    }
}

/// Number of samples in `ms` milliseconds of 16 kHz audio.
fn samples_for_ms(ms: usize) -> (samples: u128)
    ensures
        samples == ms_samples(ms),
{
    (ms as u128) * (SAMPLE_RATE as u128) / 1000
}

fn exceeds_max_speech_exec(config: &SegmentConfig, duration: usize) -> (exceeds: bool)
    ensures
        exceeds == exceeds_max_speech(*config, duration),
{
    match config.max_speech {
        MaxSpeech::Unlimited => false,
        MaxSpeech::Samples(limit) => {
            let pad = samples_for_ms(config.speech_pad_ms);
            assert(pad <= 16 * usize::MAX) by (nonlinear_arith)
                requires
                    pad == (config.speech_pad_ms as int) * 16000 / 1000,
                    config.speech_pad_ms <= usize::MAX,
            ;
            (duration as i128) + (config.window_size_samples as i128) + 2 * (pad as i128) > limit
        },
    }
}

impl ScanState {
    fn new() -> (s: ScanState)
        ensures
            s@ == initial_scan(),
    {
        ScanState {
            current: None,
            temp_end: 0,
            prev_end: 0,
            next_start: 0,
            possible_ends: Vec::new(),
            speeches: Vec::new(),
        }
    }

    fn clear_split_state(&mut self)
        ensures
            final(self)@ == cleared(old(self)@.speeches, old(self)@.current),
    {
        self.temp_end = 0;
        self.prev_end = 0;
        self.next_start = 0;
        self.possible_ends.clear();
    }

    fn resume_speech(&mut self, config: &SegmentConfig, cur: usize)
        requires
            ends_fit(old(self)@.possible_ends),
        ensures
            final(self)@ == resume_speech(*config, old(self)@, cur),
            ends_fit(final(self)@.possible_ends),
    {
        let silence = cur.saturating_sub(self.temp_end);
        if (silence as u128) > samples_for_ms(config.min_silence_at_max_speech_ms) {
            self.possible_ends.push((self.temp_end, silence));
        }
        self.temp_end = 0;
        if self.next_start < self.prev_end {
            self.next_start = cur;
        }
    }

    fn longest_silence(&self) -> (best: (usize, usize))
        requires
            self@.possible_ends.len() > 0,
        ensures
            best == self@.possible_ends[best_end_index(
                self@.possible_ends,
                self@.possible_ends.len() as int,
            )],
    {
        let n = self.possible_ends.len();
        let mut best: usize = 0;
        let mut k: usize = 1;
        while k < n
            invariant
                n == self@.possible_ends.len(),
                1 <= k <= n,
                0 <= best < k,
                best == best_end_index(self@.possible_ends, k as int),
            decreases n - k,
        {
            if self.possible_ends[k].1 >= self.possible_ends[best].1 {
                best = k;
            }
            k = k + 1;
        }
        self.possible_ends[best]
    }

    fn split_speech(&mut self, config: &SegmentConfig, start: usize, cur: usize) -> (done: bool)
        requires
            ends_fit(old(self)@.possible_ends),
        ensures
            (final(self)@, done) == split_speech(*config, old(self)@, start, cur),
    {
        if config.use_max_possible_silence_at_max_speech && self.possible_ends.len() > 0 {
            let best = self.longest_silence();
            proof {
                let k = best_end_index(self@.possible_ends, self@.possible_ends.len() as int);
                lemma_best_end_index_in_range(self@.possible_ends, self@.possible_ends.len() as int);
                assert(self@.possible_ends[k].0 + self@.possible_ends[k].1 <= usize::MAX);
            }
            let (best_end, best_duration) = best;
            self.speeches.push(SpeechTimestamp { start, end: best_end });
            let next_start = best_end + best_duration;
            if (next_start as u128) < (best_end as u128) + (cur as u128) {
                self.current = Some(next_start);
            } else {
                self.current = None;
            }
            self.clear_split_state();
            false
        } else if self.prev_end != 0 {
            self.speeches.push(SpeechTimestamp { start, end: self.prev_end });
            if self.next_start < self.prev_end {
                self.current = None;
            } else {
                self.current = Some(self.next_start);
            }
            self.clear_split_state();
            false
        } else {
            self.speeches.push(SpeechTimestamp { start, end: cur });
            self.current = None;
            self.clear_split_state();
            true
        }
    }

    fn silent_frame(&mut self, config: &SegmentConfig, start: usize, cur: usize)
        requires
            ends_fit(old(self)@.possible_ends),
        ensures
            final(self)@ == silent_frame(*config, old(self)@, start, cur),
            ends_fit(final(self)@.possible_ends),
    {
        if self.temp_end == 0 {
            self.temp_end = cur;
        }
        let silence = cur.saturating_sub(self.temp_end);
        if !config.use_max_possible_silence_at_max_speech && (silence as u128) > samples_for_ms(
            config.min_silence_at_max_speech_ms,
        ) {
            self.prev_end = self.temp_end;
        }
        if (silence as u128) < samples_for_ms(config.min_silence_duration_ms) {
            return ;
        }
        if (self.temp_end.saturating_sub(start) as u128) > samples_for_ms(
            config.min_speech_duration_ms,
        ) {
            self.speeches.push(SpeechTimestamp { start, end: self.temp_end });
        }
        self.current = None;
        self.clear_split_state();
    }

    fn step(&mut self, config: &SegmentConfig, cur: usize, frame: FrameLevel)
        requires
            ends_fit(old(self)@.possible_ends),
        ensures
            final(self)@ == scan_step(*config, old(self)@, cur, frame),
            ends_fit(final(self)@.possible_ends),
    {
        if frame.speech && self.temp_end != 0 {
            self.resume_speech(config, cur);
        }
        if frame.speech && self.current.is_none() {
            self.current = Some(cur);
            return ;
        }
        let mut done = false;
        if let Some(start) = self.current {
            if exceeds_max_speech_exec(config, cur.saturating_sub(start)) {
                done = self.split_speech(config, start, cur);
            }
        }
        if !done {
            if let Some(start) = self.current {
                if frame.silence {
                    self.silent_frame(config, start, cur);
                }
            }
        }
    }
}

/// Pads every segment: the first start moves back by one padding; between two
/// segments a gap shorter than two paddings is split evenly between them, a
/// longer one gives one padding to each side; ends never move past the end of
/// the audio where they are widened by a full padding.
pub fn apply_speech_padding(
    speeches: &mut Vec<SpeechTimestamp>,
    audio_length_samples: usize,
    speech_pad_samples: usize,
)
    requires
        padding_fits(old(speeches)@, speech_pad_samples),
    ensures
        final(speeches)@ == padded(old(speeches)@, audio_length_samples, speech_pad_samples),
{
    let ghost segs = speeches@;
    let n = speeches.len();
    let pad = speech_pad_samples;
    for index in 0..n
        invariant
            n == segs.len(),
            speeches@.len() == n,
            padding_fits(segs, pad),
            forall|j: int|
                0 <= j < index ==> #[trigger] speeches@[j] == padded(
                    segs,
                    audio_length_samples,
                    pad,
                )[j],
            index < n ==> speeches@[index as int].end == segs[index as int].end,
            index < n && index > 0 ==> speeches@[index as int].start == padded_start(
                segs,
                index as int,
                pad,
            ),
            index == 0 && n > 0 ==> speeches@[0].start == segs[0].start,
            forall|j: int| index < j < n ==> #[trigger] speeches@[j] == segs[j],
    {
        if index == 0 {
            let first = speeches[0];
            speeches.set(0, SpeechTimestamp { start: first.start.saturating_sub(pad), end: first.end });
        }
        let this = speeches[index];
        if index != n - 1 {
            let next = speeches[index + 1];
            let silence_duration = next.start.saturating_sub(this.end);
            if silence_duration < 2 * pad {
                let half_silence = silence_duration / 2;
                speeches.set(index, SpeechTimestamp { start: this.start, end: this.end + half_silence });
                speeches.set(
                    index + 1,
                    SpeechTimestamp { start: next.start.saturating_sub(half_silence), end: next.end },
                );
            } else {
                let widened = this.end + pad;
                let end = if audio_length_samples < widened {
                    audio_length_samples
                } else {
                    widened
                };
                speeches.set(index, SpeechTimestamp { start: this.start, end });
                speeches.set(
                    index + 1,
                    SpeechTimestamp { start: next.start.saturating_sub(pad), end: next.end },
                );
            }
        } else {
            let widened = this.end + pad;
            let end = if audio_length_samples < widened {
                audio_length_samples
            } else {
                widened
            };
            speeches.set(index, SpeechTimestamp { start: this.start, end });
        }
    }
    assert(speeches@ =~= padded(segs, audio_length_samples, pad));
}

fn padding_fits_exec(segs: &Vec<SpeechTimestamp>, pad: usize) -> (fits: bool)
    ensures
        fits == padding_fits(segs@, pad),
{
    let n = segs.len();
    if n > 1 && pad > usize::MAX / 2 {
        return false;
    }
    let mut i: usize = 0;
    while i < n
        invariant
            n == segs@.len(),
            i <= n,
            forall|j: int|
                0 <= j < i && (j == n - 1 || sat_sub(segs@[j + 1].start, segs@[j].end) >= 2 * pad)
                    ==> #[trigger] segs@[j].end + pad <= usize::MAX,
        decreases n - i,
    {
        let widened = i == n - 1 || segs[i + 1].start.saturating_sub(segs[i].end) as u128 >= 2
            * (pad as u128);
        if widened && segs[i].end > usize::MAX - pad {
            return false;
        }
        i = i + 1;
    }
    true
}

/// The segments found by scanning `frames`, before padding: speech still
/// going on at the end of the audio ends with the audio.
pub fn speech_segments(frames: &[FrameLevel], audio_length_samples: usize, config: &SegmentConfig) -> (segments: Vec<SpeechTimestamp>)
    requires
        last_frame_sample(*config, frames@.len() as int) <= usize::MAX,
    ensures
        segments@ == finish_scan(
            *config,
            scan_frames(*config, frames@, frames@.len() as int),
            audio_length_samples,
        ),
{
    let n = frames.len();
    let window = config.window_size_samples;
    let mut state = ScanState::new();
    for i in 0..n
        invariant
            n == frames@.len(),
            window == config.window_size_samples,
            last_frame_sample(*config, n as int) <= usize::MAX,
            state@ == scan_frames(*config, frames@, i as int),
            ends_fit(state@.possible_ends),
            scan_inv(state@, last_frame_sample(*config, i as int)),
    {
        assert(window * i <= window * (n - 1)) by (nonlinear_arith)
            requires
                i <= n - 1,
        ;
        let cur = window * i;
        proof {
            if i > 0 {
                assert(window * (i - 1) <= window * i) by (nonlinear_arith)
                    requires
                        i > 0,
                ;
            }
            lemma_step_keeps_inv(
                *config,
                state@,
                last_frame_sample(*config, i as int),
                cur,
                frames@[i as int],
            );
        }
        state.step(config, cur, frames[i]);
    }
    let current = state.current;
    let mut speeches = state.speeches;
    if let Some(start) = current {
        if (audio_length_samples.saturating_sub(start) as u128) > samples_for_ms(
            config.min_speech_duration_ms,
        ) {
            speeches.push(SpeechTimestamp { start, end: audio_length_samples });
        }
    }
    speeches
}

fn pad_exec(config: &SegmentConfig) -> (pad: usize)
    ensures
        pad == pad_usize(*config),
{
    let samples = samples_for_ms(config.speech_pad_ms);
    if samples > usize::MAX as u128 {
        usize::MAX
    } else {
        samples as usize
    }
}

/// Converts per-frame speech decisions into speech timestamps.
///
/// Frame `i` covers the samples from `i * window_size_samples`; the returned
/// `start` and `end` values are sample indices in the original audio.
pub fn get_timestamps_from_frames(
    frames: &[FrameLevel],
    audio_length_samples: usize,
    config: &SegmentConfig,
) -> (timestamps: Vec<SpeechTimestamp>)
    requires
        timestamps_fit(frames@, audio_length_samples, *config),
    ensures
        timestamps@ == speech_timestamps(frames@, audio_length_samples, *config),
        frames@.len() == 0 || config.window_size_samples == 0 ==> timestamps@.len() == 0,
{
    if frames.len() == 0 || config.window_size_samples == 0 {
        return Vec::new();
    }
    let mut speeches = speech_segments(frames, audio_length_samples, config);
    let pad = pad_exec(config);
    apply_speech_padding(&mut speeches, audio_length_samples, pad);
    speeches
}

/// Converts per-frame speech decisions into speech timestamps where the
/// sample arithmetic fits in `usize`, and gives `None` where it does not.
pub fn try_get_timestamps_from_frames(
    frames: &[FrameLevel],
    audio_length_samples: usize,
    config: &SegmentConfig,
) -> (timestamps: Option<Vec<SpeechTimestamp>>)
    ensures
        timestamps is None <==> !timestamps_fit(frames@, audio_length_samples, *config),
        timestamps matches Some(t) ==> t@ == speech_timestamps(
            frames@,
            audio_length_samples,
            *config,
        ),
{
    let n = frames.len();
    if n == 0 || config.window_size_samples == 0 {
        return Some(Vec::new());
    }
    if n > 1 && config.window_size_samples > usize::MAX / (n - 1) {
        assert(config.window_size_samples * (n - 1) > usize::MAX) by (nonlinear_arith)
            requires
                n >= 2,
                config.window_size_samples > (usize::MAX as int) / ((n - 1) as int),
        ;
        return None;
    }
    assert(config.window_size_samples * (n - 1) <= usize::MAX) by (nonlinear_arith)
        requires
            n >= 1,
            n == 1 || config.window_size_samples <= (usize::MAX as int) / ((n - 1) as int),
    ;
    let mut speeches = speech_segments(frames, audio_length_samples, config);
    let pad = pad_exec(config);
    if !padding_fits_exec(&speeches, pad) {
        return None;
    }
    apply_speech_padding(&mut speeches, audio_length_samples, pad);
    Some(speeches)
}

} // verus!
