//! What holds of every scan and of the timestamps it yields.

use vstd::prelude::*;

use crate::timestamps::{
    best_end_index, exceeds_max_speech, finish_scan, frame_sample, gap_share, initial_scan,
    last_frame_sample, ms_samples, pad_samples, pad_usize, padded, padded_end, padded_start,
    padding_fits, resume_speech, sat_sub, scan_frames, scan_step, silent_frame, speech_timestamps,
    split_speech, timestamps_fit, FrameLevel, MaxSpeech, Scan, SegmentConfig, SpeechTimestamp,
};

verus! {

/// Each segment starts no later than it ends, and a segment ends no later
/// than any later segment starts.
pub open spec fn ordered(segs: Seq<SpeechTimestamp>) -> bool {
    &&& forall|i: int| 0 <= i < segs.len() ==> (#[trigger] segs[i]).start <= segs[i].end
    &&& forall|i: int, j: int|
        0 <= i < j < segs.len() ==> (#[trigger] segs[i]).end <= (#[trigger] segs[j]).start
}

/// No segment ends after `b`.
pub open spec fn ends_at_most(segs: Seq<SpeechTimestamp>, b: int) -> bool {
    forall|i: int| 0 <= i < segs.len() ==> (#[trigger] segs[i]).end <= b
}

/// What holds of the scan state once the frames up to sample `b` are read.
pub open spec fn scan_inv(s: Scan, b: int) -> bool {
    &&& ordered(s.speeches)
    &&& ends_at_most(s.speeches, b)
    &&& match s.current {
        None => {
            &&& s.temp_end == 0
            &&& s.prev_end == 0
            &&& s.next_start == 0
            &&& s.possible_ends.len() == 0
        },
        Some(st) => {
            &&& st <= b
            &&& ends_at_most(s.speeches, st as int)
            &&& (s.temp_end != 0 ==> st <= s.temp_end <= b)
            &&& (s.prev_end != 0 ==> st <= s.prev_end <= b)
            &&& s.next_start <= b
            &&& forall|i: int|
                0 <= i < s.possible_ends.len() ==> st <= (#[trigger] s.possible_ends[i]).0
                    && s.possible_ends[i].0 + s.possible_ends[i].1 <= b
        },
    }
}

pub proof fn lemma_best_end_index_in_range(ends: Seq<(usize, usize)>, k: int)
    requires
        k >= 1,
    ensures
        0 <= best_end_index(ends, k) < k,
    decreases k,
{
    if k > 1 {
        lemma_best_end_index_in_range(ends, k - 1);
    }
}

proof fn lemma_push_ordered(segs: Seq<SpeechTimestamp>, x: SpeechTimestamp, b: int)
    requires
        ordered(segs),
        ends_at_most(segs, x.start as int),
        x.start <= x.end,
        ends_at_most(segs, b),
        x.end <= b,
    ensures
        ordered(segs.push(x)),
        ends_at_most(segs.push(x), b),
        ends_at_most(segs.push(x), x.end as int),
{
    let t = segs.push(x);
    assert forall|i: int, j: int| 0 <= i < j < t.len() implies (#[trigger] t[i]).end <= (
    #[trigger] t[j]).start by {
        if j == segs.len() {
            assert(t[i] == segs[i]);
        } else {
            assert(t[i] == segs[i] && t[j] == segs[j]);
        }
    }
    assert forall|i: int| 0 <= i < t.len() implies (#[trigger] t[i]).start <= t[i].end by {
        if i < segs.len() {
            assert(t[i] == segs[i]);
        }
    }
    assert forall|i: int| 0 <= i < t.len() implies (#[trigger] t[i]).end <= b by {
        if i < segs.len() {
            assert(t[i] == segs[i]);
        }
    }
    assert forall|i: int| 0 <= i < t.len() implies (#[trigger] t[i]).end <= x.end by {
        if i < segs.len() {
            assert(t[i] == segs[i]);
            assert(segs[i].end <= x.start);
        }
    }
}

proof fn lemma_inv_weaken(s: Scan, b: int, b2: int)
    requires
        scan_inv(s, b),
        b <= b2,
    ensures
        scan_inv(s, b2),
{
}

proof fn lemma_resume_keeps_inv(config: SegmentConfig, s: Scan, b: int, cur: usize)
    requires
        scan_inv(s, b),
        b <= cur,
        s.temp_end != 0,
    ensures
        scan_inv(resume_speech(config, s, cur), cur as int),
{
    let r = resume_speech(config, s, cur);
    let st = s.current->0;
    let silence = sat_sub(cur, s.temp_end);
    if silence > ms_samples(config.min_silence_at_max_speech_ms) {
        let e = s.possible_ends.push((s.temp_end, silence));
        assert forall|i: int| 0 <= i < e.len() implies st <= (#[trigger] e[i]).0 && e[i].0 + e[i].1
            <= cur by {
            if i < s.possible_ends.len() {
                assert(e[i] == s.possible_ends[i]);
            }
        }
    }
}

proof fn lemma_split_keeps_inv(config: SegmentConfig, s: Scan, b: int, start: usize, cur: usize)
    requires
        scan_inv(s, b),
        b <= cur,
        s.current == Some(start),
    ensures
        scan_inv(split_speech(config, s, start, cur).0, cur as int),
{
    lemma_inv_weaken(s, b, cur as int);
    if config.use_max_possible_silence_at_max_speech && s.possible_ends.len() > 0 {
        let k = best_end_index(s.possible_ends, s.possible_ends.len() as int);
        lemma_best_end_index_in_range(s.possible_ends, s.possible_ends.len() as int);
        let best = s.possible_ends[k];
        let x = SpeechTimestamp { start, end: best.0 };
        lemma_push_ordered(s.speeches, x, cur as int);
    } else if s.prev_end != 0 {
        let x = SpeechTimestamp { start, end: s.prev_end };
        lemma_push_ordered(s.speeches, x, cur as int);
    } else {
        let x = SpeechTimestamp { start, end: cur };
        lemma_push_ordered(s.speeches, x, cur as int);
    }
}

proof fn lemma_silent_keeps_inv(config: SegmentConfig, s: Scan, start: usize, cur: usize)
    requires
        scan_inv(s, cur as int),
        s.current == Some(start),
    ensures
        scan_inv(silent_frame(config, s, start, cur), cur as int),
{
    let temp_end = if s.temp_end == 0 {
        cur
    } else {
        s.temp_end
    };
    let x = SpeechTimestamp { start, end: temp_end };
    lemma_push_ordered(s.speeches, x, cur as int);
}

/// One frame keeps the scan state in shape, with `cur` as the new bound.
pub proof fn lemma_step_keeps_inv(
    config: SegmentConfig,
    s: Scan,
    b: int,
    cur: usize,
    frame: FrameLevel,
)
    requires
        scan_inv(s, b),
        b <= cur,
    ensures
        scan_inv(scan_step(config, s, cur, frame), cur as int),
{
    let s1 = if frame.speech && s.temp_end != 0 {
        resume_speech(config, s, cur)
    } else {
        s
    };
    if frame.speech && s.temp_end != 0 {
        lemma_resume_keeps_inv(config, s, b, cur);
    } else {
        lemma_inv_weaken(s, b, cur as int);
    }
    assert(scan_inv(s1, cur as int));
    if frame.speech && s1.current is None {
    } else {
        match s1.current {
            Some(start) => {
                if exceeds_max_speech(config, sat_sub(cur, start)) {
                    lemma_split_keeps_inv(config, s1, cur as int, start, cur);
                    let (s2, done) = split_speech(config, s1, start, cur);
                    if !done {
                        match s2.current {
                            Some(st2) => {
                                if frame.silence {
                                    lemma_silent_keeps_inv(config, s2, st2, cur);
                                }
                            },
                            None => {},
                        }
                    }
                } else {
                    if frame.silence {
                        lemma_silent_keeps_inv(config, s1, start, cur);
                    }
                }
            },
            None => {},
        }
    }
}

/// After `n` frames, the state is in shape with the last frame's sample as bound.
pub proof fn lemma_scan_inv(config: SegmentConfig, frames: Seq<FrameLevel>, n: int)
    requires
        0 <= n <= frames.len(),
        last_frame_sample(config, n) <= usize::MAX,
    ensures
        scan_inv(scan_frames(config, frames, n), last_frame_sample(config, n)),
    decreases n,
{
    if n > 0 {
        let w = config.window_size_samples;
        assert(w * (n - 2) <= w * (n - 1)) by (nonlinear_arith)
            requires
                n >= 1,
                w >= 0,
        ;
        assert(0 <= w * (n - 1)) by (nonlinear_arith)
            requires
                n >= 1,
                w >= 0,
        ;
        lemma_scan_inv(config, frames, n - 1);
        lemma_step_keeps_inv(
            config,
            scan_frames(config, frames, n - 1),
            last_frame_sample(config, n - 1),
            frame_sample(config, n - 1),
            frames[n - 1],
        );
    }
}

/// The segments of a finished scan are ordered and end by the last frame or
/// by the end of the audio.
pub proof fn lemma_finish_bounded(config: SegmentConfig, s: Scan, b: int, audio_length_samples: usize)
    requires
        scan_inv(s, b),
    ensures
        ordered(finish_scan(config, s, audio_length_samples)),
        ends_at_most(
            finish_scan(config, s, audio_length_samples),
            if b < audio_length_samples {
                audio_length_samples as int
            } else {
                b
            },
        ),
{
    let m = if b < audio_length_samples {
        audio_length_samples as int
    } else {
        b
    };
    lemma_inv_weaken(s, b, m);
    match s.current {
        Some(start) => {
            if sat_sub(audio_length_samples, start) > ms_samples(config.min_speech_duration_ms) {
                let x = SpeechTimestamp { start, end: audio_length_samples };
                lemma_push_ordered(s.speeches, x, m);
            }
        },
        None => {},
    }
}

/// Padding never makes a segment reach into the next one.
pub proof fn lemma_padded_disjoint(segs: Seq<SpeechTimestamp>, audio_length_samples: usize, pad: usize)
    requires
        ordered(segs),
    ensures
        forall|i: int|
            0 <= i < segs.len() - 1 ==> (#[trigger] padded(segs, audio_length_samples, pad)[i]).end
                <= padded(segs, audio_length_samples, pad)[i + 1].start,
{
    let p = padded(segs, audio_length_samples, pad);
    assert forall|i: int| 0 <= i < segs.len() - 1 implies (#[trigger] p[i]).end <= p[i + 1].start by {
        assert(segs[i].end <= segs[i + 1].start);
        let gap = sat_sub(segs[i + 1].start, segs[i].end);
        assert(gap == segs[i + 1].start - segs[i].end);
        assert(p[i].end == padded_end(segs, i, audio_length_samples, pad));
        assert(p[i + 1].start == padded_start(segs, i + 1, pad));
        assert(gap_share(segs, i, pad) <= gap);
    }
}

/// Padding keeps every segment inside an audio that held the unpadded
/// segments, and only ever widens a segment.
pub proof fn lemma_padded_within(segs: Seq<SpeechTimestamp>, audio_length_samples: usize, pad: usize)
    requires
        ordered(segs),
        ends_at_most(segs, audio_length_samples as int),
    ensures
        forall|i: int|
            0 <= i < segs.len() ==> {
                let p = #[trigger] padded(segs, audio_length_samples, pad)[i];
                &&& p.start <= segs[i].start
                &&& segs[i].end <= p.end
                &&& p.end <= audio_length_samples
            },
{
    let p = padded(segs, audio_length_samples, pad);
    assert forall|i: int| 0 <= i < segs.len() implies {
        &&& (#[trigger] p[i]).start <= segs[i].start
        &&& segs[i].end <= p[i].end
        &&& p[i].end <= audio_length_samples
    } by {
        assert(p[i].end == padded_end(segs, i, audio_length_samples, pad));
        assert(p[i].start == padded_start(segs, i, pad));
        assert(segs[i].end <= audio_length_samples);
        if i < segs.len() - 1 {
            assert(segs[i].end <= segs[i + 1].start);
            assert(segs[i + 1].start <= segs[i + 1].end);
            assert(segs[i + 1].end <= audio_length_samples);
        }
        if i > 0 {
            assert(segs[i - 1].end <= segs[i].start);
        }
    }
}

/// Speech timestamps never overlap: each one ends no later than the next
/// one starts.
pub proof fn timestamps_do_not_overlap(
    frames: Seq<FrameLevel>,
    audio_length_samples: usize,
    config: SegmentConfig,
)
    requires
        last_frame_sample(config, frames.len() as int) <= usize::MAX,
    ensures
        forall|i: int|
            0 <= i < speech_timestamps(frames, audio_length_samples, config).len() - 1 ==> (
            #[trigger] speech_timestamps(frames, audio_length_samples, config)[i]).end
                <= speech_timestamps(frames, audio_length_samples, config)[i + 1].start,
{
    if frames.len() > 0 && config.window_size_samples > 0 {
        let n = frames.len() as int;
        let s = scan_frames(config, frames, n);
        lemma_scan_inv(config, frames, n);
        lemma_finish_bounded(config, s, last_frame_sample(config, n), audio_length_samples);
        lemma_padded_disjoint(
            finish_scan(config, s, audio_length_samples),
            audio_length_samples,
            pad_usize(config),
        );
    }
}

/// When no frame starts after the end of the audio, every speech timestamp
/// lies within the audio and starts no later than it ends.
pub proof fn timestamps_lie_within_audio(
    frames: Seq<FrameLevel>,
    audio_length_samples: usize,
    config: SegmentConfig,
)
    requires
        last_frame_sample(config, frames.len() as int) <= usize::MAX,
        last_frame_sample(config, frames.len() as int) <= audio_length_samples,
    ensures
        forall|i: int|
            0 <= i < speech_timestamps(frames, audio_length_samples, config).len() ==> {
                let t = #[trigger] speech_timestamps(frames, audio_length_samples, config)[i];
                t.start <= t.end <= audio_length_samples
            },
{
    if frames.len() > 0 && config.window_size_samples > 0 {
        let n = frames.len() as int;
        let s = scan_frames(config, frames, n);
        let f = finish_scan(config, s, audio_length_samples);
        lemma_scan_inv(config, frames, n);
        lemma_finish_bounded(config, s, last_frame_sample(config, n), audio_length_samples);
        lemma_padded_within(f, audio_length_samples, pad_usize(config));
        let p = padded(f, audio_length_samples, pad_usize(config));
        assert forall|i: int| 0 <= i < p.len() implies (#[trigger] p[i]).start <= p[i].end
            <= audio_length_samples by {
            assert(f[i].start <= f[i].end);
        }
    }
}

/// Padding only widens: every padded segment contains the segment it came
/// from, within an audio that contains them all.
pub proof fn padding_widens_segments(
    segs: Seq<SpeechTimestamp>,
    audio_length_samples: usize,
    pad: usize,
)
    requires
        ordered(segs),
        ends_at_most(segs, audio_length_samples as int),
    ensures
        padded(segs, audio_length_samples, pad).len() == segs.len(),
        forall|i: int|
            0 <= i < segs.len() ==> {
                let p = #[trigger] padded(segs, audio_length_samples, pad)[i];
                p.start <= segs[i].start <= segs[i].end <= p.end <= audio_length_samples
            },
{
    lemma_padded_within(segs, audio_length_samples, pad);
}

proof fn lemma_quiet_scan_is_initial(config: SegmentConfig, frames: Seq<FrameLevel>, n: int)
    requires
        0 <= n <= frames.len(),
        forall|i: int| 0 <= i < frames.len() ==> !(#[trigger] frames[i]).speech,
    ensures
        scan_frames(config, frames, n) == initial_scan(),
    decreases n,
{
    if n > 0 {
        lemma_quiet_scan_is_initial(config, frames, n - 1);
        assert(!frames[n - 1].speech);
    }
}

/// Audio in which no frame reaches the speech threshold has no speech timestamps.
pub proof fn no_speech_frames_no_timestamps(
    frames: Seq<FrameLevel>,
    audio_length_samples: usize,
    config: SegmentConfig,
)
    requires
        forall|i: int| 0 <= i < frames.len() ==> !(#[trigger] frames[i]).speech,
    ensures
        speech_timestamps(frames, audio_length_samples, config).len() == 0,
        last_frame_sample(config, frames.len() as int) <= usize::MAX ==> timestamps_fit(
            frames,
            audio_length_samples,
            config,
        ),
{
    lemma_quiet_scan_is_initial(config, frames, frames.len() as int);
    assert(padding_fits(Seq::<SpeechTimestamp>::empty(), pad_usize(config)));
}

/// Every segment lasts more than `m` samples.
pub open spec fn longer_than(segs: Seq<SpeechTimestamp>, m: int) -> bool {
    forall|i: int| 0 <= i < segs.len() ==> (#[trigger] segs[i]).end - segs[i].start > m
}

proof fn lemma_push_longer(segs: Seq<SpeechTimestamp>, x: SpeechTimestamp, m: int)
    requires
        longer_than(segs, m),
        x.end - x.start > m,
    ensures
        longer_than(segs.push(x), m),
{
    assert forall|i: int| 0 <= i < segs.len() + 1 implies (#[trigger] segs.push(x)[i]).end - segs.push(
        x,
    )[i].start > m by {
        if i < segs.len() {
            assert(segs.push(x)[i] == segs[i]);
        }
    }
}

proof fn lemma_step_keeps_longer(config: SegmentConfig, s: Scan, cur: usize, frame: FrameLevel)
    requires
        config.max_speech == MaxSpeech::Unlimited,
        longer_than(s.speeches, ms_samples(config.min_speech_duration_ms)),
    ensures
        longer_than(
            scan_step(config, s, cur, frame).speeches,
            ms_samples(config.min_speech_duration_ms),
        ),
{
    let s1 = if frame.speech && s.temp_end != 0 {
        resume_speech(config, s, cur)
    } else {
        s
    };
    if !(frame.speech && s1.current is None) {
        match s1.current {
            Some(start) => {
                if frame.silence {
                    let temp_end = if s1.temp_end == 0 {
                        cur
                    } else {
                        s1.temp_end
                    };
                    if sat_sub(temp_end, start) > ms_samples(config.min_speech_duration_ms) {
                        lemma_push_longer(
                            s1.speeches,
                            SpeechTimestamp { start, end: temp_end },
                            ms_samples(config.min_speech_duration_ms),
                        );
                    }
                }
            },
            None => {},
        }
    }
}

proof fn lemma_scan_keeps_longer(config: SegmentConfig, frames: Seq<FrameLevel>, n: int)
    requires
        0 <= n <= frames.len(),
        config.max_speech == MaxSpeech::Unlimited,
    ensures
        longer_than(scan_frames(config, frames, n).speeches, ms_samples(config.min_speech_duration_ms)),
    decreases n,
{
    if n > 0 {
        lemma_scan_keeps_longer(config, frames, n - 1);
        lemma_step_keeps_longer(
            config,
            scan_frames(config, frames, n - 1),
            frame_sample(config, n - 1),
            frames[n - 1],
        );
    }
}

/// With no maximum speech duration and every frame starting inside the
/// audio, every speech timestamp lasts longer than the minimum speech duration.
pub proof fn timestamps_last_longer_than_min_speech(
    frames: Seq<FrameLevel>,
    audio_length_samples: usize,
    config: SegmentConfig,
)
    requires
        config.max_speech == MaxSpeech::Unlimited,
        last_frame_sample(config, frames.len() as int) <= usize::MAX,
        last_frame_sample(config, frames.len() as int) <= audio_length_samples,
    ensures
        longer_than(
            speech_timestamps(frames, audio_length_samples, config),
            ms_samples(config.min_speech_duration_ms),
        ),
{
    if frames.len() > 0 && config.window_size_samples > 0 {
        let n = frames.len() as int;
        let m = ms_samples(config.min_speech_duration_ms);
        let s = scan_frames(config, frames, n);
        let f = finish_scan(config, s, audio_length_samples);
        lemma_scan_inv(config, frames, n);
        lemma_scan_keeps_longer(config, frames, n);
        lemma_finish_bounded(config, s, last_frame_sample(config, n), audio_length_samples);
        match s.current {
            Some(start) => {
                if sat_sub(audio_length_samples, start) > m {
                    lemma_push_longer(
                        s.speeches,
                        SpeechTimestamp { start, end: audio_length_samples },
                        m,
                    );
                }
            },
            None => {},
        }
        assert(longer_than(f, m));
        lemma_padded_within(f, audio_length_samples, pad_usize(config));
        let p = padded(f, audio_length_samples, pad_usize(config));
        assert forall|i: int| 0 <= i < p.len() implies (#[trigger] p[i]).end - p[i].start > m by {
            assert(f[i].end - f[i].start > m);
        }
    }
}

/// Sample `x` is the first sample of one of the first `n` frames, a speech frame.
pub open spec fn speech_frame_at(
    config: SegmentConfig,
    frames: Seq<FrameLevel>,
    n: int,
    x: usize,
) -> bool {
    exists|k: int| 0 <= k < n && (#[trigger] frames[k]).speech && frame_sample(config, k) == x
}

/// Sample `x` is the first sample of one of the first `n` frames, a silent frame.
pub open spec fn silent_frame_at(
    config: SegmentConfig,
    frames: Seq<FrameLevel>,
    n: int,
    x: usize,
) -> bool {
    exists|k: int| 0 <= k < n && (#[trigger] frames[k]).silence && frame_sample(config, k) == x
}

/// After `n` frames, segment starts and the start in progress fall on speech
/// frames, and segment ends and the remembered silence fall on silent frames.
pub open spec fn on_frames(config: SegmentConfig, frames: Seq<FrameLevel>, s: Scan, n: int) -> bool {
    &&& forall|j: int|
        0 <= j < s.speeches.len() ==> speech_frame_at(config, frames, n, (#[trigger] s.speeches[j]).start)
            && silent_frame_at(config, frames, n, s.speeches[j].end)
    &&& (s.current matches Some(st) ==> speech_frame_at(config, frames, n, st))
    &&& (s.temp_end != 0 ==> silent_frame_at(config, frames, n, s.temp_end))
}

proof fn lemma_on_frames_grow(config: SegmentConfig, frames: Seq<FrameLevel>, s: Scan, n: int)
    requires
        on_frames(config, frames, s, n),
    ensures
        on_frames(config, frames, s, n + 1),
{
    assert forall|j: int| 0 <= j < s.speeches.len() implies speech_frame_at(
        config,
        frames,
        n + 1,
        (#[trigger] s.speeches[j]).start,
    ) && silent_frame_at(config, frames, n + 1, s.speeches[j].end) by {
        let k1 = choose|k: int|
            0 <= k < n && (#[trigger] frames[k]).speech && frame_sample(config, k)
                == s.speeches[j].start;
        let k2 = choose|k: int|
            0 <= k < n && (#[trigger] frames[k]).silence && frame_sample(config, k)
                == s.speeches[j].end;
        assert(frames[k1].speech);
        assert(frames[k2].silence);
    }
    if s.current is Some {
        let st = s.current->0;
        let k = choose|k: int| 0 <= k < n && (#[trigger] frames[k]).speech && frame_sample(config, k) == st;
        assert(frames[k].speech);
    }
    if s.temp_end != 0 {
        let k = choose|k: int|
            0 <= k < n && (#[trigger] frames[k]).silence && frame_sample(config, k) == s.temp_end;
        assert(frames[k].silence);
    }
}

proof fn lemma_step_on_frames(config: SegmentConfig, frames: Seq<FrameLevel>, s: Scan, n: int)
    requires
        0 <= n < frames.len(),
        config.max_speech == MaxSpeech::Unlimited,
        on_frames(config, frames, s, n),
    ensures
        on_frames(
            config,
            frames,
            scan_step(config, s, frame_sample(config, n), frames[n]),
            n + 1,
        ),
{
    let cur = frame_sample(config, n);
    let frame = frames[n];
    lemma_on_frames_grow(config, frames, s, n);
    let s1 = if frame.speech && s.temp_end != 0 {
        resume_speech(config, s, cur)
    } else {
        s
    };
    assert(on_frames(config, frames, s1, n + 1));
    if frame.speech && s1.current is None {
        assert(frames[n].speech);
        assert(speech_frame_at(config, frames, n + 1, cur));
    } else {
        match s1.current {
            Some(start) => {
                if frame.silence {
                    let temp_end = if s1.temp_end == 0 {
                        cur
                    } else {
                        s1.temp_end
                    };
                    assert(frames[n].silence);
                    assert(silent_frame_at(config, frames, n + 1, temp_end));
                    let r = silent_frame(config, s1, start, cur);
                    if sat_sub(temp_end, start) > ms_samples(config.min_speech_duration_ms) && !(sat_sub(cur, temp_end) < ms_samples(config.min_silence_duration_ms)) {
                        let x = SpeechTimestamp { start, end: temp_end };
                        assert forall|j: int| 0 <= j < r.speeches.len() implies speech_frame_at(
                            config,
                            frames,
                            n + 1,
                            (#[trigger] r.speeches[j]).start,
                        ) && silent_frame_at(config, frames, n + 1, r.speeches[j].end) by {
                            if j < s1.speeches.len() {
                                assert(r.speeches[j] == s1.speeches[j]);
                            } else {
                                assert(r.speeches[j] == x);
                            }
                        }
                    }
                }
            },
            None => {},
        }
    }
}

proof fn lemma_scan_on_frames(config: SegmentConfig, frames: Seq<FrameLevel>, n: int)
    requires
        0 <= n <= frames.len(),
        config.max_speech == MaxSpeech::Unlimited,
    ensures
        on_frames(config, frames, scan_frames(config, frames, n), n),
    decreases n,
{
    if n > 0 {
        lemma_scan_on_frames(config, frames, n - 1);
        lemma_step_on_frames(config, frames, scan_frames(config, frames, n - 1), n - 1);
    }
}

/// With no padding and no maximum speech duration, every speech timestamp
/// starts at the first sample of a speech frame and ends at the first sample
/// of a silent frame or at the end of the audio.
pub proof fn unpadded_timestamps_fall_on_frames(
    frames: Seq<FrameLevel>,
    audio_length_samples: usize,
    config: SegmentConfig,
)
    requires
        config.max_speech == MaxSpeech::Unlimited,
        config.speech_pad_ms == 0,
    ensures
        forall|i: int|
            0 <= i < speech_timestamps(frames, audio_length_samples, config).len() ==> {
                let t = #[trigger] speech_timestamps(frames, audio_length_samples, config)[i];
                &&& speech_frame_at(config, frames, frames.len() as int, t.start)
                &&& (t.end == audio_length_samples || silent_frame_at(
                    config,
                    frames,
                    frames.len() as int,
                    t.end,
                ))
            },
{
    if frames.len() > 0 && config.window_size_samples > 0 {
        let n = frames.len() as int;
        let s = scan_frames(config, frames, n);
        let f = finish_scan(config, s, audio_length_samples);
        lemma_scan_on_frames(config, frames, n);
        assert(pad_usize(config) == 0);
        let p = padded(f, audio_length_samples, 0);
        assert forall|i: int| 0 <= i < p.len() implies {
            &&& speech_frame_at(config, frames, n, (#[trigger] p[i]).start)
            &&& (p[i].end == audio_length_samples || silent_frame_at(config, frames, n, p[i].end))
        } by {
            assert(p[i].start == padded_start(f, i, 0));
            assert(p[i].end == padded_end(f, i, audio_length_samples, 0));
            assert(p[i].start == f[i].start);
            assert(p[i].end == f[i].end || p[i].end == audio_length_samples);
            if i < s.speeches.len() {
                assert(f[i] == s.speeches[i]);
            }
        }
    }
}

/// Segments end after they start, and so will the segment in progress.
pub open spec fn strict_inv(s: Scan) -> bool {
    &&& forall|j: int| 0 <= j < s.speeches.len() ==> (#[trigger] s.speeches[j]).start < s.speeches[j].end
    &&& match s.current {
        None => true,
        Some(st) => {
            &&& (s.temp_end != 0 ==> st < s.temp_end)
            &&& (s.prev_end != 0 ==> st < s.prev_end)
            &&& forall|i: int|
                0 <= i < s.possible_ends.len() ==> st < (#[trigger] s.possible_ends[i]).0
        },
    }
}

proof fn lemma_push_strict(segs: Seq<SpeechTimestamp>, x: SpeechTimestamp)
    requires
        forall|j: int| 0 <= j < segs.len() ==> (#[trigger] segs[j]).start < segs[j].end,
        x.start < x.end,
    ensures
        forall|j: int| 0 <= j < segs.push(x).len() ==> (#[trigger] segs.push(x)[j]).start < segs.push(
            x,
        )[j].end,
{
    assert forall|j: int| 0 <= j < segs.push(x).len() implies (#[trigger] segs.push(x)[j]).start
        < segs.push(x)[j].end by {
        if j < segs.len() {
            assert(segs.push(x)[j] == segs[j]);
        }
    }
}

proof fn lemma_split_strict(config: SegmentConfig, s: Scan, b: int, start: usize, cur: usize)
    requires
        scan_inv(s, b),
        strict_inv(s),
        s.current == Some(start),
        start < cur,
    ensures
        strict_inv(split_speech(config, s, start, cur).0),
        split_speech(config, s, start, cur).0.current matches Some(x) ==> x <= b,
{
    if config.use_max_possible_silence_at_max_speech && s.possible_ends.len() > 0 {
        let k = best_end_index(s.possible_ends, s.possible_ends.len() as int);
        lemma_best_end_index_in_range(s.possible_ends, s.possible_ends.len() as int);
        lemma_push_strict(s.speeches, SpeechTimestamp { start, end: s.possible_ends[k].0 });
    } else if s.prev_end != 0 {
        lemma_push_strict(s.speeches, SpeechTimestamp { start, end: s.prev_end });
    } else {
        lemma_push_strict(s.speeches, SpeechTimestamp { start, end: cur });
    }
}

proof fn lemma_silent_strict(config: SegmentConfig, s: Scan, start: usize, cur: usize)
    requires
        strict_inv(s),
        s.current == Some(start),
        start < cur,
    ensures
        strict_inv(silent_frame(config, s, start, cur)),
{
    let temp_end = if s.temp_end == 0 {
        cur
    } else {
        s.temp_end
    };
    if sat_sub(temp_end, start) > ms_samples(config.min_speech_duration_ms) {
        lemma_push_strict(s.speeches, SpeechTimestamp { start, end: temp_end });
    }
}

proof fn lemma_step_strict(config: SegmentConfig, s: Scan, b: int, cur: usize, frame: FrameLevel)
    requires
        scan_inv(s, b),
        strict_inv(s),
        b < cur,
        !(frame.speech && frame.silence),
    ensures
        strict_inv(scan_step(config, s, cur, frame)),
{
    if frame.speech {
        let s1 = if s.temp_end != 0 {
            resume_speech(config, s, cur)
        } else {
            s
        };
        if s.temp_end != 0 {
            lemma_resume_keeps_inv(config, s, b, cur);
            let st = s.current->0;
            let silence = sat_sub(cur, s.temp_end);
            if silence > ms_samples(config.min_silence_at_max_speech_ms) {
                let e = s.possible_ends.push((s.temp_end, silence));
                assert forall|i: int| 0 <= i < e.len() implies st < (#[trigger] e[i]).0 by {
                    if i < s.possible_ends.len() {
                        assert(e[i] == s.possible_ends[i]);
                    }
                }
            }
        } else {
            lemma_inv_weaken(s, b, cur as int);
        }
        assert(strict_inv(s1));
        assert(scan_inv(s1, cur as int));
        if s1.current is Some {
            let start = s1.current->0;
            if exceeds_max_speech(config, sat_sub(cur, start)) {
                lemma_split_strict(config, s1, cur as int, start, cur);
            }
        }
    } else {
        if s.current is Some {
            let start = s.current->0;
            if exceeds_max_speech(config, sat_sub(cur, start)) {
                lemma_split_strict(config, s, b, start, cur);
                let (s2, done) = split_speech(config, s, start, cur);
                if !done && frame.silence {
                    if s2.current is Some {
                        lemma_silent_strict(config, s2, s2.current->0, cur);
                    }
                }
            } else if frame.silence {
                lemma_silent_strict(config, s, start, cur);
            }
        }
    }
}

proof fn lemma_scan_strict(config: SegmentConfig, frames: Seq<FrameLevel>, n: int)
    requires
        0 <= n <= frames.len(),
        config.window_size_samples > 0,
        last_frame_sample(config, n) <= usize::MAX,
        forall|i: int| 0 <= i < frames.len() ==> !((#[trigger] frames[i]).speech && frames[i].silence),
    ensures
        strict_inv(scan_frames(config, frames, n)),
    decreases n,
{
    if n > 0 {
        let w = config.window_size_samples;
        assert(w * (n - 2) < w * (n - 1)) by (nonlinear_arith)
            requires
                n >= 1,
                w > 0,
        ;
        assert(0 <= w * (n - 1)) by (nonlinear_arith)
            requires
                n >= 1,
                w >= 0,
        ;
        lemma_scan_strict(config, frames, n - 1);
        let prev = scan_frames(config, frames, n - 1);
        if n == 1 {
            assert(scan_inv(prev, -1));
            lemma_step_strict(config, prev, -1, frame_sample(config, 0), frames[0]);
        } else {
            lemma_scan_inv(config, frames, n - 1);
            lemma_step_strict(
                config,
                prev,
                last_frame_sample(config, n - 1),
                frame_sample(config, n - 1),
                frames[n - 1],
            );
        }
    }
}

/// Where no frame counts as both speech and silence and every frame starts
/// inside the audio, every speech timestamp ends after it starts.
pub proof fn timestamps_end_after_they_start(
    frames: Seq<FrameLevel>,
    audio_length_samples: usize,
    config: SegmentConfig,
)
    requires
        last_frame_sample(config, frames.len() as int) <= usize::MAX,
        last_frame_sample(config, frames.len() as int) <= audio_length_samples,
        forall|i: int| 0 <= i < frames.len() ==> !((#[trigger] frames[i]).speech && frames[i].silence),
    ensures
        forall|i: int|
            0 <= i < speech_timestamps(frames, audio_length_samples, config).len() ==> (
            #[trigger] speech_timestamps(frames, audio_length_samples, config)[i]).start
                < speech_timestamps(frames, audio_length_samples, config)[i].end,
{
    if frames.len() > 0 && config.window_size_samples > 0 {
        let n = frames.len() as int;
        let s = scan_frames(config, frames, n);
        let f = finish_scan(config, s, audio_length_samples);
        lemma_scan_inv(config, frames, n);
        lemma_scan_strict(config, frames, n);
        lemma_finish_bounded(config, s, last_frame_sample(config, n), audio_length_samples);
        match s.current {
            Some(start) => {
                if sat_sub(audio_length_samples, start) > ms_samples(config.min_speech_duration_ms) {
                    lemma_push_strict(
                        s.speeches,
                        SpeechTimestamp { start, end: audio_length_samples },
                    );
                }
            },
            None => {},
        }
        lemma_padded_within(f, audio_length_samples, pad_usize(config));
        let p = padded(f, audio_length_samples, pad_usize(config));
        assert forall|i: int| 0 <= i < p.len() implies (#[trigger] p[i]).start < p[i].end by {
            assert(f[i].start < f[i].end);
        }
    }
}

/// The silence chosen for a forced split is one of the recorded ones, at
/// least as long as every other, and the last of several equally long ones.
pub proof fn best_end_index_picks_the_last_longest(ends: Seq<(usize, usize)>, k: int)
    requires
        1 <= k <= ends.len(),
    ensures
        0 <= best_end_index(ends, k) < k,
        forall|j: int| 0 <= j < k ==> (#[trigger] ends[j]).1 <= ends[best_end_index(ends, k)].1,
        forall|j: int|
            best_end_index(ends, k) < j < k ==> (#[trigger] ends[j]).1 < ends[best_end_index(
                ends,
                k,
            )].1,
    decreases k,
{
    if k > 1 {
        best_end_index_picks_the_last_longest(ends, k - 1);
    }
}

/// A forced split that prefers the longest silence ends the segment in
/// progress at the start of a recorded silence that no other recorded
/// silence outlasts, and keeps every segment found before.
pub proof fn forced_split_ends_at_a_longest_silence(
    config: SegmentConfig,
    s: Scan,
    start: usize,
    cur: usize,
)
    requires
        config.use_max_possible_silence_at_max_speech,
        s.possible_ends.len() > 0,
    ensures
        exists|k: int|
            0 <= k < s.possible_ends.len() && split_speech(config, s, start, cur).0.speeches
                == s.speeches.push(SpeechTimestamp { start, end: (#[trigger] s.possible_ends[k]).0 })
                && forall|j: int|
                0 <= j < s.possible_ends.len() ==> (#[trigger] s.possible_ends[j]).1
                    <= s.possible_ends[k].1,
{
    let n = s.possible_ends.len() as int;
    best_end_index_picks_the_last_longest(s.possible_ends, n);
    let k = best_end_index(s.possible_ends, n);
    assert(split_speech(config, s, start, cur).0.speeches == s.speeches.push(
        SpeechTimestamp { start, end: s.possible_ends[k].0 },
    ));
}

/// A frame that is neither speech nor silence changes nothing, unless the
/// segment in progress has run past the maximum speech duration: only a
/// silent frame can end a segment.
pub proof fn undecided_frame_changes_nothing(config: SegmentConfig, s: Scan, cur: usize)
    requires
        s.current matches Some(start) ==> !exceeds_max_speech(config, sat_sub(cur, start)),
    ensures
        scan_step(config, s, cur, FrameLevel { speech: false, silence: false }) == s,
{
}

/// Speech still going on when the audio ends gives a last timestamp that
/// ends exactly with the audio, whatever silence is pending, provided it is
/// longer than the minimum speech duration.
pub proof fn speech_at_the_end_ends_with_the_audio(
    frames: Seq<FrameLevel>,
    audio_length_samples: usize,
    config: SegmentConfig,
    start: usize,
)
    requires
        frames.len() > 0,
        config.window_size_samples > 0,
        scan_frames(config, frames, frames.len() as int).current == Some(start),
        audio_length_samples - start > ms_samples(config.min_speech_duration_ms),
    ensures
        finish_scan(config, scan_frames(config, frames, frames.len() as int), audio_length_samples)
            == scan_frames(config, frames, frames.len() as int).speeches.push(
            SpeechTimestamp { start, end: audio_length_samples },
        ),
        speech_timestamps(frames, audio_length_samples, config).len() > 0,
        speech_timestamps(frames, audio_length_samples, config).last().end == audio_length_samples,
{
    let n = frames.len() as int;
    let f = finish_scan(config, scan_frames(config, frames, n), audio_length_samples);
    let pad = pad_usize(config);
    let p = padded(f, audio_length_samples, pad);
    assert(f.last() == SpeechTimestamp { start, end: audio_length_samples });
    assert(p[f.len() - 1].end == padded_end(f, f.len() - 1, audio_length_samples, pad));
}

/// Padding moves every start back and every end forward by at most the
/// padding, and never the other way.
pub proof fn padding_moves_edges_by_at_most_the_padding(
    segs: Seq<SpeechTimestamp>,
    audio_length_samples: usize,
    pad: usize,
)
    ensures
        padded(segs, audio_length_samples, pad).len() == segs.len(),
        forall|i: int|
            0 <= i < segs.len() ==> {
                let p = #[trigger] padded(segs, audio_length_samples, pad)[i];
                &&& segs[i].start - pad <= p.start <= segs[i].start
                &&& p.end <= segs[i].end + pad
            },
{
    let p = padded(segs, audio_length_samples, pad);
    assert forall|i: int| 0 <= i < segs.len() implies {
        &&& segs[i].start - pad <= (#[trigger] p[i]).start <= segs[i].start
        &&& p[i].end <= segs[i].end + pad
    } by {
        assert(p[i].start == padded_start(segs, i, pad));
        assert(p[i].end == padded_end(segs, i, audio_length_samples, pad));
        if i > 0 {
            assert(gap_share(segs, i - 1, pad) <= pad);
        }
    }
}

/// The padding arithmetic fits wherever two paddings fit and every end plus
/// one padding fits.
pub proof fn padding_fits_when_sums_fit(segs: Seq<SpeechTimestamp>, pad: usize)
    requires
        2 * pad <= usize::MAX,
        forall|i: int| 0 <= i < segs.len() ==> (#[trigger] segs[i]).end + pad <= usize::MAX,
    ensures
        padding_fits(segs, pad),
{
}

/// Timestamps can be computed, without overflow, whenever the last frame's
/// first sample and the audio length each fit in `usize` with two paddings
/// added.
pub proof fn timestamps_fit_when_sums_fit(
    frames: Seq<FrameLevel>,
    audio_length_samples: usize,
    config: SegmentConfig,
)
    requires
        last_frame_sample(config, frames.len() as int) + 2 * pad_usize(config) <= usize::MAX,
        audio_length_samples + 2 * pad_usize(config) <= usize::MAX,
    ensures
        timestamps_fit(frames, audio_length_samples, config),
{
    if frames.len() > 0 && config.window_size_samples > 0 {
        let n = frames.len() as int;
        let s = scan_frames(config, frames, n);
        let f = finish_scan(config, s, audio_length_samples);
        lemma_scan_inv(config, frames, n);
        lemma_finish_bounded(config, s, last_frame_sample(config, n), audio_length_samples);
        let m = if last_frame_sample(config, n) < audio_length_samples {
            audio_length_samples as int
        } else {
            last_frame_sample(config, n)
        };
        assert forall|i: int| 0 <= i < f.len() implies (#[trigger] f[i]).end + pad_usize(config)
            <= usize::MAX by {
            assert(f[i].end <= m);
        }
        padding_fits_when_sums_fit(f, pad_usize(config));
    }
}

} // verus!
