use silero_vad_crs::{
    apply_speech_padding, get_timestamps_from_frames, speech_segments,
    try_get_timestamps_from_frames, FrameLevel, MaxSpeech, SegmentConfig, SpeechTimestamp,
};

const SPEECH: FrameLevel = FrameLevel { speech: true, silence: false };
const QUIET: FrameLevel = FrameLevel { speech: false, silence: true };

fn frames(runs: &[(FrameLevel, usize)]) -> Vec<FrameLevel> {
    let mut out = Vec::new();
    for &(frame, count) in runs {
        for _ in 0..count {
            out.push(frame);
        }
    }
    out
}

fn ts(start: usize, end: usize) -> SpeechTimestamp {
    SpeechTimestamp { start, end }
}

#[test]
fn default_segment_config_values() {
    let config = SegmentConfig::default();
    assert_eq!(config.min_speech_duration_ms, 250);
    assert_eq!(config.max_speech, MaxSpeech::Unlimited);
    assert_eq!(config.min_silence_duration_ms, 100);
    assert_eq!(config.speech_pad_ms, 30);
    assert_eq!(config.window_size_samples, 512);
    assert_eq!(config.min_silence_at_max_speech_ms, 98);
    assert!(config.use_max_possible_silence_at_max_speech);
}

#[test]
fn no_frames_give_no_timestamps() {
    let config = SegmentConfig::default();
    assert!(get_timestamps_from_frames(&[], 16_000, &config).is_empty());
}

#[test]
fn zero_window_gives_no_timestamps() {
    let config = SegmentConfig { window_size_samples: 0, ..SegmentConfig::default() };
    let input = frames(&[(SPEECH, 20)]);
    assert!(get_timestamps_from_frames(&input, 10_240, &config).is_empty());
}

#[test]
fn silent_audio_gives_no_timestamps() {
    let config = SegmentConfig::default();
    let input = frames(&[(QUIET, 30)]);
    assert!(get_timestamps_from_frames(&input, 15_360, &config).is_empty());
}

#[test]
fn speech_followed_by_silence_is_one_padded_segment() {
    let config = SegmentConfig::default();
    let input = frames(&[(SPEECH, 10), (QUIET, 10)]);
    assert_eq!(get_timestamps_from_frames(&input, 10_240, &config), vec![ts(0, 5_600)]);
}

#[test]
fn speech_running_to_the_end_ends_with_the_audio() {
    let config = SegmentConfig::default();
    let input = frames(&[(QUIET, 10), (SPEECH, 10)]);
    assert_eq!(get_timestamps_from_frames(&input, 10_240, &config), vec![ts(4_640, 10_240)]);
}

#[test]
fn short_speech_is_dropped() {
    let config = SegmentConfig::default();
    let input = frames(&[(SPEECH, 3), (QUIET, 7)]);
    assert!(get_timestamps_from_frames(&input, 5_120, &config).is_empty());
}

#[test]
fn long_gap_gets_one_padding_on_each_side() {
    let config = SegmentConfig::default();
    let input = frames(&[(SPEECH, 10), (QUIET, 5), (SPEECH, 10), (QUIET, 5)]);
    assert_eq!(
        get_timestamps_from_frames(&input, 15_360, &config),
        vec![ts(0, 5_600), ts(7_200, 13_280)]
    );
}

#[test]
fn short_gap_is_shared_between_neighbours() {
    let config = SegmentConfig { speech_pad_ms: 100, ..SegmentConfig::default() };
    let input = frames(&[(SPEECH, 10), (QUIET, 5), (SPEECH, 10), (QUIET, 5)]);
    assert_eq!(
        get_timestamps_from_frames(&input, 15_360, &config),
        vec![ts(0, 6_400), ts(6_400, 14_400)]
    );
}

#[test]
fn forced_split_uses_the_longest_silence() {
    let config = SegmentConfig {
        min_silence_duration_ms: 200,
        max_speech: MaxSpeech::Samples(11_500),
        ..SegmentConfig::default()
    };
    let input = frames(&[(SPEECH, 10), (QUIET, 4), (SPEECH, 11), (QUIET, 8)]);
    assert_eq!(
        get_timestamps_from_frames(&input, 16_896, &config),
        vec![ts(0, 5_600), ts(6_688, 13_280)]
    );
}

#[test]
fn forced_split_without_silence_cuts_at_the_current_frame() {
    let config = SegmentConfig {
        max_speech: MaxSpeech::Samples(3_100),
        ..SegmentConfig::default()
    };
    let input = frames(&[(SPEECH, 10)]);
    assert_eq!(
        get_timestamps_from_frames(&input, 5_120, &config),
        vec![ts(0, 2_304), ts(2_304, 5_088)]
    );
}

#[test]
fn forced_split_at_last_silence_when_not_preferring_the_longest() {
    let config = SegmentConfig {
        min_silence_duration_ms: 200,
        max_speech: MaxSpeech::Samples(11_500),
        use_max_possible_silence_at_max_speech: false,
        ..SegmentConfig::default()
    };
    let input = frames(&[(SPEECH, 10), (QUIET, 5), (SPEECH, 10), (QUIET, 8)]);
    assert_eq!(
        get_timestamps_from_frames(&input, 16_896, &config),
        vec![ts(0, 5_600), ts(7_200, 13_280)]
    );
}

#[test]
fn negative_maximum_splits_at_every_frame() {
    let config = SegmentConfig {
        max_speech: MaxSpeech::Samples(i128::MIN),
        speech_pad_ms: 0,
        ..SegmentConfig::default()
    };
    let input = frames(&[(SPEECH, 4)]);
    assert_eq!(
        get_timestamps_from_frames(&input, 2_048, &config),
        vec![ts(0, 512), ts(1_024, 1_536)]
    );
}

#[test]
fn timestamps_are_ordered_and_inside_the_audio() {
    let config = SegmentConfig {
        max_speech: MaxSpeech::Samples(6_000),
        ..SegmentConfig::default()
    };
    let input = frames(&[
        (SPEECH, 7),
        (QUIET, 2),
        (SPEECH, 9),
        (QUIET, 6),
        (SPEECH, 12),
        (QUIET, 1),
        (SPEECH, 3),
    ]);
    let audio = input.len() * 512;
    let result = get_timestamps_from_frames(&input, audio, &config);
    assert!(!result.is_empty());
    for t in &result {
        assert!(t.start <= t.end && t.end <= audio);
    }
    for pair in result.windows(2) {
        assert!(pair[0].end <= pair[1].start);
    }
}

#[test]
fn padding_widens_and_shares_gaps() {
    let mut speeches = vec![ts(1_000, 2_000), ts(2_500, 4_000)];
    apply_speech_padding(&mut speeches, 4_200, 480);
    assert_eq!(speeches, vec![ts(520, 2_250), ts(2_250, 4_200)]);
}

#[test]
fn padding_clamps_at_audio_start_and_end() {
    let mut speeches = vec![ts(100, 900), ts(5_000, 6_000)];
    apply_speech_padding(&mut speeches, 6_200, 480);
    assert_eq!(speeches, vec![ts(0, 1_380), ts(4_520, 6_200)]);
}

#[test]
fn padding_nothing_is_nothing() {
    let mut speeches: Vec<SpeechTimestamp> = Vec::new();
    apply_speech_padding(&mut speeches, 100, 480);
    assert!(speeches.is_empty());
}

#[test]
fn silent_frame_at_the_end_of_the_largest_audio_gives_no_timestamps() {
    let config = SegmentConfig::default();
    let input = frames(&[(QUIET, 1)]);
    assert!(get_timestamps_from_frames(&input, usize::MAX, &config).is_empty());
    assert_eq!(try_get_timestamps_from_frames(&input, usize::MAX, &config), Some(Vec::new()));
}

#[test]
fn overflowing_padding_is_refused() {
    let config = SegmentConfig { speech_pad_ms: usize::MAX / 16, ..SegmentConfig::default() };
    let input = frames(&[(SPEECH, 10), (QUIET, 5), (SPEECH, 10), (QUIET, 5)]);
    assert_eq!(try_get_timestamps_from_frames(&input, 15_360, &config), None);
    let quiet = frames(&[(QUIET, 30)]);
    assert_eq!(try_get_timestamps_from_frames(&quiet, 15_360, &config), Some(Vec::new()));
}

#[test]
fn overflowing_frame_positions_are_refused() {
    let config = SegmentConfig { window_size_samples: usize::MAX / 2, ..SegmentConfig::default() };
    let input = frames(&[(QUIET, 4)]);
    assert_eq!(try_get_timestamps_from_frames(&input, 100, &config), None);
}

#[test]
fn checked_and_unchecked_timestamps_agree() {
    let config = SegmentConfig::default();
    let input = frames(&[(SPEECH, 10), (QUIET, 5), (SPEECH, 10), (QUIET, 5)]);
    assert_eq!(
        try_get_timestamps_from_frames(&input, 15_360, &config),
        Some(vec![ts(0, 5_600), ts(7_200, 13_280)])
    );
}

#[test]
fn unpadded_segments_fall_on_frames() {
    let config = SegmentConfig { speech_pad_ms: 0, ..SegmentConfig::default() };
    let input = frames(&[(SPEECH, 10), (QUIET, 5), (SPEECH, 10), (QUIET, 5)]);
    assert_eq!(
        get_timestamps_from_frames(&input, 15_360, &config),
        vec![ts(0, 5_120), ts(7_680, 12_800)]
    );
    assert_eq!(
        speech_segments(&input, 15_360, &config),
        vec![ts(0, 5_120), ts(7_680, 12_800)]
    );
}

#[test]
fn kept_segments_last_longer_than_the_minimum() {
    let config = SegmentConfig { speech_pad_ms: 0, ..SegmentConfig::default() };
    let input = frames(&[(SPEECH, 7), (QUIET, 5), (SPEECH, 9), (QUIET, 5)]);
    let result = get_timestamps_from_frames(&input, input.len() * 512, &config);
    assert_eq!(result, vec![ts(6_144, 10_752)]);
    for t in &result {
        assert!(t.end - t.start > 4_000);
    }
}
