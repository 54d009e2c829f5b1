use silero_vad_crs::{
    SileroVadError, SileroVadStatus, VadState, DEFAULT_CHUNK_SAMPLES, DEFAULT_CONTEXT_SAMPLES,
    DEFAULT_INPUT_SAMPLES,
};

fn stream(input_samples: usize) -> VadState {
    VadState::with_input_samples(input_samples, true).unwrap()
}

#[test]
fn model_creation_failure_is_reported() {
    assert!(matches!(
        VadState::with_input_samples(576, false),
        Err(SileroVadError::CreateFailed)
    ));
    assert!(matches!(VadState::new(false), Err(SileroVadError::CreateFailed)));
}

#[test]
fn default_model_takes_context_plus_chunk() {
    let state = VadState::new(true).unwrap();
    assert_eq!(DEFAULT_INPUT_SAMPLES, DEFAULT_CONTEXT_SAMPLES + DEFAULT_CHUNK_SAMPLES);
    assert_eq!(state.input_samples(), 576);
    assert!(state.context().is_empty());
}

#[test]
fn chunk_with_context_must_fill_the_input() {
    let state = stream(576);
    assert_eq!(state.check_chunk_with_context(576), Ok(()));
    assert_eq!(
        state.check_chunk_with_context(512),
        Err(SileroVadError::InvalidInputLength { expected: 576, actual: 512 })
    );
}

#[test]
fn first_chunk_gets_silent_context_and_later_ones_the_previous_tail() {
    let mut state = stream(5);
    let first = state.prepare_chunk_with_rolling_context(&[1, 2, 3], 2).unwrap();
    assert_eq!(first, vec![0, 0, 1, 2, 3]);
    assert_eq!(state.context(), &[2, 3]);
    let second = state.prepare_chunk_with_rolling_context(&[4, 5, 6], 2).unwrap();
    assert_eq!(second, vec![2, 3, 4, 5, 6]);
    assert_eq!(state.context(), &[5, 6]);
}

#[test]
fn changing_the_context_size_starts_from_silence() {
    let mut state = stream(5);
    state.prepare_chunk_with_rolling_context(&[1, 2, 3], 2).unwrap();
    let input = state.prepare_chunk_with_rolling_context(&[7, 8, 9, 10], 1).unwrap();
    assert_eq!(input, vec![0, 7, 8, 9, 10]);
    assert_eq!(state.context(), &[10]);
}

#[test]
fn context_longer_than_input_is_refused() {
    let mut state = stream(5);
    assert_eq!(
        state.prepare_chunk_with_rolling_context(&[], 6),
        Err(SileroVadError::InvalidContextLength { context_samples: 6, input_samples: 5 })
    );
    assert!(state.context().is_empty());
}

#[test]
fn wrong_chunk_length_is_refused_and_context_kept() {
    let mut state = stream(5);
    state.prepare_chunk_with_rolling_context(&[1, 2, 3], 2).unwrap();
    assert_eq!(
        state.prepare_chunk_with_rolling_context(&[1, 2], 2),
        Err(SileroVadError::InvalidInputLength { expected: 3, actual: 2 })
    );
    assert_eq!(state.context(), &[2, 3]);
}

#[test]
fn whole_context_chunk_of_zero_fresh_samples() {
    let mut state = stream(3);
    let input = state.prepare_chunk_with_rolling_context(&[], 3).unwrap();
    assert_eq!(input, vec![0, 0, 0]);
    assert_eq!(state.context(), &[0, 0, 0]);
}

#[test]
fn standard_chunk_uses_sixty_four_samples_of_context() {
    let mut state = VadState::new(true).unwrap();
    let chunk: Vec<u32> = (1..=512).collect();
    let input = state.prepare_chunk(&chunk).unwrap();
    assert_eq!(input.len(), 576);
    assert!(input[..64].iter().all(|&s| s == 0));
    assert_eq!(&input[64..], &chunk[..]);
    assert_eq!(state.context(), &chunk[448..]);
    let next: Vec<u32> = (1000..1512).collect();
    let input = state.prepare_chunk(&next).unwrap();
    assert_eq!(&input[..64], &chunk[448..]);
    assert_eq!(
        state.prepare_chunk(&next[..10]),
        Err(SileroVadError::InvalidInputLength { expected: 512, actual: 10 })
    );
}

#[test]
fn reset_forgets_the_context() {
    let mut state = stream(5);
    state.prepare_chunk_with_rolling_context(&[1, 2, 3], 2).unwrap();
    state.reset();
    assert!(state.context().is_empty());
    assert_eq!(state.input_samples(), 5);
    let input = state.prepare_chunk_with_rolling_context(&[4, 5, 6], 2).unwrap();
    assert_eq!(input, vec![0, 0, 4, 5, 6]);
}

#[test]
fn whole_audio_run_clears_context_only_on_success() {
    let mut state = stream(5);
    state.prepare_chunk_with_rolling_context(&[1, 2, 3], 2).unwrap();
    assert_eq!(
        state.finish_audio(3, 4, 10),
        Err(SileroVadError::NativeStatus(SileroVadStatus::InvalidShape))
    );
    assert_eq!(state.context(), &[2, 3]);
    assert_eq!(state.finish_audio(0, 4, 10), Ok(4));
    assert!(state.context().is_empty());
    assert_eq!(state.input_samples(), 5);
}

#[test]
fn whole_audio_run_keeps_no_more_than_the_buffer_holds() {
    let mut state = stream(5);
    assert_eq!(state.finish_audio(0, 12, 10), Ok(10));
    assert_eq!(state.finish_audio(0, 10, 10), Ok(10));
    assert_eq!(state.finish_audio(0, 0, 10), Ok(0));
}

#[test]
fn reset_stream_behaves_like_a_fresh_one() {
    let mut used = stream(5);
    used.prepare_chunk_with_rolling_context(&[1, 2, 3], 2).unwrap();
    used.reset();
    let mut fresh = stream(5);
    assert_eq!(used.input_samples(), fresh.input_samples());
    assert_eq!(used.context(), fresh.context());
    assert_eq!(
        used.prepare_chunk_with_rolling_context(&[9, 8, 7], 2),
        fresh.prepare_chunk_with_rolling_context(&[9, 8, 7], 2)
    );
    assert_eq!(used.context(), fresh.context());
}

#[test]
fn no_operation_changes_the_input_size() {
    let mut state = stream(5);
    let _ = state.prepare_chunk_with_rolling_context(&[1, 2, 3], 2);
    let _ = state.prepare_chunk_with_rolling_context(&[1], 2);
    let _ = state.prepare_chunk_with_rolling_context(&[], 9);
    let _ = state.prepare_chunk(&[1, 2, 3]);
    let _ = state.check_chunk_with_context(3);
    let _ = state.finish_audio(1, 0, 0);
    let _ = state.finish_audio(0, 0, 0);
    state.reset();
    assert_eq!(state.input_samples(), 5);
}
