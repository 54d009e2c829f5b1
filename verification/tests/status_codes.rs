use silero_vad_crs::{SileroVadError, SileroVadStatus};

#[test]
fn raw_status_codes_decode() {
    assert_eq!(SileroVadStatus::from_raw(0), SileroVadStatus::Success);
    assert_eq!(SileroVadStatus::from_raw(1), SileroVadStatus::InvalidArgument);
    assert_eq!(SileroVadStatus::from_raw(2), SileroVadStatus::AllocationFailed);
    assert_eq!(SileroVadStatus::from_raw(3), SileroVadStatus::InvalidShape);
    assert_eq!(SileroVadStatus::from_raw(-1), SileroVadStatus::Unknown);
    assert_eq!(SileroVadStatus::from_raw(4), SileroVadStatus::Unknown);
    assert_eq!(SileroVadStatus::from_raw(i32::MIN), SileroVadStatus::Unknown);
}

#[test]
fn status_codes_become_results() {
    assert_eq!(SileroVadStatus::into_result(0), Ok(()));
    assert_eq!(
        SileroVadStatus::into_result(2),
        Err(SileroVadError::NativeStatus(SileroVadStatus::AllocationFailed))
    );
    assert_eq!(
        SileroVadStatus::into_result(77),
        Err(SileroVadError::NativeStatus(SileroVadStatus::Unknown))
    );
}

#[test]
fn statuses_have_their_raw_codes() {
    assert_eq!(SileroVadStatus::Success.as_raw(), 0);
    assert_eq!(SileroVadStatus::InvalidArgument.as_raw(), 1);
    assert_eq!(SileroVadStatus::AllocationFailed.as_raw(), 2);
    assert_eq!(SileroVadStatus::InvalidShape.as_raw(), 3);
    assert_eq!(SileroVadStatus::Unknown.as_raw(), -1);
    for code in -1..=3 {
        assert_eq!(SileroVadStatus::from_raw(code).as_raw(), code);
    }
}

#[test]
fn error_messages() {
    assert_eq!(
        SileroVadError::CreateFailed.message(),
        "failed to create the native Silero VAD model"
    );
    assert_eq!(
        SileroVadError::InvalidInputLength { expected: 576, actual: 0 }.message(),
        "expected 576 audio samples, got 0"
    );
    assert_eq!(
        SileroVadError::InvalidContextLength { context_samples: 1000, input_samples: 576 }
            .message(),
        "context length 1000 is invalid for model input length 576"
    );
    assert_eq!(
        SileroVadError::InvalidInputLength { expected: usize::MAX, actual: 10 }.message(),
        format!("expected {} audio samples, got 10", usize::MAX)
    );
    assert_eq!(
        SileroVadError::NativeStatus(SileroVadStatus::InvalidShape).message(),
        "native Silero VAD error: InvalidShape"
    );
    assert_eq!(
        SileroVadError::NativeStatus(SileroVadStatus::Success).message(),
        "native Silero VAD error: Ok"
    );
}
