//! Status codes of the native model and the library's error type.

use vstd::prelude::*;
use vstd::string::StringExecFns;

verus! {

/// Status values returned by the native model.
#[derive(Debug, Copy, Clone, PartialEq, Eq, Structural)]
pub enum SileroVadStatus {
    /// The native call completed successfully.
    Success,
    /// A null pointer or invalid scalar argument was passed to the model.
    InvalidArgument,
    /// The model could not allocate an internal buffer.
    AllocationFailed,
    /// The supplied input shape does not match the model.
    InvalidShape,
    /// A status value not known to this library.
    Unknown,
}

/// Errors reported by the library.
#[derive(Debug, Clone, PartialEq, Eq, Structural)]
pub enum SileroVadError {
    /// The native model could not be allocated or initialized.
    CreateFailed,
    /// A caller passed the wrong number of samples for the selected operation.
    InvalidInputLength {
        /// Length required by the operation.
        expected: usize,
        /// Length actually supplied by the caller.
        actual: usize,
    },
    /// A caller supplied a context size that is impossible for this model.
    InvalidContextLength {
        /// Context length supplied by the caller.
        context_samples: usize,
        /// Model input size configured at creation time.
        input_samples: usize,
    },
    /// The native model returned a status other than success.
    NativeStatus(SileroVadStatus),
}

/// The status that a raw status code stands for.
pub open spec fn status_of_raw(value: i32) -> SileroVadStatus {
    if value == 0 {
        SileroVadStatus::Success
    } else if value == 1 {
        SileroVadStatus::InvalidArgument
    } else if value == 2 {
        SileroVadStatus::AllocationFailed
    } else if value == 3 {
        SileroVadStatus::InvalidShape
    } else {
        SileroVadStatus::Unknown
    }
}

/// The raw code of a status: 0 to 3 for the known ones, -1 for `Unknown`.
pub open spec fn raw_of_status(status: SileroVadStatus) -> i32 {
    match status {
        SileroVadStatus::Success => 0i32,
        SileroVadStatus::InvalidArgument => 1i32,
        SileroVadStatus::AllocationFailed => 2i32,
        SileroVadStatus::InvalidShape => 3i32,
        SileroVadStatus::Unknown => -1i32,
    }
}

/// Decoding the raw code of a status gives that status back, and the code of
/// a decoded known code is the code itself.
pub proof fn raw_codes_round_trip(status: SileroVadStatus, value: i32)
    ensures
        status_of_raw(raw_of_status(status)) == status,
        0 <= value <= 3 || value == -1 ==> raw_of_status(status_of_raw(value)) == value,
{
}

impl SileroVadStatus {
    /// The raw code of this status: 0 for success, 1 to 3 for the known
    /// failures, -1 for a status not known to this library.
    pub fn as_raw(self) -> (value: i32)
        ensures
            value == raw_of_status(self),
    {
        match self {
            SileroVadStatus::Success => 0,
            SileroVadStatus::InvalidArgument => 1,
            SileroVadStatus::AllocationFailed => 2,
            SileroVadStatus::InvalidShape => 3,
            SileroVadStatus::Unknown => -1,
        }
    }

    /// Decodes a raw status code; codes other than 0 to 3 are `Unknown`.
    pub fn from_raw(value: i32) -> (status: SileroVadStatus)
        ensures
            status == status_of_raw(value),
    {
        match value {
            0 => SileroVadStatus::Success,
            1 => SileroVadStatus::InvalidArgument,
            2 => SileroVadStatus::AllocationFailed,
            3 => SileroVadStatus::InvalidShape,
            _ => SileroVadStatus::Unknown,
        }
    }

    /// Turns a raw status code into `Ok(())` for success and into
    /// `NativeStatus` carrying the decoded status for any other code.
    pub fn into_result(value: i32) -> (result: Result<(), SileroVadError>)
        ensures
            value == 0 ==> result == Ok::<(), SileroVadError>(()),
            value != 0 ==> result == Err::<(), SileroVadError>(
                SileroVadError::NativeStatus(status_of_raw(value)),
            ),
    {
        match Self::from_raw(value) {
            SileroVadStatus::Success => Ok(()),
            status => Err(SileroVadError::NativeStatus(status)),
        }
    }
}

/// The character of decimal digit `d`.
pub open spec fn digit_char(d: int) -> char {
    if d == 0 {
        '0'
    } else if d == 1 {
        '1'
    } else if d == 2 {
        '2'
    } else if d == 3 {
        '3'
    } else if d == 4 {
        '4'
    } else if d == 5 {
        '5'
    } else if d == 6 {
        '6'
    } else if d == 7 {
        '7'
    } else if d == 8 {
        '8'
    } else {
        '9'
    }
}

/// The decimal notation of `n`, without leading zeros.
pub open spec fn decimal(n: nat) -> Seq<char>
    decreases n,
{
    if n < 10 {
        seq![digit_char(n as int)]
    } else {
        decimal(n / 10) + seq![digit_char((n % 10) as int)]
    }
}

/// The name under which a status is shown.
pub open spec fn status_name(status: SileroVadStatus) -> Seq<char> {
    match status {
        SileroVadStatus::Success => "Ok"@,
        SileroVadStatus::InvalidArgument => "InvalidArgument"@,
        SileroVadStatus::AllocationFailed => "AllocationFailed"@,
        SileroVadStatus::InvalidShape => "InvalidShape"@,
        SileroVadStatus::Unknown => "Unknown"@,
    }
}

/// The message that describes an error.
pub open spec fn error_message(error: SileroVadError) -> Seq<char> {
    match error {
        SileroVadError::CreateFailed => "failed to create the native Silero VAD model"@,
        SileroVadError::InvalidInputLength { expected, actual } => "expected "@ + decimal(
            expected as nat,
        ) + " audio samples, got "@ + decimal(actual as nat),
        SileroVadError::InvalidContextLength { context_samples, input_samples } => "context length "@
            + decimal(context_samples as nat) + " is invalid for model input length "@ + decimal(
            input_samples as nat,
        ),
        SileroVadError::NativeStatus(status) => "native Silero VAD error: "@ + status_name(status),
    }
}

fn digit_str(d: usize) -> (digit: &'static str)
    requires
        d < 10,
    ensures
        digit@ == seq![digit_char(d as int)],
{
    proof {
        reveal_strlit("0");
        reveal_strlit("1");
        reveal_strlit("2");
        reveal_strlit("3");
        reveal_strlit("4");
        reveal_strlit("5");
        reveal_strlit("6");
        reveal_strlit("7");
        reveal_strlit("8");
        reveal_strlit("9");
    }
    match d {
        0 => "0",
        1 => "1",
        2 => "2",
        3 => "3",
        4 => "4",
        5 => "5",
        6 => "6",
        7 => "7",
        8 => "8",
        _ => "9",
    }
}

fn push_decimal(text: &mut String, n: usize)
    ensures
        final(text)@ == old(text)@ + decimal(n as nat),
    decreases n,
{
    if n >= 10 {
        push_decimal(text, n / 10);
    }
    text.append(digit_str(n % 10));
    assert(text@ =~= old(text)@ + decimal(n as nat));
}

impl SileroVadError {
    /// The message that describes this error.
    pub fn message(&self) -> (text: String)
        ensures
            text@ == error_message(*self),
    {
        match self {
            SileroVadError::CreateFailed => String::from_str(
                "failed to create the native Silero VAD model",
            ),
            SileroVadError::InvalidInputLength { expected, actual } => {
                let mut text = String::from_str("expected ");
                push_decimal(&mut text, *expected);
                text.append(" audio samples, got ");
                push_decimal(&mut text, *actual);
                text
            },
            SileroVadError::InvalidContextLength { context_samples, input_samples } => {
                let mut text = String::from_str("context length ");
                push_decimal(&mut text, *context_samples);
                text.append(" is invalid for model input length ");
                push_decimal(&mut text, *input_samples);
                text
            },
            SileroVadError::NativeStatus(status) => {
                let mut text = String::from_str("native Silero VAD error: ");
                let name = match status {
                    SileroVadStatus::Success => "Ok",
                    SileroVadStatus::InvalidArgument => "InvalidArgument",
                    SileroVadStatus::AllocationFailed => "AllocationFailed",
                    SileroVadStatus::InvalidShape => "InvalidShape",
                    SileroVadStatus::Unknown => "Unknown",
                };
                text.append(name);
                text
            },
        }
    }
}

} // verus!
