//! Bookkeeping of a streaming model: input sizes, the rolling context that
//! is prepended to every chunk, and the outcome of native calls.
//!
//! Samples are carried as the bit patterns of their `f32` values
//! (`f32::to_bits`): this module only moves samples around, so a sample and
//! its bit pattern stand for each other one for one, and a zero bit pattern
//! is the sample `0.0`.

use vstd::prelude::*;

use crate::status::{status_of_raw, SileroVadError, SileroVadStatus};
use crate::{DEFAULT_CONTEXT_SAMPLES, DEFAULT_INPUT_SAMPLES};

verus! {

/// `n` silent samples.
pub open spec fn silence(n: nat) -> Seq<u32> {
    Seq::new(n, |_i: int| 0u32)
}

/// The last `n` samples of `s`.
pub open spec fn last_samples(s: Seq<u32>, n: int) -> Seq<u32> {
    s.subrange(s.len() - n, s.len() as int)
}

/// The context put before a chunk: the remembered one where it has the
/// requested size, silence otherwise.
pub open spec fn prepended_context(context: Seq<u32>, context_samples: nat) -> Seq<u32> {
    if context.len() == context_samples {
        context
    } else {
        silence(context_samples)
    }
}

/// The model input of one streaming step.
pub open spec fn rolling_input(context: Seq<u32>, chunk: Seq<u32>, context_samples: nat) -> Seq<u32> {
    prepended_context(context, context_samples) + chunk
}

/// The context remembered after one streaming step: the tail of its input.
pub open spec fn next_context(context: Seq<u32>, chunk: Seq<u32>, context_samples: nat) -> Seq<u32> {
    last_samples(rolling_input(context, chunk, context_samples), context_samples as int)
}

/// The context remembered after streaming `chunks` from a fresh start.
pub open spec fn context_after(chunks: Seq<Seq<u32>>, context_samples: nat) -> Seq<u32>
    decreases chunks.len(),
{
    if chunks.len() == 0 {
        Seq::empty()
    } else {
        next_context(
            context_after(chunks.drop_last(), context_samples),
            chunks.last(),
            context_samples,
        )
    }
}

/// What a stream holds between calls.
pub struct StreamView {
    /// Input size of the model.
    pub input_samples: usize,
    /// Remembered tail of the last model input.
    pub context: Seq<u32>,
}

/// A stream that has just started: the given input size and no context.
pub open spec fn fresh_stream(input_samples: usize) -> StreamView {
    StreamView { input_samples, context: Seq::empty() }
}

/// An operation on a stream, as seen by its view.
pub enum StreamOp {
    /// `reset`.
    Reset,
    /// `check_chunk_with_context` for a chunk of the given length.
    CheckChunkWithContext(usize),
    /// `prepare_chunk_with_rolling_context` (and `prepare_chunk`, with the
    /// standard context size).
    PrepareChunk { chunk: Seq<u32>, context_samples: usize },
    /// `finish_audio`.
    FinishAudio { status: i32, written: usize, capacity: usize },
}

/// What an operation on a stream gives back.
pub enum StreamOutcome {
    /// `reset` gives nothing.
    Done,
    /// The outcome of a length check.
    Checked(Result<(), SileroVadError>),
    /// The model input built for a chunk, or the error.
    Prepared(Result<Seq<u32>, SileroVadError>),
    /// How many probabilities to keep, or the error.
    Finished(Result<usize, SileroVadError>),
}

/// One operation on a stream: the view after it and what it gives back.
pub open spec fn stream_step(v: StreamView, op: StreamOp) -> (StreamView, StreamOutcome) {
    match op {
        StreamOp::Reset => (fresh_stream(v.input_samples), StreamOutcome::Done),
        StreamOp::CheckChunkWithContext(len) => (
            v,
            StreamOutcome::Checked(
                if len == v.input_samples {
                    Ok(())
                } else {
                    Err(SileroVadError::InvalidInputLength { expected: v.input_samples, actual: len })
                },
            ),
        ),
        StreamOp::PrepareChunk { chunk, context_samples } => if context_samples > v.input_samples {
            (
                v,
                StreamOutcome::Prepared(
                    Err(
                        SileroVadError::InvalidContextLength {
                            context_samples,
                            input_samples: v.input_samples,
                        },
                    ),
                ),
            )
        } else if chunk.len() != v.input_samples - context_samples {
            (
                v,
                StreamOutcome::Prepared(
                    Err(
                        SileroVadError::InvalidInputLength {
                            expected: (v.input_samples - context_samples) as usize,
                            actual: chunk.len() as usize,
                        },
                    ),
                ),
            )
        } else {
            (
                StreamView {
                    input_samples: v.input_samples,
                    context: next_context(v.context, chunk, context_samples as nat),
                },
                StreamOutcome::Prepared(Ok(rolling_input(v.context, chunk, context_samples as nat))),
            )
        },
        StreamOp::FinishAudio { status, written, capacity } => if status == 0 {
            (
                fresh_stream(v.input_samples),
                StreamOutcome::Finished(
                    Ok(
                        if written <= capacity {
                            written
                        } else {
                            capacity
                        },
                    ),
                ),
            )
        } else {
            (v, StreamOutcome::Finished(Err(SileroVadError::NativeStatus(status_of_raw(status)))))
        },
    }
}

/// A sequence of operations on a stream: the view after them and what each gave back.
pub open spec fn run_stream(v: StreamView, ops: Seq<StreamOp>) -> (StreamView, Seq<StreamOutcome>)
    decreases ops.len(),
{
    if ops.len() == 0 {
        (v, Seq::empty())
    } else {
        let (w, first) = stream_step(v, ops[0]);
        let (last, rest) = run_stream(w, ops.drop_first());
        (last, seq![first] + rest)
    }
}

/// The outcome of preparing a chunk, by the view of the model input.
pub open spec fn prepared(result: Result<Vec<u32>, SileroVadError>) -> StreamOutcome {
    match result {
        Ok(input) => StreamOutcome::Prepared(Ok(input@)),
        Err(e) => StreamOutcome::Prepared(Err(e)),
    }
}

/// The model's input size and the rolling context of a stream.
///
/// The input size is fixed when the stream starts: no operation changes it.
/// Every operation's result is a function of the view alone, and `reset`
/// brings the view back to that of a fresh stream of the same input size.
pub struct VadState {
    input_samples: usize,
    context: Vec<u32>,
}

impl View for VadState {
    type V = StreamView;

    closed spec fn view(&self) -> StreamView {
        StreamView { input_samples: self.input_samples, context: self.context@ }
    }
}

impl VadState {
    /// Starts a stream for a model of the given input size; `model_created`
    /// tells whether the native model could be created.
    pub fn with_input_samples(input_samples: usize, model_created: bool) -> (state: Result<
        VadState,
        SileroVadError,
    >)
        ensures
            !model_created ==> state == Err::<VadState, SileroVadError>(SileroVadError::CreateFailed),
            model_created ==> (state matches Ok(s) && s@ == fresh_stream(input_samples)),
    {
        if !model_created {
            return Err(SileroVadError::CreateFailed);
        }
        Ok(VadState { input_samples, context: Vec::new() })
    }

    /// Starts a stream for a model of the standard input size of 64 context
    /// samples plus 512 fresh samples.
    pub fn new(model_created: bool) -> (state: Result<VadState, SileroVadError>)
        ensures
            !model_created ==> state == Err::<VadState, SileroVadError>(SileroVadError::CreateFailed),
            model_created ==> (state matches Ok(s) && s@ == fresh_stream(DEFAULT_INPUT_SAMPLES)),
    {
        Self::with_input_samples(DEFAULT_INPUT_SAMPLES, model_created)
    }

    /// The model's input size.
    pub fn input_samples(&self) -> (n: usize)
        ensures
            n == self@.input_samples,
    {
        self.input_samples
    }

    /// The remembered context.
    pub fn context(&self) -> (context: &[u32])
        ensures
            context@ == self@.context,
    {
        self.context.as_slice()
    }

    /// Forgets the rolling context, as at the start of a new stream.
    pub fn reset(&mut self)
        ensures
            final(self)@ == fresh_stream(old(self)@.input_samples),
            stream_step(old(self)@, StreamOp::Reset) == (final(self)@, StreamOutcome::Done),
    {
        self.context.clear();
    }

    /// Checks a chunk that already includes its context: it must hold exactly
    /// the model's input size.
    pub fn check_chunk_with_context(&self, chunk_len: usize) -> (result: Result<(), SileroVadError>)
        ensures
            stream_step(self@, StreamOp::CheckChunkWithContext(chunk_len)) == (
                self@,
                StreamOutcome::Checked(result),
            ),
            chunk_len == self@.input_samples ==> result == Ok::<(), SileroVadError>(()),
            chunk_len != self@.input_samples ==> result == Err::<(), SileroVadError>(
                SileroVadError::InvalidInputLength {
                    expected: self@.input_samples,
                    actual: chunk_len,
                },
            ),
    {
        if chunk_len != self.input_samples {
            return Err(
                SileroVadError::InvalidInputLength { expected: self.input_samples, actual: chunk_len },
            );
        }
        Ok(())
    }

    /// Builds the model input for a fresh chunk: the remembered context of
    /// `context_samples` samples (silence if none of that size is remembered)
    /// followed by the chunk; remembers the last `context_samples` samples of
    /// that input for the next call. The chunk must hold the input size less
    /// the context size.
    pub fn prepare_chunk_with_rolling_context(&mut self, chunk: &[u32], context_samples: usize) -> (result:
        Result<Vec<u32>, SileroVadError>)
        ensures
            stream_step(old(self)@, StreamOp::PrepareChunk { chunk: chunk@, context_samples }) == (
                final(self)@,
                prepared(result),
            ),
            final(self)@.input_samples == old(self)@.input_samples,
            context_samples > old(self)@.input_samples ==> result == Err::<Vec<u32>, SileroVadError>(
                SileroVadError::InvalidContextLength {
                    context_samples,
                    input_samples: old(self)@.input_samples,
                },
            ),
            context_samples <= old(self)@.input_samples && chunk@.len() != old(self)@.input_samples
                - context_samples ==> result == Err::<Vec<u32>, SileroVadError>(
                SileroVadError::InvalidInputLength {
                    expected: (old(self)@.input_samples - context_samples) as usize,
                    actual: chunk@.len() as usize,
                },
            ),
            result is Err ==> final(self)@.context == old(self)@.context,
            context_samples <= old(self)@.input_samples && chunk@.len() == old(self)@.input_samples
                - context_samples ==> (result matches Ok(input) && input@ == rolling_input(
                old(self)@.context,
                chunk@,
                context_samples as nat,
            ) && input@.len() == old(self)@.input_samples && final(self)@.context == next_context(
                old(self)@.context,
                chunk@,
                context_samples as nat,
            )),
    {
        if context_samples > self.input_samples {
            return Err(
                SileroVadError::InvalidContextLength {
                    context_samples,
                    input_samples: self.input_samples,
                },
            );
        }
        let expected = self.input_samples - context_samples;
        if chunk.len() != expected {
            return Err(SileroVadError::InvalidInputLength { expected, actual: chunk.len() });
        }
        if self.context.len() != context_samples {
            let mut zeros: Vec<u32> = Vec::new();
            for i in 0..context_samples
                invariant
                    zeros@ == silence(i as nat),
            {
                zeros.push(0u32);
                assert(zeros@ =~= silence((i + 1) as nat));
            }
            self.context = zeros;
        }
        let ghost prefix = self.context@;
        assert(prefix == prepended_context(old(self)@.context, context_samples as nat));
        let mut native_input: Vec<u32> = Vec::new();
        for i in 0..context_samples
            invariant
                prefix == self.context@,
                prefix.len() == context_samples,
                native_input@ == prefix.take(i as int),
        {
            native_input.push(self.context[i]);
            assert(native_input@ =~= prefix.take(i + 1));
        }
        assert(prefix.take(context_samples as int) =~= prefix);
        for i in 0..chunk.len()
            invariant
                native_input@ == prefix + chunk@.take(i as int),
        {
            native_input.push(chunk[i]);
            assert(native_input@ =~= prefix + chunk@.take(i + 1));
        }
        assert(chunk@.take(chunk@.len() as int) =~= chunk@);
        let total = native_input.len();
        let tail_start = total - context_samples;
        let mut tail: Vec<u32> = Vec::new();
        for i in tail_start..total
            invariant
                total == native_input@.len(),
                tail_start == total - context_samples,
                tail@ == native_input@.subrange(tail_start as int, i as int),
        {
            tail.push(native_input[i]);
            assert(tail@ =~= native_input@.subrange(tail_start as int, i + 1));
        }
        self.context = tail;
        Ok(native_input)
    }

    /// Builds the model input for a fresh chunk with the standard context of
    /// 64 samples.
    pub fn prepare_chunk(&mut self, chunk: &[u32]) -> (result: Result<Vec<u32>, SileroVadError>)
        ensures
            stream_step(
                old(self)@,
                StreamOp::PrepareChunk { chunk: chunk@, context_samples: DEFAULT_CONTEXT_SAMPLES },
            ) == (final(self)@, prepared(result)),
            final(self)@.input_samples == old(self)@.input_samples,
            DEFAULT_CONTEXT_SAMPLES > old(self)@.input_samples ==> result == Err::<
                Vec<u32>,
                SileroVadError,
            >(
                SileroVadError::InvalidContextLength {
                    context_samples: DEFAULT_CONTEXT_SAMPLES,
                    input_samples: old(self)@.input_samples,
                },
            ),
            DEFAULT_CONTEXT_SAMPLES <= old(self)@.input_samples && chunk@.len() != old(
                self,
            )@.input_samples - DEFAULT_CONTEXT_SAMPLES ==> result == Err::<Vec<u32>, SileroVadError>(
                SileroVadError::InvalidInputLength {
                    expected: (old(self)@.input_samples - DEFAULT_CONTEXT_SAMPLES) as usize,
                    actual: chunk@.len() as usize,
                },
            ),
            result is Err ==> final(self)@.context == old(self)@.context,
            DEFAULT_CONTEXT_SAMPLES <= old(self)@.input_samples && chunk@.len() == old(
                self,
            )@.input_samples - DEFAULT_CONTEXT_SAMPLES ==> (result matches Ok(input) && input@
                == rolling_input(old(self)@.context, chunk@, DEFAULT_CONTEXT_SAMPLES as nat)
                && input@.len() == old(self)@.input_samples && final(self)@.context == next_context(
                old(self)@.context,
                chunk@,
                DEFAULT_CONTEXT_SAMPLES as nat,
            )),
    {
        self.prepare_chunk_with_rolling_context(chunk, DEFAULT_CONTEXT_SAMPLES)
    }

    /// Takes the outcome of a whole-audio run of the native model: its status,
    /// how many probabilities it reports as written, and how many the buffer
    /// could hold. On success it gives how many probabilities to keep (the
    /// written ones, never more than the buffer holds) and, since the run
    /// starts from a fresh model state, forgets the rolling context.
    pub fn finish_audio(&mut self, status: i32, written: usize, capacity: usize) -> (result: Result<
        usize,
        SileroVadError,
    >)
        ensures
            stream_step(old(self)@, StreamOp::FinishAudio { status, written, capacity }) == (
                final(self)@,
                StreamOutcome::Finished(result),
            ),
            final(self)@.input_samples == old(self)@.input_samples,
            status == 0 ==> result == Ok::<usize, SileroVadError>(
                if written <= capacity {
                    written
                } else {
                    capacity
                },
            ) && final(self)@ == fresh_stream(old(self)@.input_samples),
            status != 0 ==> result == Err::<usize, SileroVadError>(
                SileroVadError::NativeStatus(status_of_raw(status)),
            ) && final(self)@ == old(self)@,
    {
        match SileroVadStatus::into_result(status) {
            Ok(()) => {
                self.context.clear();
                if written <= capacity {
                    Ok(written)
                } else {
                    Ok(capacity)
                }
            },
            Err(e) => Err(e),
        }
    }
}

proof fn lemma_tail_of_tail(a: Seq<u32>, x: Seq<u32>, c: int)
    requires
        0 <= c <= a.len(),
    ensures
        last_samples(last_samples(a, c) + x, c) == last_samples(a + x, c),
        last_samples(a, c) + x == last_samples(a + x, c + x.len()),
{
    assert(last_samples(last_samples(a, c) + x, c) =~= last_samples(a + x, c));
    assert(last_samples(a, c) + x =~= last_samples(a + x, c + x.len()));
}

/// Streaming from a fresh start with a fixed context size, the context put
/// before the next chunk is always the last `context_samples` samples of the
/// stream so far, counting silence before the first chunk.
pub proof fn context_is_tail_of_stream(chunks: Seq<Seq<u32>>, context_samples: nat)
    ensures
        prepended_context(context_after(chunks, context_samples), context_samples)
            == last_samples(silence(context_samples) + chunks.flatten(), context_samples as int),
    decreases chunks.len(),
{
    let z = silence(context_samples);
    if chunks.len() == 0 {
        assert(chunks.flatten() =~= Seq::<u32>::empty());
        assert(last_samples(z + chunks.flatten(), context_samples as int) =~= z);
    } else {
        let p = chunks.drop_last();
        let x = chunks.last();
        context_is_tail_of_stream(p, context_samples);
        assert(chunks == p.push(x));
        p.lemma_flatten_push(x);
        let a = z + p.flatten();
        lemma_tail_of_tail(a, x, context_samples as int);
    }
}

/// Streaming from a fresh start with a fixed context size, every model input
/// is the latest stretch of the stream, counting silence before the first
/// chunk: its last `context_samples` samples before the newest chunk,
/// followed by that chunk.
pub proof fn model_input_is_tail_of_stream(chunks: Seq<Seq<u32>>, context_samples: nat)
    requires
        chunks.len() > 0,
    ensures
        rolling_input(context_after(chunks.drop_last(), context_samples), chunks.last(), context_samples)
            == last_samples(
            silence(context_samples) + chunks.flatten(),
            (context_samples + chunks.last().len()) as int,
        ),
{
    let p = chunks.drop_last();
    let x = chunks.last();
    context_is_tail_of_stream(p, context_samples);
    assert(chunks == p.push(x));
    p.lemma_flatten_push(x);
    let a = silence(context_samples) + p.flatten();
    lemma_tail_of_tail(a, x, context_samples as int);
}

/// Resetting starts a new stream: whatever operations follow give the same
/// results, and leave the same view, as on a fresh stream of the same input
/// size (which is what `with_input_samples` gives).
pub proof fn reset_starts_a_new_stream(v: StreamView, ops: Seq<StreamOp>)
    ensures
        run_stream(v, seq![StreamOp::Reset] + ops) == (
            run_stream(fresh_stream(v.input_samples), ops).0,
            seq![StreamOutcome::Done] + run_stream(fresh_stream(v.input_samples), ops).1,
        ),
{
    let all = seq![StreamOp::Reset] + ops;
    assert(all[0] == StreamOp::Reset);
    assert(all.drop_first() =~= ops);
}

/// No operation changes the input size a stream was started with.
pub proof fn input_size_never_changes(v: StreamView, ops: Seq<StreamOp>)
    ensures
        run_stream(v, ops).0.input_samples == v.input_samples,
    decreases ops.len(),
{
    if ops.len() > 0 {
        let w = stream_step(v, ops[0]).0;
        input_size_never_changes(w, ops.drop_first());
    }
}

} // verus!
