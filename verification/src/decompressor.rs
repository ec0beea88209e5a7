//! The decompressor: one-shot decompression of a frame, decompression of a
//! chain of frames of which each is the dictionary of the next, and the copy
//! of a compressed source to a sink.

use vstd::prelude::*;
use crate::compression_writer::StreamState;
use crate::decompression_reader::{ReaderConfig, ReaderView, ZstdDecompressionReader};
use crate::decompression_writer::ZstdDecompressionWriter;
use crate::engine::{
    declared_content_size, dstream_in_size, dstream_out_size, frame_content_size, Buffer, DCtx,
    EndDirective, Engine, EngineLog, FrameFormat, Request, Setting, StepRecord,
};
use crate::error::{ConfigurationIssue, InputIssue, Stage, ZstdError};
use crate::io::{
    asked_for, lemma_asked_again, lemma_asked_nothing, Inlet, Outlet, OutletLog, Sink, Source,
};
use crate::pump::{feed, lemma_delivered, lemma_since, refusals};

verus! {

/// The number of the format of frames that start with the magic number.
pub const FORMAT_ZSTD1: u32 = 0;

/// The number of the format of frames without the magic number.
pub const FORMAT_ZSTD1_MAGICLESS: u32 = 1;

/// The format that a number stands for, or `None` for a number that stands
/// for none.
pub open spec fn spec_frame_format(format: u32) -> Option<FrameFormat> {
    if format == FORMAT_ZSTD1 {
        Some(FrameFormat::Zstd1)
    } else if format == FORMAT_ZSTD1_MAGICLESS {
        Some(FrameFormat::Zstd1Magicless)
    } else {
        None
    }
}

#[verifier::when_used_as_spec(spec_frame_format)]
pub fn frame_format(format: u32) -> (f: Option<FrameFormat>)
    ensures
        f == spec_frame_format(format),
{
    if format == FORMAT_ZSTD1 {
        Some(FrameFormat::Zstd1)
    } else if format == FORMAT_ZSTD1_MAGICLESS {
        Some(FrameFormat::Zstd1Magicless)
    } else {
        None
    }
}

/// How often `n` can be halved before it is under 2.
pub open spec fn floor_log2(n: nat) -> nat
    decreases n,
{
    if n < 2 {
        0
    } else {
        1 + floor_log2(n / 2)
    }
}

/// The power of two that is handed to the engine as the limit of the window
/// for a limit of `max_window_size` bytes: the largest that does not pass the
/// limit. For a limit of 1 it is 1: the engine reads 0 as "no limit", and
/// refuses 1 as it refuses every limit under its minimum.
pub open spec fn spec_window_log(max_window_size: usize) -> u32 {
    let log = floor_log2(max_window_size as nat);
    if log == 0 {
        1
    } else if log > u32::MAX {
        u32::MAX
    } else {
        log as u32
    }
}

#[verifier::when_used_as_spec(spec_window_log)]
pub fn window_log(max_window_size: usize) -> (log: u32)
    ensures
        log == spec_window_log(max_window_size),
{
    let mut n: usize = max_window_size;
    let mut log: u64 = 0;
    while n >= 2
        invariant
            log + floor_log2(n as nat) == floor_log2(max_window_size as nat),
            log + n <= max_window_size,
        decreases n,
    {
        n = n / 2;
        log = log + 1;
    }
    if log == 0 {
        1
    } else if log > u32::MAX as u64 {
        u32::MAX
    } else {
        log as u32
    }
}

/// What a decompressor was made with.
pub struct DecompressorConfig {
    /// The dictionary, if there is one.
    pub dict_data: Option<Seq<u8>>,
    /// The limit of the window in bytes; 0 for none.
    pub max_window_size: usize,
    /// The frame format.
    pub format: FrameFormat,
}

/// A decompressor, as the contracts see it.
pub struct DecompressorView {
    pub config: DecompressorConfig,
    /// The record of the context.
    pub engine: EngineLog,
}

/// The record of a context that had `before`, after its session was reset
/// and its window limited, if there is a limit.
pub open spec fn limited(before: EngineLog, config: DecompressorConfig) -> EngineLog {
    if config.max_window_size != 0 {
        before.after_reset().after_setting(
            Setting::WindowLogMax(spec_window_log(config.max_window_size)),
        )
    } else {
        before.after_reset()
    }
}

/// The record of a context that had `before` and was then set up: its session
/// reset, its window limited if there is a limit, its format set, and its
/// dictionary loaded if there is one and `load_dict` asks for it.
pub open spec fn configured(before: EngineLog, config: DecompressorConfig, load_dict: bool) -> EngineLog {
    let formatted = limited(before, config).after_setting(Setting::Format(config.format));
    match config.dict_data {
        Some(dict) if load_dict => formatted.after_setting(Setting::Dictionary(dict)),
        _ => formatted,
    }
}

/// Whether `e` is a failure of setting a context up.
pub open spec fn is_setup_error(e: ZstdError) -> bool {
    e matches ZstdError::Codec { stage, frame, .. } && stage != Stage::Decompress && stage
        != Stage::Compress && stage != Stage::SetPledgedSize && frame is None
}

/// What a setup that failed with `e` left of the record: what was done before
/// the call that the engine refused, and the refusal, whose code is the code
/// of `e`. Such a call was due: no limit is set where there is none, and no
/// dictionary is loaded where there is none or none is asked for.
pub open spec fn setup_failed(
    before: EngineLog,
    after: EngineLog,
    config: DecompressorConfig,
    load_dict: bool,
    e: ZstdError,
) -> bool {
    e matches ZstdError::Codec { stage, code, .. } && match stage {
        Stage::Reset => after == before.after_refusal(Request::Reset, code),
        Stage::SetMaxWindowSize => config.max_window_size != 0 && after
            == before.after_reset().after_refusal(
            Request::Apply(Setting::WindowLogMax(spec_window_log(config.max_window_size))),
            code,
        ),
        Stage::SetFormat => after == limited(before, config).after_refusal(
            Request::Apply(Setting::Format(config.format)),
            code,
        ),
        Stage::LoadDictionary => load_dict && config.dict_data is Some && after == limited(
            before,
            config,
        ).after_setting(Setting::Format(config.format)).after_refusal(
            Request::Apply(Setting::Dictionary(config.dict_data->0)),
            code,
        ),
        _ => false,
    }
}

/// What is to be done for a frame, once its header has been read.
#[derive(Clone, Copy, Debug, PartialEq, Eq)]
pub enum OutputPlan {
    /// The frame holds nothing: the result is empty, and the engine is not asked.
    Empty,
    /// The engine is to decode into a buffer of `capacity` bytes, and is to
    /// give `expected` bytes, where the header says how many.
    Decode { capacity: usize, expected: Option<u64> },
}

/// The plan for a one-shot decompression of a frame whose header declares
/// `content_size`, with `max_output_size` as the caller's bound (0: none).
pub open spec fn spec_plan_output(content_size: Result<Option<u64>, ()>, max_output_size: usize) -> Result<OutputPlan, ZstdError> {
    match content_size {
        Err(_) => Err(ZstdError::InvalidInput { issue: InputIssue::UnreadableHeader, frame: None }),
        Ok(Some(n)) => if n == 0 {
            Ok(OutputPlan::Empty)
        } else if n > usize::MAX {
            Err(ZstdError::OutOfMemory)
        } else {
            Ok(OutputPlan::Decode { capacity: n as usize, expected: Some(n) })
        },
        Ok(None) => if max_output_size == 0 {
            Err(ZstdError::Configuration(ConfigurationIssue::MissingOutputBound))
        } else {
            Ok(OutputPlan::Decode { capacity: max_output_size, expected: None })
        },
    }
}

#[verifier::when_used_as_spec(spec_plan_output)]
pub fn plan_output(content_size: Result<Option<u64>, ()>, max_output_size: usize) -> (plan: Result<OutputPlan, ZstdError>)
    ensures
        plan == spec_plan_output(content_size, max_output_size),
{
    match content_size {
        Err(_) => Err(ZstdError::InvalidInput { issue: InputIssue::UnreadableHeader, frame: None }),
        Ok(Some(n)) => if n == 0 {
            Ok(OutputPlan::Empty)
        } else if n > usize::MAX as u64 {
            Err(ZstdError::OutOfMemory)
        } else {
            Ok(OutputPlan::Decode { capacity: n as usize, expected: Some(n) })
        },
        Ok(None) => if max_output_size == 0 {
            Err(ZstdError::Configuration(ConfigurationIssue::MissingOutputBound))
        } else {
            Ok(OutputPlan::Decode { capacity: max_output_size, expected: None })
        },
    }
}

/// What is made of the one step that decodes a frame: the engine's error; a
/// frame that is not done; another number of bytes than the header declares;
/// or success. `frame` is the index of the frame in its chain, if it is in one.
pub open spec fn spec_verdict(
    status: Result<usize, usize>,
    produced: usize,
    expected: Option<u64>,
    frame: Option<usize>,
) -> Result<(), ZstdError> {
    match status {
        Err(code) => Err(ZstdError::Codec { stage: Stage::Decompress, code, frame }),
        Ok(hint) => if hint != 0 {
            Err(ZstdError::IncompleteFrame { frame })
        } else {
            match expected {
                Some(n) if produced != n => Err(ZstdError::SizeMismatch { produced, expected: n, frame }),
                _ => Ok(()),
            }
        },
    }
}

#[verifier::when_used_as_spec(spec_verdict)]
pub fn verdict(
    status: Result<usize, usize>,
    produced: usize,
    expected: Option<u64>,
    frame: Option<usize>,
) -> (v: Result<(), ZstdError>)
    ensures
        v == spec_verdict(status, produced, expected, frame),
{
    match status {
        Err(code) => Err(ZstdError::Codec { stage: Stage::Decompress, code, frame }),
        Ok(hint) => if hint != 0 {
            Err(ZstdError::IncompleteFrame { frame })
        } else {
            match expected {
                Some(n) => if produced as u64 != n {
                    Err(ZstdError::SizeMismatch { produced, expected: n, frame })
                } else {
                    Ok(())
                },
                None => Ok(()),
            }
        },
    }
}

/// What the one step that decodes `frame` left, where `r` is what came of it:
/// the record has one more step, which was offered all of `frame` and room
/// for exactly `capacity` bytes, and took a prefix of the frame; and `r` is
/// the verdict on it, with what the step gave where the verdict is good.
pub open spec fn decoded(
    ready: EngineLog,
    after: EngineLog,
    frame: Seq<u8>,
    capacity: usize,
    expected: Option<u64>,
    index: Option<usize>,
    r: Result<Seq<u8>, ZstdError>,
) -> bool {
    let step = after.trace.last();
    &&& after.trace.len() > 0
    &&& after == ready.after_call(step, true)
    &&& step.directive == EndDirective::Continue
    &&& step.offered == frame
    &&& step.room == capacity
    &&& step.input.len() <= frame.len()
    &&& step.input == frame.take(step.input.len() as int)
    &&& step.output.len() <= capacity
    &&& match spec_verdict(step.status, step.output.len() as usize, expected, index) {
        Ok(()) => r == Ok::<Seq<u8>, ZstdError>(step.output),
        Err(e) => r == Err::<Seq<u8>, ZstdError>(e),
    }
}

/// What a one-shot decompression of `frame` left, where `r` is what came of
/// it. Either the setup failed; or the context was set up, and then the plan
/// for the frame decided: a plan that fails, and the plan for an empty frame,
/// end it with no step; else the engine made exactly one step, unless no
/// buffer could be had.
pub open spec fn one_shot(
    before: DecompressorView,
    after: DecompressorView,
    frame: Seq<u8>,
    max_output_size: usize,
    r: Result<Seq<u8>, ZstdError>,
) -> bool {
    let ready = configured(before.engine, before.config, true);
    &&& after.config == before.config
    &&& if r matches Err(e) && is_setup_error(e) {
        setup_failed(before.engine, after.engine, before.config, true, r->Err_0)
    } else {
        match spec_plan_output(declared_content_size(frame), max_output_size) {
            Err(e) => r == Err::<Seq<u8>, ZstdError>(e) && after.engine == ready,
            Ok(OutputPlan::Empty) => r == Ok::<Seq<u8>, ZstdError>(Seq::empty()) && after.engine
                == ready,
            Ok(OutputPlan::Decode { capacity, expected }) => {
                ||| r == Err::<Seq<u8>, ZstdError>(ZstdError::OutOfMemory) && after.engine == ready
                ||| decoded(ready, after.engine, frame, capacity, expected, None, r)
            },
        }
    }
}

/// The size of the buffer for the frame at `index` of a chain, whose header
/// declares `content_size`: a chained frame has to declare its size.
pub open spec fn spec_chain_frame_size(content_size: Result<Option<u64>, ()>, index: usize) -> Result<usize, ZstdError> {
    match content_size {
        Err(_) => Err(
            ZstdError::InvalidInput { issue: InputIssue::UnreadableHeader, frame: Some(index) },
        ),
        Ok(None) => Err(
            ZstdError::InvalidInput { issue: InputIssue::MissingContentSize, frame: Some(index) },
        ),
        Ok(Some(n)) => if n > usize::MAX {
            Err(ZstdError::OutOfMemory)
        } else {
            Ok(n as usize)
        },
    }
}

#[verifier::when_used_as_spec(spec_chain_frame_size)]
pub fn chain_frame_size(content_size: Result<Option<u64>, ()>, index: usize) -> (size: Result<usize, ZstdError>)
    ensures
        size == spec_chain_frame_size(content_size, index),
{
    match content_size {
        Err(_) => Err(
            ZstdError::InvalidInput { issue: InputIssue::UnreadableHeader, frame: Some(index) },
        ),
        Ok(None) => Err(
            ZstdError::InvalidInput { issue: InputIssue::MissingContentSize, frame: Some(index) },
        ),
        Ok(Some(n)) => if n > usize::MAX as u64 {
            Err(ZstdError::OutOfMemory)
        } else {
            Ok(n as usize)
        },
    }
}

/// The size that the frame at `index` of `frames` declares, as a chain needs it.
pub open spec fn chain_size(frames: Seq<Seq<u8>>, index: int) -> Result<usize, ZstdError> {
    spec_chain_frame_size(declared_content_size(frames[index]), index as usize)
}

/// Whether `step` was offered all of `frame`, and room for exactly `capacity`
/// bytes, and took a prefix of the frame.
pub open spec fn offered_frame(step: StepRecord, frame: Seq<u8>, capacity: usize) -> bool {
    &&& step.directive == EndDirective::Continue
    &&& step.offered == frame
    &&& step.room == capacity
    &&& step.input.len() <= frame.len()
    &&& step.input == frame.take(step.input.len() as int)
    &&& step.output.len() <= capacity
}

/// What the decompression of the chain `frames` left, where `r` is what came
/// of it. An empty chain, and a first frame whose header will not do, end it
/// before anything is touched. Else the context is set up, once and without
/// the dictionary, and the frames are decoded in order, each in one step and
/// with no reset in between, until one fails: the step of a frame is offered
/// that frame, all of it, and room for as many bytes as its header declares.
/// Every step but the one that failed, if one did, reported its frame done
/// and gave exactly as many bytes as the header of its frame declares. The
/// record is that of the context as it was set up, after those steps and
/// nothing else. The result is what the last step gave.
pub open spec fn chained(
    before: DecompressorView,
    after: DecompressorView,
    frames: Seq<Seq<u8>>,
    r: Result<Seq<u8>, ZstdError>,
) -> bool {
    let ready = configured(before.engine, before.config, false);
    let done = after.engine.steps - ready.steps;
    if frames.len() == 0 {
        r == Err::<Seq<u8>, ZstdError>(
            ZstdError::InvalidInput { issue: InputIssue::EmptyChain, frame: None },
        ) && after == before
    } else if chain_size(frames, 0) is Err {
        r == Err::<Seq<u8>, ZstdError>(chain_size(frames, 0)->Err_0) && after == before
    } else if r matches Err(e) && is_setup_error(e) {
        after.config == before.config && setup_failed(
            before.engine,
            after.engine,
            before.config,
            false,
            r->Err_0,
        )
    } else {
        &&& after.config == before.config
        &&& after.engine.continues(ready)
        &&& after.engine.resets == ready.resets
        &&& after.engine.settings == ready.settings
        &&& after.engine.refused == ready.refused
        &&& after.engine.steps_since_reset == done
        &&& 0 <= done <= frames.len()
        &&& forall|j: int| 0 <= j < done ==> (#[trigger] chain_size(frames, j)) is Ok
        &&& after.engine.stepped(ready, after.engine.steps_since(ready))
        &&& after.engine == ready.replayed(after.engine.steps_since(ready), true)
        &&& forall|j: int|
            0 <= j < done - (if r is Ok { 0int } else { 1int }) ==> (
            #[trigger] after.engine.steps_since(ready)[j]).status == Ok::<usize, usize>(0)
                && after.engine.steps_since(ready)[j].output.len() == chain_size(frames, j)->Ok_0
        &&& forall|j: int|
            0 <= j < done ==> offered_frame(
                #[trigger] after.engine.steps_since(ready)[j],
                frames[j],
                chain_size(frames, j)->Ok_0,
            )
        &&& match r {
            Ok(out) => {
                &&& done == frames.len()
                &&& after.engine.frames == ready.frames + done
                &&& after.engine.last_status == Some(Ok::<usize, usize>(0))
                &&& out == after.engine.last_output
                &&& chain_size(frames, done - 1) matches Ok(n) && out.len() == n
            },
            Err(e) => {
                ||| {
                    &&& done < frames.len()
                    &&& after.engine.frames == ready.frames + done
                    &&& (chain_size(frames, done) == Err::<usize, ZstdError>(e) || (e
                        == ZstdError::OutOfMemory && chain_size(frames, done) is Ok && chain_size(
                        frames,
                        done,
                    )->Ok_0 > 0))
                }
                ||| {
                    &&& done >= 1
                    &&& after.engine.frames >= ready.frames + done - 1
                    &&& after.engine.last_status matches Some(status) && chain_size(
                        frames,
                        done - 1,
                    ) matches Ok(n) && spec_verdict(
                        status,
                        after.engine.last_output.len() as usize,
                        Some(n as u64),
                        Some((done - 1) as usize),
                    ) == Err::<(), ZstdError>(e)
                }
            },
        }
    }
}

/// What a copy left, where `r` is what came of it. Either the setup failed,
/// and nothing was read or written; or the context was set up, once and with
/// the dictionary, and then chunks were read from the source until an empty
/// one came, and each was fed to the engine, whose output went to the sink as
/// it came, in chunks that are not empty and of `write_size` bytes at most,
/// where a size was asked for. Nothing was read after an empty chunk. A
/// chunk was read only when the engine had
/// taken all of the chunks before it, so what it has not taken lies in the
/// last chunk read; and as long as nothing but empty chunks was read, the
/// engine made no step and the sink got nothing. No step follows one that
/// failed, and the record of the engine is that of the context as it was set
/// up, after the steps and nothing else. On success the engine took
/// all that was read and the sink got all that the engine gave, and `r`
/// holds the two counts.
pub open spec fn copied(
    before: DecompressorView,
    after: DecompressorView,
    source_before: Seq<Seq<u8>>,
    source_after: Seq<Seq<u8>>,
    sink_before: OutletLog,
    sink_after: OutletLog,
    write_size: Option<usize>,
    r: Result<(usize, usize), ZstdError>,
) -> bool {
    let ready = configured(before.engine, before.config, true);
    let served = source_after.skip(source_before.len() as int);
    let chunks = sink_after.chunks_since(sink_before);
    let took = after.engine.consumed_since(ready);
    let gave = after.engine.produced_since(ready);
    &&& after.config == before.config
    &&& if r matches Err(e) && is_setup_error(e) {
        &&& setup_failed(before.engine, after.engine, before.config, true, r->Err_0)
        &&& source_after == source_before
        &&& sink_after == sink_before
    } else {
        &&& after.engine.continues(ready)
        &&& after.engine.resets == ready.resets
        &&& after.engine.settings == ready.settings
        &&& after.engine.refused == ready.refused
        &&& after.engine.steps_since_reset == after.engine.steps - ready.steps
        &&& after.engine.stepped(ready, after.engine.steps_since(ready))
        &&& after.engine == ready.replayed(after.engine.steps_since(ready), true)
        &&& forall|i: int|
            0 <= i < after.engine.steps_since(ready).len() ==> (
            #[trigger] after.engine.steps_since(ready)[i]).directive == EndDirective::Continue
                && (write_size matches Some(n) ==> after.engine.steps_since(ready)[i].room == n)
        &&& forall|i: int|
            0 <= i < after.engine.steps_since(ready).len() - 1 ==> (
            #[trigger] after.engine.steps_since(ready)[i]).status is Ok
        &&& source_before.len() <= source_after.len()
        &&& source_after.take(source_before.len() as int) == source_before
        &&& sink_after.continues(sink_before)
        &&& sink_after.flushes == sink_before.flushes
        &&& sink_after.closes == sink_before.closes
        &&& sink_after.close_calls == sink_before.close_calls
        &&& sink_after.flush_calls == sink_before.flush_calls
        &&& forall|i: int|
            0 <= i < chunks.len() ==> 0 < (#[trigger] chunks[i]).len() && (write_size matches Some(
                n,
            ) ==> chunks[i].len() <= n)
        &&& took.len() <= served.flatten().len()
        &&& took == served.flatten().take(took.len() as int)
        &&& served.len() > 0 ==> took.len() >= served.drop_last().flatten().len()
        &&& forall|i: int| 0 <= i < served.len() - 1 ==> (#[trigger] served[i]).len() > 0
        &&& served.flatten().len() == 0 ==> after.engine == ready && sink_after.chunks
            == sink_before.chunks
        &&& chunks.flatten().len() <= gave.len()
        &&& chunks.flatten() == gave.take(chunks.flatten().len() as int)
        &&& match r {
            Ok((bytes_read, bytes_written)) => {
                &&& served.len() >= 1
                &&& served.last().len() == 0
                &&& forall|i: int| 0 <= i < served.len() - 1 ==> (#[trigger] served[i]).len() > 0
                &&& took == served.flatten()
                &&& chunks.flatten() == gave
                &&& bytes_read == took.len()
                &&& bytes_written == gave.len()
            },
            Err(ZstdError::Codec { stage, code, frame }) => {
                &&& stage == Stage::Decompress
                &&& frame is None
                &&& after.engine.last_status == Some(Err::<usize, usize>(code))
            },
            Err(ZstdError::OutOfMemory) => after.engine == ready && served.len() == 0
                && write_size != Some(0usize),
            Err(ZstdError::NoProgress) => {
                &&& after.engine.steps > ready.steps
                &&& after.engine.last_status matches Some(Ok(_))
                &&& after.engine.last_input.len() == 0
                &&& after.engine.last_output.len() == 0
                &&& took.len() < served.flatten().len()
            },
            Err(ZstdError::CounterOverflow) => {
                ||| served.flatten().len() > usize::MAX
                ||| {
                    &&& after.engine.steps > ready.steps
                    &&& after.engine.last_status matches Some(Ok(_))
                    &&& after.engine.last_output.len() > 0
                    &&& chunks.flatten().len() + after.engine.last_output.len() > usize::MAX
                }
            },
            Err(ZstdError::Io(_)) => true,
            Err(_) => false,
        }
    }
}

/// The steps since `ready` are the steps that were added to its trace.
proof fn lemma_chain_steps(ready: EngineLog, now: EngineLog, steps: Seq<StepRecord>)
    requires
        now.trace == ready.trace + steps,
        now.steps == ready.steps + steps.len(),
    ensures
        now.steps_since(ready) == steps,
        now.stepped(ready, now.steps_since(ready)),
{
    assert(now.steps_since(ready) =~= steps);
}

/// From the parts of a copy's state to the terms in which `copied` speaks.
proof fn lemma_copy_state(
    ready: EngineLog,
    engine: EngineLog,
    source_before: Seq<Seq<u8>>,
    source_after: Seq<Seq<u8>>,
    sink_before: OutletLog,
    sink_after: OutletLog,
    served: Seq<Seq<u8>>,
    out: Seq<Seq<u8>>,
    took: Seq<u8>,
    pending: Seq<u8>,
    steps: Seq<StepRecord>,
)
    requires
        engine.trace == ready.trace + steps,
        engine.steps == ready.steps + steps.len(),
        engine == ready.replayed(steps, true),
        source_after == source_before + served,
        sink_after.chunks == sink_before.chunks + out,
        sink_after.flushes == sink_before.flushes,
        sink_after.closes == sink_before.closes,
        sink_after.failures >= sink_before.failures,
        engine.consumed == ready.consumed + took,
        engine.produced == ready.produced + out.flatten() + pending,
        engine.steps >= ready.steps,
        engine.frames >= ready.frames,
        engine.resets == ready.resets,
    ensures
        engine.continues(ready),
        sink_after.continues(sink_before),
        source_after.take(source_before.len() as int) == source_before,
        source_after.skip(source_before.len() as int) == served,
        sink_after.chunks_since(sink_before) == out,
        engine.consumed_since(ready) == took,
        engine.produced_since(ready) == out.flatten() + pending,
        out.flatten() == (out.flatten() + pending).take(out.flatten().len() as int),
        served.len() > 0 ==> served.flatten() == served.drop_last().flatten() + served.last(),
        engine.steps_since(ready) == steps,
        engine.stepped(ready, engine.steps_since(ready)),
        engine == ready.replayed(engine.steps_since(ready), true),
{
    assert(engine.steps_since(ready) =~= steps);
    if served.len() > 0 {
        served.drop_last().lemma_flatten_push(served.last());
        assert(served.drop_last().push(served.last()) =~= served);
    }
    assert(source_after.take(source_before.len() as int) =~= source_before);
    assert(source_after.skip(source_before.len() as int) =~= served);
    assert(sink_after.chunks.take(sink_before.chunks.len() as int) =~= sink_before.chunks);
    assert(sink_after.chunks_since(sink_before) =~= out);
    assert(engine.consumed.take(ready.consumed.len() as int) =~= ready.consumed);
    assert(engine.produced.take(ready.produced.len() as int) =~= ready.produced);
    assert(engine.consumed_since(ready) =~= took);
    assert(engine.produced_since(ready) =~= out.flatten() + pending);
    assert(out.flatten() =~= (out.flatten() + pending).take(out.flatten().len() as int));
}

/// The bytes of a result, where it has bytes.
pub open spec fn bytes_of(r: Result<Vec<u8>, ZstdError>) -> Result<Seq<u8>, ZstdError> {
    match r {
        Ok(v) => Ok(v@),
        Err(e) => Err(e),
    }
}

/// How many bytes are skipped: what is given, or nothing.
pub open spec fn skip_of(skip_bytes: Option<usize>) -> usize {
    match skip_bytes {
        Some(skip) => skip,
        None => 0,
    }
}

/// A context that is set up for compressed data to be handed to it piece by
/// piece, with the size of the buffer that its output is to go through.
pub struct ZstdDecompressionObj {
    dctx: DCtx<'static>,
    write_size: usize,
}

impl ZstdDecompressionObj {
    /// The record of the context.
    pub closed spec fn engine(&self) -> EngineLog {
        self.dctx@
    }

    pub closed spec fn spec_write_size(&self) -> usize {
        self.write_size
    }

    pub fn new(dctx: DCtx<'static>, write_size: usize) -> (obj: Self)
        ensures
            obj.engine() == dctx@,
            obj.spec_write_size() == write_size,
    {
        ZstdDecompressionObj { dctx, write_size }
    }

    /// The size of the buffer for the output.
    #[verifier::when_used_as_spec(spec_write_size)]
    pub fn write_size(&self) -> (n: usize)
        ensures
            n == self.spec_write_size(),
    {
        self.write_size
    }

    /// The context, out of the object.
    pub fn into_dctx(self) -> (dctx: DCtx<'static>)
        ensures
            dctx@ == self.engine(),
    {
        self.dctx
    }
}

/// A context that is set up for the content of a source to be pulled out of
/// it chunk by chunk, with the source and the sizes to go by.
pub struct ZstdDecompressorIterator<R: Source> {
    dctx: DCtx<'static>,
    reader: R,
    read_size: usize,
    write_size: usize,
    skip_bytes: usize,
}

impl<R: Source> ZstdDecompressorIterator<R> {
    /// The record of the context.
    pub closed spec fn engine(&self) -> EngineLog {
        self.dctx@
    }

    /// The source as it stands.
    pub closed spec fn source(&self) -> R {
        self.reader
    }

    /// The sizes: of a read, of the buffer for the output, and of what is
    /// skipped at the start of the source.
    pub closed spec fn sizes(&self) -> (usize, usize, usize) {
        (self.read_size, self.write_size, self.skip_bytes)
    }

    pub fn new(dctx: DCtx<'static>, reader: R, read_size: usize, write_size: usize, skip_bytes: usize) -> (it: Self)
        ensures
            it.engine() == dctx@,
            it.source() == reader,
            it.sizes() == (read_size, write_size, skip_bytes),
    {
        ZstdDecompressorIterator { dctx, reader, read_size, write_size, skip_bytes }
    }

    /// The size of a read.
    pub fn read_size(&self) -> (n: usize)
        ensures
            n == self.sizes().0,
    {
        self.read_size
    }

    /// The size of the buffer for the output.
    pub fn write_size(&self) -> (n: usize)
        ensures
            n == self.sizes().1,
    {
        self.write_size
    }

    /// How many bytes are skipped at the start of the source.
    pub fn skip_bytes(&self) -> (n: usize)
        ensures
            n == self.sizes().2,
    {
        self.skip_bytes
    }

    /// The context and the source, out of the iterator.
    pub fn into_parts(self) -> (parts: (DCtx<'static>, R))
        ensures
            parts.0@ == self.engine(),
            parts.1 == self.source(),
    {
        (self.dctx, self.reader)
    }
}

/// A decompressor: a context, and the settings that it is given before each
/// piece of work.
pub struct ZstdDecompressor {
    dict_data: Option<Vec<u8>>,
    max_window_size: usize,
    format: FrameFormat,
    dctx: DCtx<'static>,
}

impl View for ZstdDecompressor {
    type V = DecompressorView;

    closed spec fn view(&self) -> DecompressorView {
        DecompressorView {
            config: DecompressorConfig {
                dict_data: match self.dict_data {
                    Some(dict) => Some(dict@),
                    None => None,
                },
                max_window_size: self.max_window_size,
                format: self.format,
            },
            engine: self.dctx@,
        }
    }
}

impl ZstdDecompressor {
    /// A decompressor with a new context. `format` is `FORMAT_ZSTD1` or
    /// `FORMAT_ZSTD1_MAGICLESS`: any other number is refused.
    pub fn new(dict_data: Option<Vec<u8>>, max_window_size: usize, format: u32) -> (r: Result<Self, ZstdError>)
        ensures
            spec_frame_format(format) is None ==> (r matches Err(e) && e
                == ZstdError::Configuration(ConfigurationIssue::InvalidFormat(format))),
            spec_frame_format(format) matches Some(f) ==> match r {
                Ok(d) => d@ == (DecompressorView {
                    config: DecompressorConfig {
                        dict_data: match dict_data {
                            Some(dict) => Some(dict@),
                            None => None,
                        },
                        max_window_size,
                        format: f,
                    },
                    engine: EngineLog::fresh(),
                }),
                Err(e) => e == ZstdError::OutOfMemory,
            },
    {
        let format = match frame_format(format) {
            Some(format) => format,
            None => {
                return Err(ZstdError::Configuration(ConfigurationIssue::InvalidFormat(format)));
            },
        };
        let dctx = match DCtx::new() {
            Ok(dctx) => dctx,
            Err(_) => {
                return Err(ZstdError::OutOfMemory);
            },
        };
        Ok(ZstdDecompressor { dict_data, max_window_size, format, dctx })
    }

    /// Sets the context up for a piece of work: resets its session, limits its
    /// window if the decompressor has a limit, sets its format, and loads the
    /// dictionary if the decompressor has one and `load_dict` asks for it.
    pub fn setup_dctx(&mut self, load_dict: bool) -> (r: Result<(), ZstdError>)
        ensures
            final(self)@.config == old(self)@.config,
            r is Ok ==> final(self)@.engine == configured(
                old(self)@.engine,
                old(self)@.config,
                load_dict,
            ),
            r matches Err(e) ==> (is_setup_error(e) && setup_failed(
                old(self)@.engine,
                final(self)@.engine,
                old(self)@.config,
                load_dict,
                e,
            )),
    {
        match self.dctx.reset_session() {
            Ok(()) => {},
            Err(code) => {
                return Err(ZstdError::Codec { stage: Stage::Reset, code, frame: None });
            },
        }
        if self.max_window_size != 0 {
            match self.dctx.set_window_log_max(window_log(self.max_window_size)) {
                Ok(()) => {},
                Err(code) => {
                    return Err(
                        ZstdError::Codec { stage: Stage::SetMaxWindowSize, code, frame: None },
                    );
                },
            }
        }
        match self.dctx.set_format(self.format) {
            Ok(()) => {},
            Err(code) => {
                return Err(ZstdError::Codec { stage: Stage::SetFormat, code, frame: None });
            },
        }
        if load_dict {
            match &self.dict_data {
                Some(dict) => {
                    match self.dctx.load_dictionary(dict.as_slice()) {
                        Ok(()) => {},
                        Err(code) => {
                            return Err(
                                ZstdError::Codec { stage: Stage::LoadDictionary, code, frame: None },
                            );
                        },
                    }
                },
                None => {},
            }
        }
        Ok(())
    }

    /// Decompresses `buffer`, which holds one frame, in one step of the
    /// engine. The output has the size that the frame's header declares;
    /// where it declares none, `max_output_size` bounds the output, and must
    /// not be 0.
    pub fn decompress(&mut self, buffer: &[u8], max_output_size: usize) -> (r: Result<Vec<u8>, ZstdError>)
        ensures
            one_shot(old(self)@, final(self)@, buffer@, max_output_size, bytes_of(r)),
    {
        match self.setup_dctx(true) {
            Ok(()) => {},
            Err(e) => {
                return Err(e);
            },
        }
        let (capacity, expected) = match plan_output(frame_content_size(buffer), max_output_size) {
            Err(e) => {
                return Err(e);
            },
            Ok(OutputPlan::Empty) => {
                return Ok(Vec::new());
            },
            Ok(OutputPlan::Decode { capacity, expected }) => (capacity, expected),
        };
        let mut dest_buffer = match Buffer::try_with_capacity(capacity) {
            Some(buffer) => buffer,
            None => {
                return Err(ZstdError::OutOfMemory);
            },
        };
        let ghost ready = self.dctx@;
        let report = self.dctx.step(&mut dest_buffer, buffer, 0, EndDirective::Continue);
        proof {
            assert(buffer@.skip(0) =~= buffer@);
            assert(buffer@.subrange(0, report.input_pos as int) =~= buffer@.take(
                report.input_pos as int,
            ));
        }
        match verdict(report.status, report.output_pos, expected, None) {
            Ok(()) => Ok(dest_buffer.into_vec()),
            Err(e) => Err(e),
        }
    }

    /// Decodes one frame of a chain into a buffer of `size` bytes, in one step.
    fn decode_frame(&mut self, frame: &[u8], size: usize, index: usize) -> (r: Result<Vec<u8>, ZstdError>)
        ensures
            final(self)@.config == old(self)@.config,
            (r matches Err(e) && e == ZstdError::OutOfMemory && size > 0 && final(self)@.engine
                == old(self)@.engine) || decoded(
                old(self)@.engine,
                final(self)@.engine,
                frame@,
                size,
                Some(size as u64),
                Some(index),
                bytes_of(r),
            ),
    {
        let mut dest_buffer = match Buffer::try_with_capacity(size) {
            Some(buffer) => buffer,
            None => {
                return Err(ZstdError::OutOfMemory);
            },
        };
        let ghost ready = self.dctx@;
        let report = self.dctx.step(&mut dest_buffer, frame, 0, EndDirective::Continue);
        proof {
            assert(frame@.skip(0) =~= frame@);
            assert(frame@.subrange(0, report.input_pos as int) =~= frame@.take(
                report.input_pos as int,
            ));
        }
        match verdict(report.status, report.output_pos, Some(size as u64), Some(index)) {
            Ok(()) => Ok(dest_buffer.into_vec()),
            Err(e) => Err(e),
        }
    }

    /// Decompresses a chain of frames, of which each but the first was
    /// compressed with the content of the one before it as its dictionary,
    /// and returns the content of the last. Every frame has to declare the
    /// size of its content in its header. The context is set up once, and not
    /// reset between the frames: what it keeps of one frame is what the next
    /// refers to.
    pub fn decompress_content_dict_chain(&mut self, frames: &Vec<Vec<u8>>) -> (r: Result<Vec<u8>, ZstdError>)
        ensures
            chained(old(self)@, final(self)@, crate::io::chunk_views(frames@), bytes_of(r)),
            frames@.len() == 0 || chain_size(crate::io::chunk_views(frames@), 0) is Err
                ==> *final(self) == *old(self),
    {
        let ghost views = crate::io::chunk_views(frames@);
        if frames.len() == 0 {
            return Err(ZstdError::InvalidInput { issue: InputIssue::EmptyChain, frame: None });
        }
        let first_size = match chain_frame_size(frame_content_size(frames[0].as_slice()), 0) {
            Ok(size) => size,
            Err(e) => {
                return Err(e);
            },
        };
        match self.setup_dctx(false) {
            Ok(()) => {},
            Err(e) => {
                return Err(e);
            },
        }
        let ghost ready = self.dctx@;
        let ghost mut steps: Seq<StepRecord> = Seq::empty();
        proof {
            ready.lemma_continues_itself();
            lemma_chain_steps(ready, ready, steps);
            assert(ready.replayed(steps, true) == ready);
        }
        let mut last_buffer = match self.decode_frame(frames[0].as_slice(), first_size, 0) {
            Ok(buffer) => buffer,
            Err(e) => {
                proof {
                    if self.dctx@ != ready {
                        ready.lemma_step_continues(ready, self.dctx@.trace.last(), true);
                        ready.lemma_replayed_push(steps, self.dctx@.trace.last(), true);
                        lemma_chain_steps(ready, self.dctx@, steps.push(self.dctx@.trace.last()));
                    }
                }
                return Err(e);
            },
        };
        proof {
            ready.lemma_step_continues(ready, self.dctx@.trace.last(), true);
            ready.lemma_replayed_push(steps, self.dctx@.trace.last(), true);
            steps = steps.push(self.dctx@.trace.last());
            lemma_chain_steps(ready, self.dctx@, steps);
        }
        let mut i: usize = 1;
        while i < frames.len()
            invariant
                views == crate::io::chunk_views(frames@),
                ready == configured(old(self)@.engine, old(self)@.config, false),
                frames@.len() > 0,
                chain_size(views, 0) is Ok,
                1 <= i <= frames@.len(),
                self@.config == old(self)@.config,
                self@.engine.continues(ready),
                self@.engine.resets == ready.resets,
                self@.engine.settings == ready.settings,
                self@.engine.refused == ready.refused,
                self@.engine.steps == ready.steps + i,
                self@.engine.steps_since_reset == i,
                self@.engine.frames == ready.frames + i,
                self@.engine.last_status == Some(Ok::<usize, usize>(0)),
                last_buffer@ == self@.engine.last_output,
                chain_size(views, i - 1) matches Ok(n) && last_buffer@.len() == n,
                forall|j: int| 0 <= j < i ==> (#[trigger] chain_size(views, j)) is Ok,
                self@.engine.trace == ready.trace + steps,
                self@.engine == ready.replayed(steps, true),
                steps.len() == i,
                forall|j: int|
                    0 <= j < i ==> (#[trigger] steps[j]).status == Ok::<usize, usize>(0)
                        && steps[j].output.len() == chain_size(views, j)->Ok_0,
                forall|j: int|
                    0 <= j < i ==> offered_frame(
                        #[trigger] steps[j],
                        views[j],
                        chain_size(views, j)->Ok_0,
                    ),
            decreases frames@.len() - i,
        {
            let ghost entry = self.dctx@;
            let size = match chain_frame_size(frame_content_size(frames[i].as_slice()), i) {
                Ok(size) => size,
                Err(e) => {
                    proof {
                        lemma_chain_steps(ready, self.dctx@, steps);
                    }
                    return Err(e);
                },
            };
            match self.decode_frame(frames[i].as_slice(), size, i) {
                Ok(buffer) => {
                    last_buffer = buffer;
                },
                Err(e) => {
                    proof {
                        if self.dctx@ != entry {
                            entry.lemma_step_continues(ready, self.dctx@.trace.last(), true);
                            ready.lemma_replayed_push(steps, self.dctx@.trace.last(), true);
                            assert(ready.trace + steps.push(self.dctx@.trace.last()) =~= (
                            ready.trace + steps).push(self.dctx@.trace.last()));
                            lemma_chain_steps(
                                ready,
                                self.dctx@,
                                steps.push(self.dctx@.trace.last()),
                            );
                        } else {
                            lemma_chain_steps(ready, self.dctx@, steps);
                        }
                    }
                    return Err(e);
                },
            }
            proof {
                entry.lemma_step_continues(ready, self.dctx@.trace.last(), true);
                ready.lemma_replayed_push(steps, self.dctx@.trace.last(), true);
                assert(ready.trace + steps.push(self.dctx@.trace.last()) =~= (ready.trace
                    + steps).push(self.dctx@.trace.last()));
                steps = steps.push(self.dctx@.trace.last());
            }
            i = i + 1;
        }
        proof {
            lemma_chain_steps(ready, self.dctx@, steps);
        }
        Ok(last_buffer)
    }

    /// Copies a compressed source to a sink, decompressing on the way: reads
    /// chunks of `read_size` bytes at most until the source gives an empty
    /// one, and writes what the engine gives in chunks of `write_size` bytes
    /// at most. Where a size is not given, it is the one that the engine
    /// recommends. Returns the number of bytes read and of bytes written.
    pub fn copy_stream<R: Source, W: Sink>(
        &mut self,
        ifh: &mut Inlet<R>,
        ofh: &mut Outlet<W>,
        read_size: Option<usize>,
        write_size: Option<usize>,
    ) -> (r: Result<(usize, usize), ZstdError>)
        ensures
            final(ifh).closes() == old(ifh).closes(),
            final(ofh).spec_capabilities() == old(ofh).spec_capabilities(),
            final(ifh).failures() >= old(ifh).failures(),
            final(ofh)@.failures >= old(ofh)@.failures,
            final(ifh).failures() + final(ofh)@.failures == old(ifh).failures() + old(ofh)@.failures
                + refusals(r.err()),
            asked_for(
                old(ifh).asked(),
                final(ifh).asked(),
                (final(ifh)@.len() - old(ifh)@.len() + final(ifh).failures() - old(ifh).failures()) as nat,
                read_size,
            ),
            copied(
                old(self)@,
                final(self)@,
                old(ifh)@,
                final(ifh)@,
                old(ofh)@,
                final(ofh)@,
                write_size,
                r,
            ),
            r matches Err(e) && is_setup_error(e) ==> *final(ifh) == *old(ifh) && *final(ofh) == *old(
                ofh,
            ),
    {
        let chunk_size = match read_size {
            Some(size) => size,
            None => dstream_in_size(),
        };
        proof {
            lemma_asked_nothing(ifh.asked(), read_size);
            lemma_asked_nothing(ifh.asked(), Some(chunk_size));
        }
        let capacity = match write_size {
            Some(size) => size,
            None => dstream_out_size(),
        };
        match self.setup_dctx(true) {
            Ok(()) => {},
            Err(e) => {
                return Err(e);
            },
        }
        let ghost ready = self.dctx@;
        let ghost source_before = ifh@;
        let ghost sink_before = ofh@;
        let ghost mut served: Seq<Seq<u8>> = Seq::empty();
        let ghost mut out: Seq<Seq<u8>> = Seq::empty();
        let ghost mut all: Seq<StepRecord> = Seq::empty();
        proof {
            reveal_with_fuel(Seq::flatten, 1);
            assert(source_before + served =~= source_before);
            assert(sink_before.chunks + out =~= sink_before.chunks);
            assert(ready.consumed + served.flatten() =~= ready.consumed);
            assert(ready.produced + out.flatten() =~= ready.produced);
            assert(ready.produced + out.flatten() + Seq::<u8>::empty() =~= ready.produced);
            assert(ready.trace + all =~= ready.trace);
        }
        let mut dest_buffer = match Buffer::try_with_capacity(capacity) {
            Some(buffer) => buffer,
            None => {
                proof {
                    lemma_copy_state(
                        ready,
                        self.dctx@,
                        source_before,
                        ifh@,
                        sink_before,
                        ofh@,
                        served,
                        out,
                        served.flatten(),
                        Seq::<u8>::empty(),
                            all,
                        );
                }
                return Err(ZstdError::OutOfMemory);
            },
        };
        let mut total_read: usize = 0;
        let mut total_write: usize = 0;
        let mut done = false;
        while !done
            invariant
                ready == configured(old(self)@.engine, old(self)@.config, true),
                source_before == old(ifh)@,
                sink_before == old(ofh)@,
                ifh.closes() == old(ifh).closes(),
                ifh.failures() == old(ifh).failures(),
                read_size matches Some(n) ==> chunk_size == n,
                asked_for(old(ifh).asked(), ifh.asked(), served.len(), Some(chunk_size)),
                asked_for(old(ifh).asked(), ifh.asked(), served.len(), read_size),
                ofh.spec_capabilities() == old(ofh).spec_capabilities(),
                write_size matches Some(n) ==> capacity == n,
                self@.config == old(self)@.config,
                dest_buffer.spec_capacity() == capacity,
                dest_buffer@ == Seq::<u8>::empty(),
                ifh@ == source_before + served,
                forall|i: int|
                    0 <= i < served.len() - (if done { 1int } else { 0int }) ==> (
                    #[trigger] served[i]).len() > 0,
                done ==> served.len() >= 1 && served.last().len() == 0,
                ofh@ == (OutletLog { chunks: sink_before.chunks + out, ..sink_before }),
                forall|i: int| 0 <= i < out.len() ==> 0 < (#[trigger] out[i]).len() <= capacity,
                self@.engine.consumed == ready.consumed + served.flatten(),
                self@.engine.produced == ready.produced + out.flatten(),
                served.flatten().len() == 0 ==> self@.engine == ready && out.len() == 0,
                self@.engine.trace == ready.trace + all,
                self@.engine.steps == ready.steps + all.len(),
                self@.engine == ready.replayed(all, true),
                forall|i: int|
                    0 <= i < all.len() ==> (#[trigger] all[i]).status is Ok && all[i].directive
                        == EndDirective::Continue && all[i].room == capacity,
                self@.engine.steps >= ready.steps,
                self@.engine.frames >= ready.frames,
                self@.engine.resets == ready.resets,
                self@.engine.settings == ready.settings,
                self@.engine.refused == ready.refused,
                self@.engine.steps_since_reset == self@.engine.steps - ready.steps,
                total_read == served.flatten().len(),
                total_write == out.flatten().len(),
            decreases (usize::MAX - total_read) + (if done { 0int } else { 1int }),
        {
            let ghost asked = ifh.asked();
            let got = ifh.read(chunk_size);
            proof {
                lemma_asked_again(old(ifh).asked(), asked, served.len(), chunk_size, read_size);
            }
            let chunk = match got {
                Ok(chunk) => chunk,
                Err(e) => {
                    proof {
                        assert(ready.produced + out.flatten() + Seq::<u8>::empty()
                            =~= ready.produced + out.flatten());
                        lemma_copy_state(
                            ready,
                            self.dctx@,
                            source_before,
                            ifh@,
                            sink_before,
                            ofh@,
                            served,
                            out,
                            served.flatten(),
                            Seq::<u8>::empty(),
                            all,
                        );
                        assert(served.flatten().take(served.flatten().len() as int)
                            =~= served.flatten());
                    }
                    return Err(ZstdError::Io(e));
                },
            };
            proof {
                served.lemma_flatten_push(chunk@);
                assert(source_before + served.push(chunk@) =~= (source_before + served).push(
                    chunk@,
                ));
            }
            if chunk.len() == 0 {
                proof {
                    assert(served.flatten() + chunk@ =~= served.flatten());
                    served = served.push(chunk@);
                }
                done = true;
            } else {
                let ghost entry = self.dctx@;
                let ghost entry_sink = ofh@;
                let ghost fed_before = served;
                proof {
                    served = served.push(chunk@);
                }
                total_read = match total_read.checked_add(chunk.len()) {
                    Some(total) => total,
                    None => {
                        proof {
                            assert(ready.produced + out.flatten() + Seq::<u8>::empty()
                                =~= ready.produced + out.flatten());
                            lemma_copy_state(
                                ready,
                                self.dctx@,
                                source_before,
                                ifh@,
                                sink_before,
                                ofh@,
                                served,
                                out,
                                fed_before.flatten(),
                                Seq::<u8>::empty(),
                            all,
                        );
                            assert(served.flatten().take(fed_before.flatten().len() as int)
                                =~= fed_before.flatten());
                        }
                        return Err(ZstdError::CounterOverflow);
                    },
                };
                let fed = feed(
                    &mut self.dctx,
                    &mut dest_buffer,
                    ofh,
                    &mut total_write,
                    chunk.as_slice(),
                );
                proof {
                    let now = self.dctx@;
                    let new_chunks = ofh@.chunks_since(entry_sink);
                    let new_steps = now.steps_since(entry);
                    let took = now.consumed_since(entry);
                    assert(ready.trace + (all + new_steps) =~= ready.trace + all + new_steps);
                    ready.lemma_replayed_more(all, new_steps, true);
                    if new_steps.len() > 0 {
                        entry.lemma_replayed_last(new_steps, true);
                    }
                    assert forall|i: int| 0 <= i < (all + new_steps).len() implies (#[trigger] (all
                        + new_steps)[i]).directive == EndDirective::Continue && (all
                        + new_steps)[i].room == capacity && (i < (all + new_steps).len() - 1 || fed
                        is Ok ==> (all + new_steps)[i].status is Ok) by {
                        if i >= all.len() {
                            assert((all + new_steps)[i] == new_steps[i - all.len()]);
                        } else {
                            assert((all + new_steps)[i] == all[i]);
                        }
                    }
                    lemma_since(entry, now);
                    lemma_delivered(entry_sink, ofh@);
                    vstd::seq_lib::lemma_flatten_concat(out, new_chunks);
                    assert(sink_before.chunks + (out + new_chunks) =~= sink_before.chunks + out
                        + new_chunks);
                    assert(ready.consumed + (fed_before.flatten() + took) =~= ready.consumed
                        + fed_before.flatten() + took);
                    assert(forall|i: int|
                        0 <= i < (out + new_chunks).len() ==> 0 < (#[trigger] (out
                            + new_chunks)[i]).len() <= capacity) by {
                        assert forall|i: int| 0 <= i < (out + new_chunks).len() implies 0 < (
                        #[trigger] (out + new_chunks)[i]).len() <= capacity by {
                            if i >= out.len() {
                                assert((out + new_chunks)[i] == new_chunks[i - out.len()]);
                            }
                        }
                    }
                    if fed is Err {
                        let pending = if now.steps == entry.steps {
                            Seq::<u8>::empty()
                        } else {
                            dest_buffer@
                        };
                        assert(ready.produced + (out + new_chunks).flatten() + pending
                            =~= now.produced);
                        lemma_copy_state(
                            ready,
                            now,
                            source_before,
                            ifh@,
                            sink_before,
                            ofh@,
                            served,
                            out + new_chunks,
                            fed_before.flatten() + took,
                            pending,
                            all + new_steps,
                        );
                        assert(served.flatten().take((fed_before.flatten() + took).len() as int)
                            =~= fed_before.flatten() + took);
                    } else {
                        assert(ready.produced + (out + new_chunks).flatten() =~= now.produced);
                    }
                    out = out + new_chunks;
                    all = all + new_steps;
                }
                match fed {
                    Ok(()) => {},
                    Err(e) => {
                        return Err(e);
                    },
                }
            }
        }
        proof {
            assert(ready.produced + out.flatten() + Seq::<u8>::empty() =~= ready.produced
                + out.flatten());
            lemma_copy_state(
                ready,
                self.dctx@,
                source_before,
                ifh@,
                sink_before,
                ofh@,
                served,
                out,
                served.flatten(),
                Seq::<u8>::empty(),
                            all,
                        );
            assert(served.flatten().take(served.flatten().len() as int) =~= served.flatten());
            assert(out.flatten() + Seq::<u8>::empty() =~= out.flatten());
        }
        Ok((total_read, total_write))
    }

    /// Sets the context up and hands it over for compressed data to be given
    /// to it piece by piece. A `write_size` of 0 is refused, before anything
    /// is touched; where none is given, it is the size that the engine
    /// recommends.
    pub fn decompressobj(self, write_size: Option<usize>) -> (r: Result<ZstdDecompressionObj, ZstdError>)
        ensures
            write_size == Some(0usize) ==> (r matches Err(e) && e == ZstdError::Configuration(
                ConfigurationIssue::WriteSizeNotPositive,
            )),
            write_size != Some(0usize) ==> match r {
                Ok(obj) => {
                    &&& obj.engine() == configured(self@.engine, self@.config, true)
                    &&& obj.spec_write_size() > 0
                    &&& write_size matches Some(n) ==> obj.spec_write_size() == n
                },
                Err(e) => is_setup_error(e) || e == ZstdError::Configuration(
                    ConfigurationIssue::WriteSizeNotPositive,
                ) && write_size is None,
            },
    {
        let mut this = self;
        let write_size = match write_size {
            Some(size) => size,
            None => dstream_out_size(),
        };
        if write_size < 1 {
            return Err(ZstdError::Configuration(ConfigurationIssue::WriteSizeNotPositive));
        }
        match this.setup_dctx(true) {
            Ok(()) => {},
            Err(e) => {
                return Err(e);
            },
        }
        Ok(ZstdDecompressionObj::new(this.dctx, write_size))
    }

    /// Sets the context up and hands it over, with `reader`, for the content
    /// to be pulled out chunk by chunk. `skip_bytes` (none given: 0) has to be
    /// smaller than `read_size`: else the call is refused before anything is
    /// touched. Where a size is not given, it is the one that the engine
    /// recommends.
    pub fn read_to_iter<R: Source>(
        self,
        reader: R,
        read_size: Option<usize>,
        write_size: Option<usize>,
        skip_bytes: Option<usize>,
    ) -> (r: Result<ZstdDecompressorIterator<R>, ZstdError>)
        ensures
            match r {
                Ok(it) => {
                    &&& it.engine() == configured(self@.engine, self@.config, true)
                    &&& it.source() == reader
                    &&& read_size matches Some(n) ==> it.sizes().0 == n
                    &&& write_size matches Some(n) ==> it.sizes().1 == n
                    &&& it.sizes().2 == skip_of(skip_bytes)
                    &&& it.sizes().2 < it.sizes().0
                },
                Err(e) => is_setup_error(e) || e == ZstdError::Configuration(
                    ConfigurationIssue::SkipBytesNotBelowReadSize,
                ),
            },
            read_size matches Some(n) ==> (n <= skip_of(skip_bytes) <==> (r is Err && r->Err_0
                == ZstdError::Configuration(ConfigurationIssue::SkipBytesNotBelowReadSize))),
    {
        let mut this = self;
        let read_size = match read_size {
            Some(size) => size,
            None => dstream_in_size(),
        };
        let write_size = match write_size {
            Some(size) => size,
            None => dstream_out_size(),
        };
        let skip_bytes = match skip_bytes {
            Some(skip) => skip,
            None => 0,
        };
        if skip_bytes >= read_size {
            return Err(ZstdError::Configuration(ConfigurationIssue::SkipBytesNotBelowReadSize));
        }
        match this.setup_dctx(true) {
            Ok(()) => {},
            Err(e) => {
                return Err(e);
            },
        }
        Ok(ZstdDecompressorIterator::new(this.dctx, reader, read_size, write_size, skip_bytes))
    }

    /// Sets the context up and hands it over to a reader on `source`. Where
    /// no `read_size` is given, it is the size that the engine recommends.
    pub fn stream_reader<R: Source>(
        self,
        source: R,
        read_size: Option<usize>,
        read_across_frames: bool,
        closefd: bool,
    ) -> (r: Result<ZstdDecompressionReader<R>, ZstdError>)
        ensures
            match r {
                Ok(reader) => {
                    &&& reader.wf()
                    &&& reader.source() == source
                    &&& reader@ == (ReaderView {
                        state: StreamState::Fresh,
                        config: ReaderConfig {
                            read_size: reader@.config.read_size,
                            read_across_frames,
                            closefd,
                        },
                        engine: configured(self@.engine, self@.config, true),
                        served: Seq::empty(),
                        source_closes: 0,
                        source_failures: 0,
                        asked: Seq::empty(),
                        buffered: Seq::empty(),
                        finished_input: false,
                        finished_output: false,
                        tell: 0,
                    })
                    &&& read_size matches Some(n) ==> reader@.config.read_size == n
                },
                Err(e) => is_setup_error(e),
            },
    {
        let mut this = self;
        let read_size = match read_size {
            Some(size) => size,
            None => dstream_in_size(),
        };
        match this.setup_dctx(true) {
            Ok(()) => {},
            Err(e) => {
                return Err(e);
            },
        }
        Ok(ZstdDecompressionReader::new(this.dctx, source, read_size, read_across_frames, closefd))
    }

    /// Sets the context up and hands it over to a writer on `writer`. Where
    /// no `write_size` is given, it is the size that the engine recommends.
    pub fn stream_writer<W: Sink>(
        self,
        writer: W,
        write_size: Option<usize>,
        write_return_read: bool,
        closefd: bool,
    ) -> (r: Result<ZstdDecompressionWriter<W>, ZstdError>)
        ensures
            match r {
                Ok(w) => {
                    &&& w.wf()
                    &&& w.sink() == writer
                    &&& w@.state == StreamState::Fresh
                    &&& w@.config.write_return_read == write_return_read
                    &&& w@.config.closefd == closefd
                    &&& write_size matches Some(n) ==> w@.config.write_size == n
                    &&& w@.engine == configured(self@.engine, self@.config, true)
                    &&& w@.sink == OutletLog::empty()
                    &&& w@.pending == Seq::<u8>::empty()
                },
                Err(e) => is_setup_error(e) || (e == ZstdError::OutOfMemory && write_size != Some(
                    0usize,
                )),
            },
    {
        let mut this = self;
        let write_size = match write_size {
            Some(size) => size,
            None => dstream_out_size(),
        };
        match this.setup_dctx(true) {
            Ok(()) => {},
            Err(e) => {
                return Err(e);
            },
        }
        ZstdDecompressionWriter::new(this.dctx, writer, write_size, write_return_read, closefd)
    }

    /// The bytes the context holds at the moment.
    pub fn memory_size(&self) -> usize {
        self.dctx.memory_size()
    }

    /// Not implemented.
    pub fn multi_decompress_to_buffer(
        &self,
        frames: &Vec<Vec<u8>>,
        decompressed_sizes: Option<&Vec<u64>>,
        threads: usize,
    ) -> (r: Result<(), ZstdError>)
        ensures
            r == Err::<(), ZstdError>(ZstdError::NotImplemented),
    {
        Err(ZstdError::NotImplemented)
    }
}

} // verus!
