//! The zstd engine: the two contexts of `zstd_safe`, each with a record of
//! what it was given and what it gave, and the calls on them, whose contracts
//! are taken on trust.

use vstd::prelude::*;
use crate::error::{Stage, ZstdError};

verus! {

/// What the engine is to do once it has taken the input of a step.
#[derive(Clone, Copy, Debug, PartialEq, Eq, Structural)]
pub enum EndDirective {
    /// Take input; give output as it comes.
    Continue,
    /// Give out all that is held back, and keep the frame open.
    Flush,
    /// Give out all that is held back, and finish the frame.
    End,
}

/// What one engine step reported.
#[derive(Clone, Copy, Debug, PartialEq, Eq)]
pub struct StepReport {
    /// The input position after the step.
    pub input_pos: usize,
    /// The output position after the step: where the step started at the
    /// start of the destination, the number of bytes that it wrote.
    pub output_pos: usize,
    /// `Ok` with the engine's hint, which is 0 when nothing is left to do, or
    /// `Err` with its error code.
    pub status: Result<usize, usize>,
}

/// A setting that a context took.
pub enum Setting {
    /// The total size of what is to be compressed; `None` leaves it open.
    PledgedSize(Option<u64>),
    /// The largest window, as a power of two, that a frame may ask for.
    WindowLogMax(u32),
    /// The frame format.
    Format(FrameFormat),
    /// A dictionary, by its bytes.
    Dictionary(Seq<u8>),
}

/// What a context can be asked for besides a step.
pub enum Request {
    /// To reset its session.
    Reset,
    /// To take a setting.
    Apply(Setting),
}

/// A request that the engine refused, and the code of the error that it gave.
pub struct Refusal {
    pub request: Request,
    pub code: usize,
}

/// One step of a context: what the engine was handed, and what came of it.
pub struct StepRecord {
    /// What the engine was told to do once it has taken the input. In
    /// decompression this plays no part in the call.
    pub directive: EndDirective,
    /// The input that was offered: the source from the input position on.
    pub offered: Seq<u8>,
    /// The room that was offered for output, in bytes.
    pub room: nat,
    /// The input that the step took: a prefix of what was offered.
    pub input: Seq<u8>,
    /// The output that the step gave.
    pub output: Seq<u8>,
    /// What the step reported.
    pub status: Result<usize, usize>,
}

/// One thing that was asked of a context, with what came of it.
pub enum Event {
    /// The session was reset.
    Reset,
    /// A setting was taken.
    Taken(Setting),
    /// A request was refused.
    Refused(Refusal),
    /// A step was made.
    Step(StepRecord),
}

/// The record of a context: what it was set to, what it refused, and what its
/// steps took and gave, since it was made.
pub struct EngineLog {
    /// All that was asked of the context, in the order in which it was asked.
    pub events: Seq<Event>,
    /// The steps, in order.
    pub trace: Seq<StepRecord>,
    /// The settings that the context took, in order.
    pub settings: Seq<Setting>,
    /// The requests that the context refused, in order.
    pub refused: Seq<Refusal>,
    /// The input bytes that the steps took, in order.
    pub consumed: Seq<u8>,
    /// The output bytes that the steps gave, in order.
    pub produced: Seq<u8>,
    /// The number of steps.
    pub steps: nat,
    /// The number of steps that finished a frame: for compression an `End`
    /// step that reported 0, for decompression any step that reported 0.
    pub frames: nat,
    /// The number of session resets.
    pub resets: nat,
    /// The number of steps since the latest session reset.
    pub steps_since_reset: nat,
    /// What the latest step reported, if there was a step.
    pub last_status: Option<Result<usize, usize>>,
    /// What the latest step took.
    pub last_input: Seq<u8>,
    /// What the latest step gave.
    pub last_output: Seq<u8>,
}

impl EngineLog {
    /// The record of a context that has done nothing yet.
    pub open spec fn fresh() -> EngineLog {
        EngineLog {
            events: Seq::empty(),
            trace: Seq::empty(),
            settings: Seq::empty(),
            refused: Seq::empty(),
            consumed: Seq::empty(),
            produced: Seq::empty(),
            steps: 0,
            frames: 0,
            resets: 0,
            steps_since_reset: 0,
            last_status: None,
            last_input: Seq::empty(),
            last_output: Seq::empty(),
        }
    }

    /// The record after one more step, which took `input`, gave `output` and
    /// reported `status`; `finishes` says whether a report of 0 finishes a frame.
    pub open spec fn after_step(
        self,
        input: Seq<u8>,
        output: Seq<u8>,
        status: Result<usize, usize>,
        finishes: bool,
    ) -> EngineLog {
        EngineLog {
            consumed: self.consumed + input,
            produced: self.produced + output,
            steps: self.steps + 1,
            frames: if finishes && status == Ok::<usize, usize>(0) {
                self.frames + 1
            } else {
                self.frames
            },
            steps_since_reset: self.steps_since_reset + 1,
            last_status: Some(status),
            last_input: input,
            last_output: output,
            ..self
        }
    }

    /// The record after the step `step`; `finishes` says whether a report of
    /// 0 finishes a frame.
    pub open spec fn after_call(self, step: StepRecord, finishes: bool) -> EngineLog {
        EngineLog {
            events: self.events.push(Event::Step(step)),
            trace: self.trace.push(step),
            ..self.after_step(step.input, step.output, step.status, finishes)
        }
    }

    /// The record after the steps `steps`, one after the other, and nothing
    /// in between.
    pub open spec fn replayed(self, steps: Seq<StepRecord>, finishes: bool) -> EngineLog
        decreases steps.len(),
    {
        if steps.len() == 0 {
            self
        } else {
            self.replayed(steps.drop_last(), finishes).after_call(steps.last(), finishes)
        }
    }

    /// One more step after some steps is the steps with that one at their end.
    pub proof fn lemma_replayed_push(self, steps: Seq<StepRecord>, step: StepRecord, finishes: bool)
        ensures
            self.replayed(steps.push(step), finishes) == self.replayed(steps, finishes).after_call(
                step,
                finishes,
            ),
    {
        assert(steps.push(step).drop_last() =~= steps);
    }

    /// The latest step of a record after some steps is the last of them.
    pub proof fn lemma_replayed_last(self, steps: Seq<StepRecord>, finishes: bool)
        requires
            steps.len() > 0,
        ensures
            self.replayed(steps, finishes).last_status == Some(steps.last().status),
            self.replayed(steps, finishes).last_input == steps.last().input,
            self.replayed(steps, finishes).last_output == steps.last().output,
    {
    }

    /// Steps after steps are all the steps in a row.
    pub proof fn lemma_replayed_more(self, first: Seq<StepRecord>, then: Seq<StepRecord>, finishes: bool)
        ensures
            self.replayed(first + then, finishes) == self.replayed(first, finishes).replayed(
                then,
                finishes,
            ),
        decreases then.len(),
    {
        if then.len() == 0 {
            assert(first + then =~= first);
        } else {
            self.lemma_replayed_more(first, then.drop_last(), finishes);
            assert((first + then).drop_last() =~= first + then.drop_last());
            assert((first + then).last() == then.last());
        }
    }

    /// The steps that were made after `before`.
    pub open spec fn steps_since(self, before: EngineLog) -> Seq<StepRecord> {
        self.trace.skip(before.trace.len() as int)
    }

    /// Whether the steps of this record are those of `before` and then
    /// `steps`, and the count of steps went up by as many.
    pub open spec fn stepped(self, before: EngineLog, steps: Seq<StepRecord>) -> bool {
        &&& self.trace == before.trace + steps
        &&& self.steps == before.steps + steps.len()
    }

    /// The record after a session reset.
    pub open spec fn after_reset(self) -> EngineLog {
        EngineLog {
            events: self.events.push(Event::Reset),
            resets: self.resets + 1,
            steps_since_reset: 0,
            ..self
        }
    }

    /// The record after the context took `setting`.
    pub open spec fn after_setting(self, setting: Setting) -> EngineLog {
        EngineLog {
            events: self.events.push(Event::Taken(setting)),
            settings: self.settings.push(setting),
            ..self
        }
    }

    /// The record after the context refused `request` with the error `code`:
    /// nothing else of it has changed.
    pub open spec fn after_refusal(self, request: Request, code: usize) -> EngineLog {
        EngineLog {
            events: self.events.push(Event::Refused(Refusal { request, code })),
            refused: self.refused.push(Refusal { request, code }),
            ..self
        }
    }

    /// Whether this record can be a later one of the context that had `before`:
    /// nothing of `before` is lost.
    pub open spec fn continues(self, before: EngineLog) -> bool {
        &&& before.consumed.len() <= self.consumed.len()
        &&& self.consumed.take(before.consumed.len() as int) == before.consumed
        &&& before.produced.len() <= self.produced.len()
        &&& self.produced.take(before.produced.len() as int) == before.produced
        &&& before.steps <= self.steps
        &&& before.frames <= self.frames
        &&& before.resets <= self.resets
    }

    /// A record goes on from itself.
    pub proof fn lemma_continues_itself(self)
        ensures
            self.continues(self),
    {
        assert(self.consumed.take(self.consumed.len() as int) =~= self.consumed);
        assert(self.produced.take(self.produced.len() as int) =~= self.produced);
    }

    /// A step goes on from what went before it, and adds what it took and
    /// gave to what came since.
    pub proof fn lemma_step_continues(self, before: EngineLog, step: StepRecord, finishes: bool)
        requires
            self.continues(before),
        ensures
            self.after_call(step, finishes).continues(before),
            self.after_call(step, finishes).consumed_since(before) == self.consumed_since(before)
                + step.input,
            self.after_call(step, finishes).produced_since(before) == self.produced_since(before)
                + step.output,
    {
        let after = self.after_call(step, finishes);
        let input = step.input;
        let output = step.output;
        assert(after.consumed.take(before.consumed.len() as int) =~= self.consumed.take(
            before.consumed.len() as int,
        ));
        assert(after.produced.take(before.produced.len() as int) =~= self.produced.take(
            before.produced.len() as int,
        ));
        assert(after.consumed_since(before) =~= self.consumed_since(before) + input);
        assert(after.produced_since(before) =~= self.produced_since(before) + output);
    }

    /// The input that the steps after `before` took.
    pub open spec fn consumed_since(self, before: EngineLog) -> Seq<u8> {
        self.consumed.skip(before.consumed.len() as int)
    }

    /// The output that the steps after `before` gave.
    pub open spec fn produced_since(self, before: EngineLog) -> Seq<u8> {
        self.produced.skip(before.produced.len() as int)
    }
}

/// A context that can be stepped: the two kinds of context, as the pump
/// sees them.
pub trait Engine {
    /// The record of the context.
    spec fn log(&self) -> EngineLog;

    /// Whether a step with `directive` that reports 0 has finished a frame.
    spec fn finishes(&self, directive: EndDirective) -> bool;

    /// The engine call that a step is, for an error to name it.
    spec fn spec_stage(&self) -> Stage;

    fn stage(&self) -> (s: Stage)
        ensures
            s == self.spec_stage(),
    ;

    /// One step: the engine reads `src` from `pos` on and writes to `dst` from
    /// its start. Afterwards `dst` holds what the step wrote, and the record
    /// has the step, with what the engine was handed: the directive, the
    /// input from `pos` on, and all the room of `dst`. A failed step takes
    /// nothing and gives nothing.
    fn step(&mut self, dst: &mut Buffer, src: &[u8], pos: usize, directive: EndDirective) -> (r:
        StepReport)
        requires
            pos <= src@.len(),
        ensures
            pos <= r.input_pos <= src@.len(),
            r.status is Err ==> r.input_pos == pos && r.output_pos == 0,
            final(dst)@.len() == r.output_pos,
            final(dst).spec_capacity() == old(dst).spec_capacity(),
            r.output_pos <= old(dst).spec_capacity(),
            final(self).spec_stage() == old(self).spec_stage(),
            forall|d: EndDirective| final(self).finishes(d) == old(self).finishes(d),
            final(self).log() == old(self).log().after_call(
                StepRecord {
                    directive,
                    offered: src@.skip(pos as int),
                    room: old(dst).spec_capacity(),
                    input: src@.subrange(pos as int, r.input_pos as int),
                    output: final(dst)@,
                    status: r.status,
                },
                old(self).finishes(directive),
            ),
    ;
}

/// The compression context of `zstd_safe`: nothing is known of what is in it.
#[verifier::external_type_specification]
#[verifier::external_body]
pub struct ExCStream<'a>(zstd_safe::CStream<'a>);

/// The decompression context of `zstd_safe`: nothing is known of what is in it.
#[verifier::external_type_specification]
#[verifier::external_body]
pub struct ExDStream<'a>(zstd_safe::DStream<'a>);

/// The error of `zstd_safe::get_frame_content_size`: opaque, and it says
/// nothing but that there was one.
#[verifier::external_type_specification]
#[verifier::external_body]
pub struct ExContentSizeError(zstd_safe::ContentSizeError);

/// What the header of `frame` says of the size of its content, as
/// `zstd_safe::get_frame_content_size` reads it: `Ok(Some(n))` for a header
/// that declares `n` bytes, `Ok(None)` for one that declares no size, `Err`
/// where no header can be read.
pub uninterp spec fn declared_content_size(frame: Seq<u8>) -> Result<Option<u64>, ()>;

/// `zstd_safe::get_frame_content_size` reads the header only, so what it
/// returns is a function of the bytes.
pub assume_specification[ zstd_safe::get_frame_content_size ](src: &[u8]) -> (r: Result<Option<u64>, zstd_safe::ContentSizeError>)
    ensures
        r matches Ok(size) ==> (declared_content_size(src@) matches Ok(declared) && declared == size),
        r is Err ==> declared_content_size(src@) is Err,
;

/// The name that the engine has for the error `code`.
pub uninterp spec fn error_name(code: usize) -> Seq<char>;

/// `zstd_safe::get_error_name` looks the name up in the engine's table.
pub assume_specification[ zstd_safe::get_error_name ](code: usize) -> (name: &'static str)
    ensures
        name@ == error_name(code),
;

/// `zstd_safe::CCtx::try_create`: a new context, or `None` where the engine
/// could not allocate one. Nothing is claimed of which.
#[verifier::external_body]
fn cctx_try_create() -> (r: Option<zstd_safe::CStream<'static>>)
{
    zstd_safe::CCtx::try_create()
}

/// `zstd_safe::CCtx::set_pledged_src_size`: the engine's answer, passed on.
#[verifier::external_body]
fn cctx_set_pledged_src_size(ctx: &mut zstd_safe::CStream<'static>, size: Option<u64>) -> (r: Result<usize, usize>)
{
    ctx.set_pledged_src_size(size)
}

/// `zstd_safe::CCtx::sizeof`: the bytes the context holds at the moment.
#[verifier::external_body]
fn cctx_sizeof(ctx: &zstd_safe::CStream<'static>) -> (r: usize)
{
    ctx.sizeof()
}

/// `zstd_safe::CCtx::compress_stream2` on an input buffer around `src` at
/// `pos` and an output buffer around all of `dst` at 0. Claimed: `dst` keeps
/// its length; the input position does not go back and stays within `src`;
/// no more is written than `dst` holds; a failed step moves neither position.
#[verifier::external_body]
fn cctx_compress_stream2(
    ctx: &mut zstd_safe::CStream<'static>,
    dst: &mut Vec<u8>,
    src: &[u8],
    pos: usize,
    directive: EndDirective,
) -> (r: StepReport)
    requires
        pos <= src@.len(),
    ensures
        final(dst)@.len() == old(dst)@.len(),
        pos <= r.input_pos <= src@.len(),
        r.output_pos <= old(dst)@.len(),
        r.status is Err ==> r.input_pos == pos && r.output_pos == 0,
    no_unwind
{
    let op = match directive {
        EndDirective::Continue => zstd_safe::zstd_sys::ZSTD_EndDirective::ZSTD_e_continue,
        EndDirective::Flush => zstd_safe::zstd_sys::ZSTD_EndDirective::ZSTD_e_flush,
        EndDirective::End => zstd_safe::zstd_sys::ZSTD_EndDirective::ZSTD_e_end,
    };
    let mut input = zstd_safe::InBuffer { src, pos };
    let mut output = zstd_safe::OutBuffer::around(dst.as_mut_slice());
    let status = ctx.compress_stream2(&mut output, &mut input, op);
    StepReport { input_pos: input.pos(), output_pos: output.pos(), status }
}

/// `zstd_safe::DCtx::try_create`: a new context, or `None` where the engine
/// could not allocate one. Nothing is claimed of which.
#[verifier::external_body]
fn dctx_try_create<'a>() -> (r: Option<zstd_safe::DStream<'a>>)
{
    zstd_safe::DCtx::try_create()
}

/// `zstd_safe::DCtx::reset` for the session only: the engine's answer, passed on.
#[verifier::external_body]
fn dctx_reset_session<'a>(ctx: &mut zstd_safe::DStream<'a>) -> (r: Result<usize, usize>)
{
    ctx.reset(zstd_safe::ResetDirective::SessionOnly)
}

/// `zstd_safe::DCtx::set_parameter` with `WindowLogMax`: the engine's answer,
/// passed on.
#[verifier::external_body]
fn dctx_set_window_log_max<'a>(ctx: &mut zstd_safe::DStream<'a>, log: u32) -> (r: Result<usize, usize>)
{
    ctx.set_parameter(zstd_safe::DParameter::WindowLogMax(log))
}

/// `zstd_safe::DCtx::set_parameter` with `Format`: the engine's answer, passed on.
#[verifier::external_body]
fn dctx_set_format<'a>(ctx: &mut zstd_safe::DStream<'a>, format: FrameFormat) -> (r: Result<usize, usize>)
{
    let format = match format {
        FrameFormat::Zstd1 => zstd_safe::FrameFormat::One,
        FrameFormat::Zstd1Magicless => zstd_safe::FrameFormat::Magicless,
    };
    ctx.set_parameter(zstd_safe::DParameter::Format(format))
}

/// `zstd_safe::DCtx::load_dictionary`: the engine's answer, passed on.
#[verifier::external_body]
fn dctx_load_dictionary<'a>(ctx: &mut zstd_safe::DStream<'a>, dict: &[u8]) -> (r: Result<usize, usize>)
{
    ctx.load_dictionary(dict)
}

/// `zstd_safe::DCtx::sizeof`: the bytes the context holds at the moment.
#[verifier::external_body]
fn dctx_sizeof<'a>(ctx: &zstd_safe::DStream<'a>) -> (r: usize)
{
    ctx.sizeof()
}

/// `zstd_safe::DCtx::decompress_stream` on an input buffer around `src` at
/// `pos` and an output buffer around all of `dst` at `out_pos`. Claimed: `dst`
/// keeps its length, and what it holds before `out_pos`; neither position
/// goes back, and each stays within its buffer; a failed step moves neither.
#[verifier::external_body]
fn dctx_decompress_stream<'a>(
    ctx: &mut zstd_safe::DStream<'a>,
    dst: &mut Vec<u8>,
    out_pos: usize,
    src: &[u8],
    pos: usize,
) -> (r: StepReport)
    requires
        pos <= src@.len(),
        out_pos <= old(dst)@.len(),
    ensures
        final(dst)@.len() == old(dst)@.len(),
        final(dst)@.take(out_pos as int) == old(dst)@.take(out_pos as int),
        pos <= r.input_pos <= src@.len(),
        out_pos <= r.output_pos <= old(dst)@.len(),
        r.status is Err ==> r.input_pos == pos && r.output_pos == out_pos,
    no_unwind
{
    let mut input = zstd_safe::InBuffer { src, pos };
    let mut output = zstd_safe::OutBuffer::around_pos(dst.as_mut_slice(), out_pos);
    let status = ctx.decompress_stream(&mut output, &mut input);
    StepReport { input_pos: input.pos(), output_pos: output.pos(), status }
}

/// `zstd_safe::DCtx::in_size`: the input size the engine recommends.
#[verifier::external_body]
fn dctx_in_size() -> (r: usize)
{
    zstd_safe::DCtx::in_size()
}

/// `zstd_safe::DCtx::out_size`: the output size the engine recommends.
#[verifier::external_body]
fn dctx_out_size() -> (r: usize)
{
    zstd_safe::DCtx::out_size()
}

/// `Vec::try_reserve_exact`: whether room for `additional` more bytes was
/// found. Claimed: the contents stay as they are.
#[verifier::external_body]
fn try_reserve_exact(v: &mut Vec<u8>, additional: usize) -> (ok: bool)
    ensures
        final(v)@ == old(v)@,
{
    v.try_reserve_exact(additional).is_ok()
}

/// A destination for the engine: storage of a fixed capacity, allocated once,
/// and the length of what the latest step wrote to it.
pub struct Buffer {
    storage: Vec<u8>,
    len: usize,
}

impl View for Buffer {
    type V = Seq<u8>;

    /// The bytes that count: the first `len` of the storage.
    closed spec fn view(&self) -> Seq<u8> {
        self.storage@.take(self.len as int)
    }
}

impl Buffer {
    #[verifier::type_invariant]
    spec fn inv(self) -> bool {
        self.len <= self.storage@.len()
    }

    /// How many bytes the buffer can hold.
    pub closed spec fn spec_capacity(&self) -> nat {
        self.storage@.len()
    }

    /// An empty buffer that can hold `capacity` bytes, or `None` where the
    /// allocator has no room for it. A buffer that holds nothing takes no
    /// room: the allocator is not asked for it, and it is always there.
    pub fn try_with_capacity(capacity: usize) -> (b: Option<Buffer>)
        ensures
            b matches Some(buf) ==> buf@ == Seq::<u8>::empty() && buf.spec_capacity() == capacity,
            capacity == 0 ==> b is Some,
    {
        let mut storage: Vec<u8> = Vec::new();
        if capacity == 0 {
            return Some(Buffer { storage, len: 0 });
        }
        if try_reserve_exact(&mut storage, capacity) {
            storage.resize(capacity, 0u8);
            Some(Buffer { storage, len: 0 })
        } else {
            None
        }
    }

    /// How many bytes the buffer can hold.
    #[verifier::when_used_as_spec(spec_capacity_usize)]
    pub fn capacity(&self) -> (n: usize)
        ensures
            n == self.spec_capacity(),
    {
        self.storage.len()
    }

    /// The capacity as the machine integer it is.
    pub closed spec fn spec_capacity_usize(&self) -> usize {
        self.storage@.len() as usize
    }

    /// How many bytes the buffer holds.
    pub fn len(&self) -> (n: usize)
        ensures
            n == self@.len(),
    {
        proof {
            use_type_invariant(self);
        }
        self.len
    }

    /// The bytes the buffer holds.
    pub fn as_slice(&self) -> (s: &[u8])
        ensures
            s@ == self@,
    {
        proof {
            use_type_invariant(self);
        }
        vstd::slice::slice_subrange(self.storage.as_slice(), 0, self.len)
    }

    /// Empties the buffer. Its capacity stays.
    pub fn clear(&mut self)
        ensures
            final(self)@ == Seq::<u8>::empty(),
            final(self).spec_capacity() == old(self).spec_capacity(),
    {
        self.len = 0;
    }

    /// The bytes the buffer holds, as a vector of their own.
    pub fn into_vec(self) -> (v: Vec<u8>)
        ensures
            v@ == self@,
    {
        proof {
            use_type_invariant(&self);
        }
        let mut storage = self.storage;
        storage.truncate(self.len);
        storage
    }
}

/// The frame formats a decompression context can be set to.
#[derive(Clone, Copy, Debug, PartialEq, Eq, Structural)]
pub enum FrameFormat {
    /// Frames that start with the magic number.
    Zstd1,
    /// Frames without the magic number.
    Zstd1Magicless,
}

/// The record that had `log`, after the engine gave `answer` to `request`.
pub open spec fn answered(log: EngineLog, request: Request, answer: Result<usize, usize>) -> EngineLog {
    match answer {
        Ok(_) => match request {
            Request::Reset => log.after_reset(),
            Request::Apply(setting) => log.after_setting(setting),
        },
        Err(code) => log.after_refusal(request, code),
    }
}

/// What is made of the engine's answer to a request: where it took the
/// request, what it says besides is of no account; where it refused, the code
/// of its error is the error.
pub fn accepted(answer: Result<usize, usize>) -> (r: Result<(), usize>)
    ensures
        r == match answer {
            Ok(_) => Ok::<(), usize>(()),
            Err(code) => Err::<(), usize>(code),
        },
{
    match answer {
        Ok(_) => Ok(()),
        Err(code) => Err(code),
    }
}

/// A compression context with the record of its steps.
pub struct CCtx {
    ctx: zstd_safe::CStream<'static>,
    log: Ghost<EngineLog>,
}

impl View for CCtx {
    type V = EngineLog;

    closed spec fn view(&self) -> EngineLog {
        self.log@
    }
}

impl CCtx {
    /// A new context, with an empty record.
    pub fn new() -> (r: Result<CCtx, ZstdError>)
        ensures
            r matches Ok(c) ==> c@ == EngineLog::fresh(),
            r matches Err(e) ==> e == ZstdError::OutOfMemory,
    {
        match cctx_try_create() {
            Some(ctx) => Ok(CCtx { ctx, log: Ghost(EngineLog::fresh()) }),
            None => Err(ZstdError::OutOfMemory),
        }
    }

    /// Declares the total size of what is to be compressed; `None` leaves it
    /// open. The engine is asked once, and the record has its answer: the
    /// setting where it took it, else the refusal with the code of its
    /// error, which is the error returned.
    pub fn set_pledged_source_size(&mut self, size: Option<u64>) -> (r: Result<(), usize>)
        ensures
            r is Ok ==> final(self)@ == old(self)@.after_setting(Setting::PledgedSize(size)),
            r matches Err(code) ==> final(self)@ == old(self)@.after_refusal(
                Request::Apply(Setting::PledgedSize(size)),
                code,
            ),
    {
        let answer = cctx_set_pledged_src_size(&mut self.ctx, size);
        proof {
            self.log@ = answered(self.log@, Request::Apply(Setting::PledgedSize(size)), answer);
        }
        accepted(answer)
    }

    /// The bytes the context holds at the moment.
    pub fn memory_size(&self) -> usize {
        cctx_sizeof(&self.ctx)
    }
}

impl Engine for CCtx {
    open spec fn log(&self) -> EngineLog {
        self@
    }

    open spec fn finishes(&self, directive: EndDirective) -> bool {
        directive == EndDirective::End
    }

    open spec fn spec_stage(&self) -> Stage {
        Stage::Compress
    }

    fn stage(&self) -> (s: Stage) {
        Stage::Compress
    }

    fn step(&mut self, dst: &mut Buffer, src: &[u8], pos: usize, directive: EndDirective) -> (r:
        StepReport) {
        proof {
            use_type_invariant(&*dst);
        }
        let r = cctx_compress_stream2(&mut self.ctx, &mut dst.storage, src, pos, directive);
        dst.len = r.output_pos;
        proof {
            self.log@ = self.log@.after_call(
                StepRecord {
                    directive,
                    offered: src@.skip(pos as int),
                    room: old(dst).spec_capacity(),
                    input: src@.subrange(pos as int, r.input_pos as int),
                    output: dst@,
                    status: r.status,
                },
                directive == EndDirective::End,
            );
        }
        r
    }
}

/// A decompression context with its record.
pub struct DCtx<'a> {
    ctx: zstd_safe::DStream<'a>,
    log: Ghost<EngineLog>,
}

impl<'a> View for DCtx<'a> {
    type V = EngineLog;

    closed spec fn view(&self) -> EngineLog {
        self.log@
    }
}

impl<'a> DCtx<'a> {
    /// A new context, with an empty record, or the reason why there is none.
    pub fn new() -> (r: Result<Self, &'static str>)
        ensures
            r matches Ok(d) ==> d@ == EngineLog::fresh(),
            r matches Err(reason) ==> reason@ == "could not allocate ZSTD_DCtx instance"@,
    {
        match dctx_try_create() {
            Some(ctx) => Ok(DCtx { ctx, log: Ghost(EngineLog::fresh()) }),
            None => Err("could not allocate ZSTD_DCtx instance"),
        }
    }

    /// The context of `zstd_safe` that this one holds.
    pub closed spec fn context(&self) -> zstd_safe::DStream<'a> {
        self.ctx
    }

    /// The context of `zstd_safe` itself, to look at: the one that this
    /// context holds, and no other.
    pub fn dctx(&self) -> (ctx: &zstd_safe::DStream<'a>)
        ensures
            *ctx == self.context(),
    {
        &self.ctx
    }

    /// The bytes the context holds at the moment.
    pub fn memory_size(&self) -> usize {
        dctx_sizeof(&self.ctx)
    }

    /// Resets the session: a frame that is under way is dropped, the
    /// settings stay. The engine is asked once, and the record has its
    /// answer: the reset where it made it, else the refusal with the code of
    /// its error, which is the error returned.
    pub fn reset_session(&mut self) -> (r: Result<(), usize>)
        ensures
            r is Ok ==> final(self)@ == old(self)@.after_reset(),
            r matches Err(code) ==> final(self)@ == old(self)@.after_refusal(Request::Reset, code),
    {
        let answer = dctx_reset_session(&mut self.ctx);
        proof {
            self.log@ = answered(self.log@, Request::Reset, answer);
        }
        accepted(answer)
    }

    /// Limits the window that a frame may ask for to two to the power of
    /// `log`. The engine is asked once, and the record has its answer: the
    /// setting where it took it, else the refusal with the code of its
    /// error, which is the error returned.
    pub fn set_window_log_max(&mut self, log: u32) -> (r: Result<(), usize>)
        ensures
            r is Ok ==> final(self)@ == old(self)@.after_setting(Setting::WindowLogMax(log)),
            r matches Err(code) ==> final(self)@ == old(self)@.after_refusal(
                Request::Apply(Setting::WindowLogMax(log)),
                code,
            ),
    {
        let answer = dctx_set_window_log_max(&mut self.ctx, log);
        proof {
            self.log@ = answered(self.log@, Request::Apply(Setting::WindowLogMax(log)), answer);
        }
        accepted(answer)
    }

    /// Chooses the frame format. The engine is asked once, and the record
    /// has its answer: the setting where it took it, else the refusal with
    /// the code of its error, which is the error returned.
    pub fn set_format(&mut self, format: FrameFormat) -> (r: Result<(), usize>)
        ensures
            r is Ok ==> final(self)@ == old(self)@.after_setting(Setting::Format(format)),
            r matches Err(code) ==> final(self)@ == old(self)@.after_refusal(
                Request::Apply(Setting::Format(format)),
                code,
            ),
    {
        let answer = dctx_set_format(&mut self.ctx, format);
        proof {
            self.log@ = answered(self.log@, Request::Apply(Setting::Format(format)), answer);
        }
        accepted(answer)
    }

    /// One decompression step that adds to what `dst` holds: the engine reads
    /// `src` from `pos` on and writes to `dst` behind what is there.
    /// Afterwards `dst` holds what it held and what the step wrote, and the
    /// record has the step.
    pub fn step_onto(&mut self, dst: &mut Buffer, src: &[u8], pos: usize) -> (r: StepReport)
        requires
            pos <= src@.len(),
        ensures
            pos <= r.input_pos <= src@.len(),
            r.status is Err ==> r.input_pos == pos && r.output_pos == old(dst)@.len(),
            final(dst)@.len() == r.output_pos,
            final(dst).spec_capacity() == old(dst).spec_capacity(),
            r.output_pos <= old(dst).spec_capacity(),
            old(dst)@.len() <= r.output_pos,
            final(dst)@.take(old(dst)@.len() as int) == old(dst)@,
            final(self)@ == old(self)@.after_call(
                StepRecord {
                    directive: EndDirective::Continue,
                    offered: src@.skip(pos as int),
                    room: (old(dst).spec_capacity() - old(dst)@.len()) as nat,
                    input: src@.subrange(pos as int, r.input_pos as int),
                    output: final(dst)@.skip(old(dst)@.len() as int),
                    status: r.status,
                },
                true,
            ),
    {
        proof {
            use_type_invariant(&*dst);
        }
        let r = dctx_decompress_stream(&mut self.ctx, &mut dst.storage, dst.len, src, pos);
        dst.len = r.output_pos;
        proof {
            assert(dst@.take(old(dst)@.len() as int) =~= old(dst)@) by {
                assert(dst.storage@.take(old(dst).len as int).len() == old(dst).len);
                assert forall|i: int| 0 <= i < old(dst).len implies dst@[i] == old(dst)@[i] by {
                    assert(dst.storage@.take(old(dst).len as int)[i] == old(dst).storage@.take(
                        old(dst).len as int,
                    )[i]);
                }
            }
            self.log@ = self.log@.after_call(
                StepRecord {
                    directive: EndDirective::Continue,
                    offered: src@.skip(pos as int),
                    room: (old(dst).spec_capacity() - old(dst)@.len()) as nat,
                    input: src@.subrange(pos as int, r.input_pos as int),
                    output: dst@.skip(old(dst)@.len() as int),
                    status: r.status,
                },
                true,
            );
        }
        r
    }

    /// Loads a dictionary for the frames to come. The engine is asked once,
    /// and the record has its answer: the setting where it took it, else the
    /// refusal with the code of its error, which is the error returned.
    pub fn load_dictionary(&mut self, dict: &[u8]) -> (r: Result<(), usize>)
        ensures
            r is Ok ==> final(self)@ == old(self)@.after_setting(Setting::Dictionary(dict@)),
            r matches Err(code) ==> final(self)@ == old(self)@.after_refusal(
                Request::Apply(Setting::Dictionary(dict@)),
                code,
            ),
    {
        let answer = dctx_load_dictionary(&mut self.ctx, dict);
        proof {
            self.log@ = answered(self.log@, Request::Apply(Setting::Dictionary(dict@)), answer);
        }
        accepted(answer)
    }
}

impl<'a> Engine for DCtx<'a> {
    open spec fn log(&self) -> EngineLog {
        self@
    }

    open spec fn finishes(&self, directive: EndDirective) -> bool {
        true
    }

    open spec fn spec_stage(&self) -> Stage {
        Stage::Decompress
    }

    fn stage(&self) -> (s: Stage) {
        Stage::Decompress
    }

    /// A decompression step; the directive plays no part in it.
    fn step(&mut self, dst: &mut Buffer, src: &[u8], pos: usize, directive: EndDirective) -> (r:
        StepReport) {
        proof {
            use_type_invariant(&*dst);
        }
        let r = dctx_decompress_stream(&mut self.ctx, &mut dst.storage, 0, src, pos);
        dst.len = r.output_pos;
        proof {
            self.log@ = self.log@.after_call(
                StepRecord {
                    directive,
                    offered: src@.skip(pos as int),
                    room: old(dst).spec_capacity(),
                    input: src@.subrange(pos as int, r.input_pos as int),
                    output: dst@,
                    status: r.status,
                },
                true,
            );
        }
        r
    }
}

/// What the header of `frame` says of the size of its content.
pub fn frame_content_size(frame: &[u8]) -> (r: Result<Option<u64>, ()>)
    ensures
        r == declared_content_size(frame@),
{
    match zstd_safe::get_frame_content_size(frame) {
        Ok(size) => Ok(size),
        Err(_) => {
            proof {
                let unit = declared_content_size(frame@)->Err_0;
                assert(unit == ());
            }
            Err(())
        },
    }
}

/// The name that the engine has for the error `code`.
pub fn error_text(code: usize) -> (text: String)
    ensures
        text@ == error_name(code),
{
    zstd_safe::get_error_name(code).to_owned()
}

/// The input size that the engine recommends for decompression.
pub fn dstream_in_size() -> usize {
    dctx_in_size()
}

/// The output size that the engine recommends for decompression.
pub fn dstream_out_size() -> usize {
    dctx_out_size()
}

} // verus!
