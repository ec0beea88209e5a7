//! The decompressing stream reader: it pulls compressed bytes from a source
//! as it needs them, and gives out what the engine makes of them.

use vstd::prelude::*;
use crate::compression_writer::StreamState;
use crate::decompressor::bytes_of;
use crate::engine::{Buffer, DCtx, EndDirective, EngineLog, StepRecord};
use crate::error::{Stage, StateIssue, ZstdError};
use crate::io::{asked_for, lemma_asked_again, lemma_asked_nothing, Inlet, Source};
use crate::pump::refusals;

verus! {

/// What a reader was made with.
pub struct ReaderConfig {
    /// How many bytes are asked of the source at a time.
    pub read_size: usize,
    /// Whether the reader goes on into the next frame when one is done.
    pub read_across_frames: bool,
    /// Whether closing the reader closes the source.
    pub closefd: bool,
}

/// A reader, as the contracts see it.
pub struct ReaderView {
    pub state: StreamState,
    pub config: ReaderConfig,
    /// The record of the context.
    pub engine: EngineLog,
    /// What the source gave, read by read.
    pub served: Seq<Seq<u8>>,
    /// How often the source was closed.
    pub source_closes: nat,
    /// How often the source answered a call with failure.
    pub source_failures: nat,
    /// How many bytes each read of the source asked for at most.
    pub asked: Seq<usize>,
    /// What was read from the source and not yet taken by the engine.
    pub buffered: Seq<u8>,
    /// Whether the source has given an empty read.
    pub finished_input: bool,
    /// Whether a frame came to its end in a reader that stops there.
    pub finished_output: bool,
    /// The number of bytes given out.
    pub tell: nat,
}

/// What `read` of up to `size` bytes left of a reader that was open and had
/// something to do, where `r` is what came of it. The engine took what the
/// source gave, in order, from where it had stopped, and each read of the
/// source asked for as many bytes as the reader was made to ask for. The
/// record of the engine is the one before after the steps of this read and
/// nothing else: no step follows one that failed, and each step was offered
/// the room that was left of `size`. The input is at its end when, and only
/// when, the source has given an empty chunk, and that chunk is the last that
/// was read. The source was asked only when all that it had given before was
/// taken, so what is buffered lies in the last chunk read. In a reader that does not read across frames no step follows
/// one that reported the end of a frame, and such a step is the end of the
/// output. On success there was a step, the result is what the engine gave
/// in this call, and it is shorter than `size` only where the last step left
/// room unused, at the end of the input, or of a frame in a reader that
/// stops there.
pub open spec fn read_by(before: ReaderView, after: ReaderView, size: usize, r: Result<Seq<u8>, ZstdError>) -> bool {
    let gave = after.engine.produced_since(before.engine);
    let steps = after.engine.steps_since(before.engine);
    &&& after.engine.stepped(before.engine, steps)
    &&& after.engine == before.engine.replayed(steps, true)
    &&& forall|i: int|
        0 <= i < steps.len() ==> (#[trigger] steps[i]).directive == EndDirective::Continue
    &&& !before.config.read_across_frames ==> forall|i: int|
        0 <= i < steps.len() - 1 ==> (#[trigger] steps[i]).status != Ok::<usize, usize>(0)
    &&& after.finished_output == (!before.config.read_across_frames && steps.len() > 0
        && steps.last().status == Ok::<usize, usize>(0))
    &&& asked_for(
        before.asked,
        after.asked,
        (after.served.len() - before.served.len() + refusals(r.err())) as nat,
        Some(before.config.read_size),
    )
    &&& after.state == before.state
    &&& after.config == before.config
    &&& after.source_closes == before.source_closes
    &&& after.source_failures == before.source_failures + refusals(r.err())
    &&& after.engine.continues(before.engine)
    &&& after.engine.resets == before.engine.resets
    &&& after.engine.settings == before.engine.settings
    &&& after.engine.refused == before.engine.refused
    &&& before.served.len() <= after.served.len()
    &&& after.served.take(before.served.len() as int) == before.served
    &&& before.finished_input ==> after.finished_input && after.served == before.served
    &&& after.finished_input == (before.finished_input || (after.served.len()
        > before.served.len() && after.served.last().len() == 0))
    &&& forall|i: int|
        before.served.len() <= i < after.served.len() - 1 ==> (#[trigger] after.served[i]).len()
            > 0
    &&& after.served.len() > before.served.len() ==> after.buffered.len()
        <= after.served.last().len()
    &&& forall|i: int| 0 <= i < steps.len() - 1 ==> (#[trigger] steps[i]).status is Ok
    &&& steps.len() > 0 ==> steps.last().room + gave.len() == size + steps.last().output.len()
    &&& match r {
        Ok(out) => {
            &&& out == gave
            &&& out.len() <= size
            &&& after.tell == before.tell + out.len()
            &&& steps.len() > 0
            &&& steps.last().status is Ok
            &&& out.len() < size ==> steps.last().output.len() < steps.last().room
            &&& out.len() < size ==> after.finished_input || after.finished_output
            &&& after.finished_output ==> !before.config.read_across_frames
                && after.engine.last_status == Some(Ok::<usize, usize>(0))
        },
        Err(ZstdError::Codec { stage, code, frame }) => {
            &&& stage == Stage::Decompress
            &&& frame is None
            &&& after.engine.last_status == Some(Err::<usize, usize>(code))
        },
        Err(ZstdError::OutOfMemory) => after == before,
        Err(ZstdError::NoProgress) => {
            &&& after.engine.steps > before.engine.steps
            &&& after.engine.last_status matches Some(Ok(_))
            &&& after.engine.last_input.len() == 0
            &&& after.engine.last_output.len() == 0
            &&& after.buffered.len() > 0
        },
        Err(ZstdError::CounterOverflow) => {
            ||| before.tell + gave.len() > usize::MAX
            ||| after.served.flatten().len() > usize::MAX
        },
        Err(ZstdError::Io(_)) => true,
        Err(_) => false,
    }
}

/// The steps since `before` are the steps that were added to its trace.
proof fn lemma_steps(before: EngineLog, now: EngineLog, steps: Seq<StepRecord>)
    requires
        now.trace == before.trace + steps,
        now.steps == before.steps + steps.len(),
    ensures
        now.steps_since(before) == steps,
        now.stepped(before, steps),
{
    assert(now.steps_since(before) =~= steps);
}

/// Since a record there were no steps.
proof fn lemma_no_steps(log: EngineLog)
    ensures
        log.steps_since(log) == Seq::<StepRecord>::empty(),
        log.stepped(log, log.steps_since(log)),
        log == log.replayed(log.steps_since(log), true),
{
    assert(log.steps_since(log) =~= Seq::<StepRecord>::empty());
    assert(log.trace + Seq::<StepRecord>::empty() =~= log.trace);
}

/// A read-only, forward-only stream that gives out the content of the frames
/// that a source holds.
pub struct ZstdDecompressionReader<R: Source> {
    dctx: DCtx<'static>,
    source: Inlet<R>,
    read_size: usize,
    read_across_frames: bool,
    closefd: bool,
    state: StreamState,
    input: Vec<u8>,
    input_pos: usize,
    finished_input: bool,
    finished_output: bool,
    bytes_read: usize,
    bytes_decompressed: usize,
    base: Ghost<Seq<u8>>,
}

impl<R: Source> View for ZstdDecompressionReader<R> {
    type V = ReaderView;

    closed spec fn view(&self) -> ReaderView {
        ReaderView {
            state: self.state,
            config: ReaderConfig {
                read_size: self.read_size,
                read_across_frames: self.read_across_frames,
                closefd: self.closefd,
            },
            engine: self.dctx@,
            served: self.source@,
            source_closes: self.source.closes(),
            source_failures: self.source.failures(),
            asked: self.source.asked(),
            buffered: if self.input_pos <= self.input@.len() {
                self.input@.skip(self.input_pos as int)
            } else {
                Seq::empty()
            },
            finished_input: self.finished_input,
            finished_output: self.finished_output,
            tell: self.bytes_decompressed as nat,
        }
    }
}

impl<R: Source> ZstdDecompressionReader<R> {
    /// The invariant of a reader between calls: its books are right, and no
    /// `close` is under way.
    pub open spec fn wf(&self) -> bool {
        &&& self.inv()
        &&& self@.state != StreamState::Closing
    }

    /// The books of a reader are right: all that the source gave has gone to
    /// the engine, in order, but for what is buffered, and the count of the
    /// bytes read is their number, as far as it can be counted.
    pub closed spec fn inv(&self) -> bool {
        &&& self.input_pos <= self.input@.len()
        &&& self.base@ + self.source@.flatten() == self.dctx@.consumed + self.input@.skip(
            self.input_pos as int,
        )
        &&& self.bytes_read == if self.source@.flatten().len() <= usize::MAX {
            self.source@.flatten().len()
        } else {
            usize::MAX as nat
        }
    }

    /// What the engine had taken before the reader got it.
    pub closed spec fn base(&self) -> Seq<u8> {
        self.base@
    }

    /// The source as it stands.
    pub closed spec fn source(&self) -> R {
        self.source.source()
    }

    /// A reader on `source`, around a context that is set up.
    pub fn new(
        dctx: DCtx<'static>,
        source: R,
        read_size: usize,
        read_across_frames: bool,
        closefd: bool,
    ) -> (reader: Self)
        ensures
            reader.wf(),
            reader@ == (ReaderView {
                state: StreamState::Fresh,
                config: ReaderConfig { read_size, read_across_frames, closefd },
                engine: dctx@,
                served: Seq::empty(),
                source_closes: 0,
                source_failures: 0,
                asked: Seq::empty(),
                buffered: Seq::empty(),
                finished_input: false,
                finished_output: false,
                tell: 0,
            }),
            reader.base() == dctx@.consumed,
            reader.source() == source,
    {
        let ghost base = dctx@.consumed;
        let reader = ZstdDecompressionReader {
            dctx,
            source: Inlet::new(source),
            read_size,
            read_across_frames,
            closefd,
            state: StreamState::Fresh,
            input: Vec::new(),
            input_pos: 0,
            finished_input: false,
            finished_output: false,
            bytes_read: 0,
            bytes_decompressed: 0,
            base: Ghost(base),
        };
        proof {
            reveal_with_fuel(Seq::flatten, 1);
            assert(reader.input@.skip(0) =~= Seq::<u8>::empty());
            assert(base + reader.source@.flatten() =~= reader.dctx@.consumed
                + reader.input@.skip(0));
        }
        reader
    }

    /// Enters the reader's scope: once, and not after `close`.
    pub fn enter(&mut self) -> (r: Result<(), ZstdError>)
        requires
            old(self).wf(),
        ensures
            final(self).wf(),
            old(self)@.state == StreamState::Closed ==> r == Err::<(), ZstdError>(
                ZstdError::State(StateIssue::Closed),
            ) && *final(self) == *old(self),
            old(self)@.state == StreamState::Entered ==> r == Err::<(), ZstdError>(
                ZstdError::State(StateIssue::AlreadyEntered),
            ) && *final(self) == *old(self),
            old(self)@.state == StreamState::Fresh ==> r == Ok::<(), ZstdError>(())
                && final(self)@ == (ReaderView { state: StreamState::Entered, ..old(self)@ }),
    {
        match self.state {
            StreamState::Closed => Err(ZstdError::State(StateIssue::Closed)),
            StreamState::Entered => Err(ZstdError::State(StateIssue::AlreadyEntered)),
            _ => {
                self.state = StreamState::Entered;
                Ok(())
            },
        }
    }

    /// Leaves the reader's scope: closes the reader. `Ok(false)` says that an
    /// error of the caller's, if there was one, is not taken off his hands.
    pub fn exit(&mut self) -> (r: Result<bool, ZstdError>)
        requires
            old(self).wf(),
        ensures
            final(self).wf(),
            final(self)@.state == StreamState::Closed,
            r matches Ok(swallow) ==> !swallow,
            r is Ok || r matches Err(ZstdError::Io(_)),
            old(self)@.state == StreamState::Closed ==> r == Ok::<bool, ZstdError>(false)
                && *final(self) == *old(self),
            old(self)@.state != StreamState::Closed ==> final(self)@ == (ReaderView {
                state: StreamState::Closed,
                source_closes: old(self)@.source_closes + if r is Ok && old(self)@.config.closefd {
                    1nat
                } else {
                    0nat
                },
                source_failures: old(self)@.source_failures + if r is Err {
                    1nat
                } else {
                    0nat
                },
                ..old(self)@
            }),
    {
        match self.close() {
            Ok(()) => Ok(false),
            Err(e) => Err(e),
        }
    }

    /// Closes the reader, and closes the source if the reader was made to.
    /// The reader is closed afterwards whatever happened. On a closed reader
    /// it does nothing.
    pub fn close(&mut self) -> (r: Result<(), ZstdError>)
        requires
            old(self).wf(),
        ensures
            final(self).wf(),
            final(self)@.state == StreamState::Closed,
            r is Ok || r matches Err(ZstdError::Io(_)),
            old(self)@.state == StreamState::Closed ==> r == Ok::<(), ZstdError>(())
                && *final(self) == *old(self),
            old(self)@.state != StreamState::Closed ==> final(self)@ == (ReaderView {
                state: StreamState::Closed,
                source_closes: old(self)@.source_closes + if r is Ok && old(self)@.config.closefd {
                    1nat
                } else {
                    0nat
                },
                source_failures: old(self)@.source_failures + if r is Err {
                    1nat
                } else {
                    0nat
                },
                ..old(self)@
            }),
    {
        if self.closed() {
            return Ok(());
        }
        self.state = StreamState::Closed;
        if self.closefd {
            match self.source.close() {
                Ok(()) => {},
                Err(e) => {
                    return Err(ZstdError::Io(e));
                },
            }
        }
        Ok(())
    }

    /// Reads up to `size` decompressed bytes. The reader asks the source for
    /// more whenever the engine has taken all that was read, and stops when
    /// it has `size` bytes, when the source has no more, or at the end of a
    /// frame, unless it was made to read across frames; after such an end
    /// every read is empty. On a closed reader it fails and does nothing.
    #[verifier::rlimit(60)]
    pub fn read(&mut self, size: usize) -> (r: Result<Vec<u8>, ZstdError>)
        requires
            old(self).wf(),
        ensures
            final(self).wf(),
            final(self).base() == old(self).base(),
            old(self)@.state == StreamState::Closed ==> r == Err::<Vec<u8>, ZstdError>(
                ZstdError::State(StateIssue::Closed),
            ) && *final(self) == *old(self),
            old(self)@.state != StreamState::Closed && (old(self)@.finished_output || size == 0)
                ==> (r matches Ok(out) && out@.len() == 0) && *final(self) == *old(self),
            old(self)@.state != StreamState::Closed && !old(self)@.finished_output && size > 0
                ==> read_by(old(self)@, final(self)@, size, bytes_of(r)),
    {
        if self.closed() {
            return Err(ZstdError::State(StateIssue::Closed));
        }
        if self.finished_output || size == 0 {
            return Ok(Vec::new());
        }
        let mut out = match Buffer::try_with_capacity(size) {
            Some(out) => out,
            None => {
                proof {
                    self@.engine.lemma_continues_itself();
                    assert(self@.served.take(self@.served.len() as int) =~= self@.served);
                    lemma_asked_nothing(self@.asked, Some(self.read_size));
                    lemma_no_steps(self@.engine);
                }
                return Err(ZstdError::OutOfMemory);
            },
        };
        let ghost before = self@;
        let ghost mut steps: Seq<StepRecord> = Seq::empty();
        let mut done = false;
        proof {
            before.engine.lemma_continues_itself();
            assert(before.engine.produced + out@ =~= before.engine.produced);
            assert(self.source@.take(before.served.len() as int) =~= before.served);
            lemma_asked_nothing(before.asked, Some(self.read_size));
            lemma_no_steps(before.engine);
        }
        while !done
            invariant
                before == old(self)@,
                before.state != StreamState::Closed,
                !before.finished_output,
                size > 0,
                self.base@ == old(self).base@,
                self.input_pos <= self.input@.len(),
                self.base@ + self.source@.flatten() == self.dctx@.consumed + self.input@.skip(
                    self.input_pos as int,
                ),
                self.bytes_read == if self.source@.flatten().len() <= usize::MAX {
                    self.source@.flatten().len()
                } else {
                    usize::MAX as nat
                },
                self.state == before.state,
                self.state != StreamState::Closing,
                self@.config == before.config,
                self.source.closes() == before.source_closes,
                self.source.failures() == before.source_failures,
                self.bytes_decompressed == before.tell,
                out.spec_capacity() == size,
                out@.len() <= size,
                self.dctx@.continues(before.engine),
                self.dctx@.produced == before.engine.produced + out@,
                self.dctx@.resets == before.engine.resets,
                self.dctx@.settings == before.engine.settings,
                self.dctx@.refused == before.engine.refused,
                before.served.len() <= self.source@.len(),
                self.source@.take(before.served.len() as int) == before.served,
                before.finished_input ==> self.finished_input && self.source@ == before.served,
                self.finished_input == (before.finished_input || (self.source@.len()
                    > before.served.len() && self.source@.last().len() == 0)),
                forall|i: int|
                    before.served.len() <= i < self.source@.len() - (if self.finished_input
                        && !before.finished_input {
                        1int
                    } else {
                        0int
                    }) ==> (#[trigger] self.source@[i]).len() > 0,
                self.source@.len() > before.served.len() ==> self.input@.len() - self.input_pos
                    <= self.source@.last().len(),
                forall|i: int| 0 <= i < steps.len() ==> (#[trigger] steps[i]).status is Ok,
                steps.len() > 0 ==> steps.last().room + out@.len() == size
                    + steps.last().output.len(),
                done ==> steps.len() > 0,
                done ==> out@.len() == size || self.finished_input || self.finished_output,
                self.finished_output ==> done && !self.read_across_frames
                    && self.dctx@.last_status == Some(Ok::<usize, usize>(0)),
                self.dctx@.trace == before.engine.trace + steps,
                self.dctx@.steps == before.engine.steps + steps.len(),
                self.dctx@ == before.engine.replayed(steps, true),
                forall|i: int|
                    0 <= i < steps.len() ==> (#[trigger] steps[i]).directive
                        == EndDirective::Continue,
                !self.read_across_frames ==> forall|i: int|
                    0 <= i < steps.len() - (if done { 1int } else { 0int }) ==> (
                    #[trigger] steps[i]).status != Ok::<usize, usize>(0),
                self.finished_output == (!self.read_across_frames && steps.len() > 0
                    && steps.last().status == Ok::<usize, usize>(0)),
                asked_for(
                    before.asked,
                    self.source.asked(),
                    (self.source@.len() - before.served.len()) as nat,
                    Some(self.read_size),
                ),
            decreases
                    usize::MAX - self.bytes_read,
                    (self.input@.len() - self.input_pos) + (size - out@.len()) + (if done {
                        0int
                    } else {
                        1int
                    }),
        {
            let mut refilled = false;
            if self.input_pos >= self.input.len() && !self.finished_input {
                let ghost served = self.source@;
                let ghost asked = self.source.asked();
                let got = self.source.read(self.read_size);
                proof {
                    lemma_asked_again(
                        before.asked,
                        asked,
                        (served.len() - before.served.len()) as nat,
                        self.read_size,
                        Some(self.read_size),
                    );
                    lemma_steps(before.engine, self.dctx@, steps);
                }
                let chunk = match got {
                    Ok(chunk) => chunk,
                    Err(e) => {
                        proof {
                            assert(self.dctx@.produced_since(before.engine) =~= out@);
                        }
                        return Err(ZstdError::Io(e));
                    },
                };
                proof {
                    served.lemma_flatten_push(chunk@);
                    assert(self.source@.take(before.served.len() as int) =~= served.take(
                        before.served.len() as int,
                    ));
                    assert(self.input@.skip(self.input_pos as int) =~= Seq::<u8>::empty());
                    assert(chunk@.skip(0) =~= chunk@);
                    assert(self.base@ + (served.flatten() + chunk@) =~= self.dctx@.consumed
                        + chunk@);
                }
                if chunk.len() == 0 {
                    self.finished_input = true;
                    proof {
                        assert(self.dctx@.consumed + self.input@.skip(self.input_pos as int)
                            =~= self.dctx@.consumed + chunk@);
                    }
                } else {
                    let total = self.bytes_read.checked_add(chunk.len());
                    self.input = chunk;
                    self.input_pos = 0;
                    match total {
                        Some(total) => {
                            self.bytes_read = total;
                        },
                        None => {
                            self.bytes_read = usize::MAX;
                            proof {
                                assert(self.dctx@.produced_since(before.engine) =~= out@);
                                lemma_steps(before.engine, self.dctx@, steps);
                            }
                            return Err(ZstdError::CounterOverflow);
                        },
                    }
                    refilled = true;
                }
            }
            let ghost entry = self.dctx@;
            let ghost held = out@;
            let from = self.input_pos;
            let had = out.len();
            let report = self.dctx.step_onto(&mut out, self.input.as_slice(), from);
            self.input_pos = report.input_pos;
            proof {
                let took = self.input@.subrange(from as int, report.input_pos as int);
                let gave = out@.skip(held.len() as int);
                let step = self.dctx@.trace.last();
                before.engine.lemma_replayed_push(steps, step, true);
                assert(before.engine.trace + steps.push(step) =~= (before.engine.trace
                    + steps).push(step));
                steps = steps.push(step);
                lemma_steps(before.engine, self.dctx@, steps);
                entry.lemma_step_continues(before.engine, self.dctx@.trace.last(), true);
                assert(held + gave =~= out@);
                assert(before.engine.produced + held + gave =~= before.engine.produced + out@);
                assert(entry.consumed + self.input@.skip(from as int) =~= entry.consumed + took
                    + self.input@.skip(report.input_pos as int));
                assert(self.dctx@.produced_since(before.engine) =~= out@);
            }
            let hint = match report.status {
                Ok(hint) => hint,
                Err(code) => {
                    return Err(ZstdError::Codec { stage: Stage::Decompress, code, frame: None });
                },
            };
            if hint == 0 && !self.read_across_frames {
                self.finished_output = true;
                done = true;
            } else if out.len() == size {
                done = true;
            } else if self.finished_input {
                done = true;
            } else if report.input_pos == from && out.len() == had && !refilled {
                return Err(ZstdError::NoProgress);
            }
        }
        proof {
            assert(self.dctx@.produced_since(before.engine) =~= out@);
            lemma_steps(before.engine, self.dctx@, steps);
        }
        self.bytes_decompressed = match self.bytes_decompressed.checked_add(out.len()) {
            Some(total) => total,
            None => {
                return Err(ZstdError::CounterOverflow);
            },
        };
        Ok(out.into_vec())
    }

    /// Whether the reader is closed.
    pub fn closed(&self) -> (c: bool)
        ensures
            c == (self@.state == StreamState::Closed),
    {
        match self.state {
            StreamState::Closed => true,
            _ => false,
        }
    }

    /// The number of decompressed bytes given out.
    pub fn tell(&self) -> (n: usize)
        ensures
            n == self@.tell,
    {
        self.bytes_decompressed
    }

    /// A reader can be read from.
    pub fn readable(&self) -> (b: bool)
        ensures
            b,
    {
        true
    }

    /// A reader cannot be written to.
    pub fn writable(&self) -> (b: bool)
        ensures
            !b,
    {
        false
    }

    /// A reader cannot seek.
    pub fn seekable(&self) -> (b: bool)
        ensures
            !b,
    {
        false
    }

    /// Not supported, in any state.
    pub fn write(&self, data: &[u8]) -> (r: Result<usize, ZstdError>)
        ensures
            r == Err::<usize, ZstdError>(ZstdError::UnsupportedOperation),
    {
        Err(ZstdError::UnsupportedOperation)
    }

    /// The bytes the context holds at the moment.
    pub fn memory_size(&self) -> usize {
        self.dctx.memory_size()
    }

    /// The source, to look at.
    pub fn get_ref(&self) -> (s: &R)
        ensures
            *s == self.source(),
    {
        self.source.get_ref()
    }

    /// The context and the source, out of the reader.
    pub fn into_parts(self) -> (parts: (DCtx<'static>, R))
        ensures
            parts.0@ == self@.engine,
            parts.1 == self.source(),
    {
        (self.dctx, self.source.into_inner())
    }
}

} // verus!
