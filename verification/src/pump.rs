//! The pump: the loop that steps an engine and passes what each step gives
//! on to a sink at once, as one chunk.

use vstd::prelude::*;
use crate::engine::{Buffer, EndDirective, Engine, EngineLog, StepRecord};
use crate::error::{Stage, ZstdError};
use crate::io::{Outlet, OutletLog, Sink};

verus! {

/// What the pump works on, as the contracts see it.
pub struct Flow {
    /// The record of the engine.
    pub engine: EngineLog,
    /// The record of the sink.
    pub sink: OutletLog,
    /// What the latest step gave and the sink has not got.
    pub pending: Seq<u8>,
    /// The running count of the bytes passed on.
    pub count: nat,
}

/// What the steps `steps` gave, step by step, but for the steps that gave
/// nothing.
pub open spec fn passed_on(steps: Seq<StepRecord>) -> Seq<Seq<u8>>
    decreases steps.len(),
{
    if steps.len() == 0 {
        Seq::empty()
    } else if steps.last().output.len() > 0 {
        passed_on(steps.drop_last()).push(steps.last().output)
    } else {
        passed_on(steps.drop_last())
    }
}

/// What one more step adds to what the steps before it gave.
pub proof fn lemma_passed_on_push(steps: Seq<StepRecord>, step: StepRecord)
    ensures
        passed_on(steps.push(step)) == if step.output.len() > 0 {
            passed_on(steps).push(step.output)
        } else {
            passed_on(steps)
        },
{
    assert(steps.push(step).drop_last() =~= steps);
}

/// What the steps between `before` and `after` did with the output of the
/// engine. Every step was offered room for `capacity` bytes. Where there was
/// no step, nothing was passed on. Where there was one, what each step gave
/// went to the sink as one chunk, in the order of the steps, but for what the
/// latest step gave where that is still pending; so no chunk is empty, and
/// none is longer than `capacity`. The count went up by what was passed on.
/// The engine was neither reset nor set to anything, and it refused nothing.
pub open spec fn pumped(before: Flow, after: Flow, capacity: nat) -> bool {
    let chunks = after.sink.chunks_since(before.sink);
    let steps = after.engine.steps_since(before.engine);
    &&& after.engine.stepped(before.engine, steps)
    &&& forall|i: int| 0 <= i < steps.len() ==> (#[trigger] steps[i]).room == capacity
    &&& after.engine.continues(before.engine)
    &&& after.engine.resets == before.engine.resets
    &&& after.engine.settings == before.engine.settings
    &&& after.engine.refused == before.engine.refused
    &&& after.engine.steps_since_reset - before.engine.steps_since_reset == after.engine.steps
        - before.engine.steps
    &&& after.sink.continues(before.sink)
    &&& if after.engine.steps == before.engine.steps {
        &&& after.engine == before.engine
        &&& after.pending == before.pending
        &&& chunks.len() == 0
    } else {
        &&& after.engine.produced_since(before.engine) == chunks.flatten() + after.pending
        &&& passed_on(steps) == if after.pending.len() == 0 {
            chunks
        } else {
            chunks.push(after.pending)
        }
    }
    &&& forall|i: int| 0 <= i < chunks.len() ==> 0 < (#[trigger] chunks[i]).len() <= capacity
    &&& after.count == before.count + chunks.flatten().len()
}

/// Whether `steps` were offered `data` in turn: the first all of it, and each
/// other step what the one before it left.
pub open spec fn offered_in_turn(steps: Seq<StepRecord>, data: Seq<u8>) -> bool {
    &&& steps.len() > 0 ==> steps[0].offered == data
    &&& forall|i: int, j: int|
        0 <= i && j == i + 1 && j < steps.len() ==> (#[trigger] steps[j]).offered == (
        #[trigger] steps[i]).offered.skip(steps[i].input.len() as int)
}

/// How many calls the sink answered with failure in a pump that ended with
/// `error`: one where the failure is the sink's, else none.
pub open spec fn refusals(error: Option<ZstdError>) -> nat {
    if error matches Some(ZstdError::Io(_)) {
        1
    } else {
        0
    }
}

/// What a pump that was stopped by the failure `e` left: there was a step,
/// and the latest step is the one that stopped it. The engine reported the
/// error; or it neither gave nor had done; or it gave a chunk that is still
/// pending, because the count has no room for it or because the sink refused it.
pub open spec fn stopped(after: Flow, stage: Stage, e: ZstdError) -> bool {
    match e {
        ZstdError::Codec { stage: at, code, frame } => {
            &&& at == stage
            &&& frame is None
            &&& after.engine.last_status == Some(Err::<usize, usize>(code))
        },
        ZstdError::NoProgress => {
            &&& after.engine.last_status matches Some(Ok(_))
            &&& after.engine.last_output.len() == 0
        },
        ZstdError::CounterOverflow => {
            &&& after.engine.last_status matches Some(Ok(_))
            &&& after.pending == after.engine.last_output
            &&& after.pending.len() > 0
            &&& after.count + after.pending.len() > usize::MAX
        },
        ZstdError::Io(_) => {
            &&& after.engine.last_status matches Some(Ok(_))
            &&& after.pending == after.engine.last_output
            &&& after.pending.len() > 0
            &&& after.count + after.pending.len() <= usize::MAX
        },
        _ => false,
    }
}

/// What feeding `data` to the engine left, where `error` is the failure that
/// ended it, if one did: the record is the one before after the steps and
/// nothing else; every step was told to go on, and was offered what was left
/// of `data`; the engine took a prefix of `data`, and all of it on success;
/// steps that finish no frame (`finishes` is false) finished none; with no
/// data nothing was done. No step follows one that failed. A failure came of
/// the latest step, and `NoProgress` of one that took nothing while data was
/// left.
pub open spec fn fed(
    before: Flow,
    after: Flow,
    data: Seq<u8>,
    stage: Stage,
    finishes: bool,
    error: Option<ZstdError>,
) -> bool {
    let took = after.engine.consumed_since(before.engine);
    let steps = after.engine.steps_since(before.engine);
    &&& after.engine == before.engine.replayed(steps, finishes)
    &&& forall|i: int|
        0 <= i < steps.len() ==> (#[trigger] steps[i]).directive == EndDirective::Continue
    &&& forall|i: int| 0 <= i < steps.len() - 1 ==> (#[trigger] steps[i]).status is Ok
    &&& offered_in_turn(steps, data)
    &&& took.len() <= data.len()
    &&& took == data.take(took.len() as int)
    &&& !finishes ==> after.engine.frames == before.engine.frames
    &&& data.len() == 0 ==> error is None && after == before
    &&& match error {
        None => {
            &&& took == data
            &&& data.len() > 0 ==> after.pending == Seq::<u8>::empty()
                && after.engine.last_status matches Some(Ok(_))
        },
        Some(e) => {
            &&& after.engine.steps > before.engine.steps
            &&& stopped(after, stage, e)
            &&& e == ZstdError::NoProgress ==> after.engine.last_input.len() == 0 && took.len()
                < data.len()
        },
    }
}

/// What flushing the engine with `directive` left, where `error` is the
/// failure that ended it, if one did: the record is the one before after the
/// steps and nothing else; every step was handed `directive` and no input;
/// no step follows one that failed, or one that reported that nothing is
/// left; there was a step; nothing was taken; on success nothing is
/// pending, the engine reported that nothing is left, and exactly one frame
/// was finished if such a report finishes one (`finishes`). A failure came of
/// the latest step, and `NoProgress` of one that gave nothing while the
/// engine held something back.
pub open spec fn drained(
    before: Flow,
    after: Flow,
    stage: Stage,
    directive: EndDirective,
    finishes: bool,
    error: Option<ZstdError>,
) -> bool {
    let steps = after.engine.steps_since(before.engine);
    &&& after.engine == before.engine.replayed(steps, finishes)
    &&& forall|i: int|
        0 <= i < steps.len() ==> (#[trigger] steps[i]).directive == directive
            && steps[i].offered.len() == 0
    &&& forall|i: int|
        0 <= i < steps.len() - 1 ==> (#[trigger] steps[i]).status is Ok && steps[i].status
            != Ok::<usize, usize>(0)
    &&& after.engine.steps > before.engine.steps
    &&& after.engine.consumed_since(before.engine) == Seq::<u8>::empty()
    &&& after.engine.frames <= before.engine.frames + 1
    &&& match error {
        None => {
            &&& after.pending == Seq::<u8>::empty()
            &&& after.engine.last_status == Some(Ok::<usize, usize>(0))
            &&& after.engine.frames == before.engine.frames + if finishes {
                1nat
            } else {
                0nat
            }
        },
        Some(e) => {
            &&& stopped(after, stage, e)
            &&& (e matches ZstdError::Codec { .. }) || e == ZstdError::NoProgress
                ==> after.engine.frames == before.engine.frames
            &&& e == ZstdError::NoProgress ==> after.engine.last_status != Some(
                Ok::<usize, usize>(0),
            )
        },
    }
}

/// From the parts of the two records to `pumped`, and to what was taken and
/// passed on since `before`.
pub proof fn lemma_pumped(
    before: Flow,
    after: Flow,
    capacity: nat,
    chunks: Seq<Seq<u8>>,
    took: Seq<u8>,
    steps: Seq<StepRecord>,
)
    requires
        after.engine.trace == before.engine.trace + steps,
        after.engine.steps == before.engine.steps + steps.len(),
        forall|i: int| 0 <= i < steps.len() ==> (#[trigger] steps[i]).room == capacity,
        passed_on(steps) == if after.pending.len() == 0 {
            chunks
        } else {
            chunks.push(after.pending)
        },
        after.engine.consumed == before.engine.consumed + took,
        after.engine.produced == before.engine.produced + chunks.flatten() + after.pending,
        after.engine.steps > before.engine.steps,
        after.engine.steps_since_reset - before.engine.steps_since_reset == after.engine.steps
            - before.engine.steps,
        after.engine.frames >= before.engine.frames,
        after.engine.resets == before.engine.resets,
        after.engine.settings == before.engine.settings,
        after.engine.refused == before.engine.refused,
        after.sink.chunks == before.sink.chunks + chunks,
        after.sink.flushes >= before.sink.flushes,
        after.sink.closes >= before.sink.closes,
        after.sink.failures >= before.sink.failures,
        forall|i: int| 0 <= i < chunks.len() ==> 0 < (#[trigger] chunks[i]).len() <= capacity,
        after.count == before.count + chunks.flatten().len(),
    ensures
        pumped(before, after, capacity),
        after.sink.chunks_since(before.sink) == chunks,
        after.engine.steps_since(before.engine) == steps,
        after.engine.consumed_since(before.engine) == took,
        after.engine.produced_since(before.engine) == chunks.flatten() + after.pending,
{
    assert(after.engine.steps_since(before.engine) =~= steps);
    assert(after.sink.chunks_since(before.sink) =~= chunks);
    assert(after.sink.chunks.take(before.sink.chunks.len() as int) =~= before.sink.chunks);
    assert(after.engine.consumed_since(before.engine) =~= took);
    assert(after.engine.consumed.take(before.engine.consumed.len() as int)
        =~= before.engine.consumed);
    assert(after.engine.produced_since(before.engine) =~= chunks.flatten() + after.pending);
    assert(after.engine.produced.take(before.engine.produced.len() as int)
        =~= before.engine.produced);
}

/// Between a flow and itself nothing was pumped.
pub proof fn lemma_pumped_nothing(flow: Flow, capacity: nat)
    ensures
        pumped(flow, flow, capacity),
        flow.sink.chunks_since(flow.sink) == Seq::<Seq<u8>>::empty(),
        flow.engine.steps_since(flow.engine) == Seq::<StepRecord>::empty(),
        flow.engine.consumed_since(flow.engine) == Seq::<u8>::empty(),
{
    reveal_with_fuel(Seq::flatten, 1);
    assert(flow.engine.steps_since(flow.engine) =~= Seq::<StepRecord>::empty());
    assert(flow.engine.trace + Seq::<StepRecord>::empty() =~= flow.engine.trace);
    assert(flow.sink.chunks_since(flow.sink) =~= Seq::<Seq<u8>>::empty());
    assert(flow.sink.chunks.take(flow.sink.chunks.len() as int) =~= flow.sink.chunks);
    assert(flow.engine.consumed_since(flow.engine) =~= Seq::<u8>::empty());
    assert(flow.engine.consumed.take(flow.engine.consumed.len() as int)
        =~= flow.engine.consumed);
    assert(flow.engine.produced.take(flow.engine.produced.len() as int)
        =~= flow.engine.produced);
}

/// What the sink has got is what it had got before and what was passed on since.
pub proof fn lemma_delivered(before: OutletLog, after: OutletLog)
    requires
        after.continues(before),
    ensures
        after.chunks == before.chunks + after.chunks_since(before),
        after.delivered() == before.delivered() + after.chunks_since(before).flatten(),
{
    assert(after.chunks =~= before.chunks + after.chunks_since(before));
    vstd::seq_lib::lemma_flatten_concat(before.chunks, after.chunks_since(before));
}

/// What the engine has taken and given is what it had before and what came since.
pub proof fn lemma_since(before: EngineLog, after: EngineLog)
    requires
        after.continues(before),
    ensures
        after.consumed == before.consumed + after.consumed_since(before),
        after.produced == before.produced + after.produced_since(before),
{
    assert(after.consumed =~= before.consumed + after.consumed_since(before));
    assert(after.produced =~= before.produced + after.produced_since(before));
}

/// Passes what the buffer holds on to the sink, as one chunk, if the count has
/// room for it.
pub fn forward<W: Sink>(buffer: &mut Buffer, sink: &mut Outlet<W>, count: &mut usize) -> (r: Result<
    (),
    ZstdError,
>)
    ensures
        final(buffer).spec_capacity() == old(buffer).spec_capacity(),
        final(sink).spec_capabilities() == old(sink).spec_capabilities(),
        r is Ok ==> {
            &&& final(sink)@ == (OutletLog { chunks: old(sink)@.chunks.push(old(buffer)@), ..old(sink)@ })
            &&& final(buffer)@ == Seq::<u8>::empty()
            &&& *final(count) == *old(count) + old(buffer)@.len()
        },
        r matches Err(e) ==> {
            &&& final(sink)@ == (OutletLog {
                failures: old(sink)@.failures + refusals(Some(e)),
                ..old(sink)@
            })
            &&& final(buffer)@ == old(buffer)@
            &&& *final(count) == *old(count)
            &&& (e == ZstdError::CounterOverflow || e matches ZstdError::Io(_))
        },
        r == Err::<(), ZstdError>(ZstdError::CounterOverflow) <==> *old(count) + old(buffer)@.len()
            > usize::MAX,
{
    let total = match count.checked_add(buffer.len()) {
        Some(total) => total,
        None => {
            return Err(ZstdError::CounterOverflow);
        },
    };
    match sink.write(buffer.as_slice()) {
        Ok(()) => {},
        Err(e) => {
            return Err(ZstdError::Io(e));
        },
    }
    *count = total;
    buffer.clear();
    Ok(())
}

/// Feeds `data` to the engine, step by step, until the engine has taken all
/// of it, and passes what each step gives on to the sink at once. A step that
/// neither takes nor gives ends the loop with `NoProgress`.
pub fn feed<E: Engine, W: Sink>(
    engine: &mut E,
    buffer: &mut Buffer,
    sink: &mut Outlet<W>,
    count: &mut usize,
    data: &[u8],
) -> (r: Result<(), ZstdError>)
    ensures
        final(buffer).spec_capacity() == old(buffer).spec_capacity(),
        final(sink).spec_capabilities() == old(sink).spec_capabilities(),
        final(sink)@.flushes == old(sink)@.flushes,
        final(sink)@.closes == old(sink)@.closes,
        final(sink)@.close_calls == old(sink)@.close_calls,
        final(sink)@.flush_calls == old(sink)@.flush_calls,
        final(sink)@.failures == old(sink)@.failures + refusals(r.err()),
        final(engine).spec_stage() == old(engine).spec_stage(),
        forall|d: EndDirective| final(engine).finishes(d) == old(engine).finishes(d),
        pumped(
            Flow { engine: old(engine).log(), sink: old(sink)@, pending: old(buffer)@, count: *old(count) as nat },
            Flow { engine: final(engine).log(), sink: final(sink)@, pending: final(buffer)@, count: *final(count) as nat },
            old(buffer).spec_capacity(),
        ),
        fed(
            Flow { engine: old(engine).log(), sink: old(sink)@, pending: old(buffer)@, count: *old(count) as nat },
            Flow { engine: final(engine).log(), sink: final(sink)@, pending: final(buffer)@, count: *final(count) as nat },
            data@,
            old(engine).spec_stage(),
            old(engine).finishes(EndDirective::Continue),
            r.err(),
        ),
        data@.len() == 0 ==> *final(engine) == *old(engine) && *final(sink) == *old(sink)
            && *final(buffer) == *old(buffer),
{
    let ghost before = Flow {
        engine: engine.log(),
        sink: sink@,
        pending: buffer@,
        count: *count as nat,
    };
    let ghost capacity = buffer.spec_capacity();
    let ghost finishes = engine.finishes(EndDirective::Continue);
    let ghost mut chunks: Seq<Seq<u8>> = Seq::empty();
    let ghost mut steps: Seq<StepRecord> = Seq::empty();
    let ghost mut stepped = false;
    let stage = engine.stage();
    let mut pos: usize = 0;
    proof {
        reveal_with_fuel(Seq::flatten, 1);
        assert(before.engine.consumed + data@.take(0) =~= before.engine.consumed);
        assert(before.engine.produced + chunks.flatten() =~= before.engine.produced);
        assert(before.sink.chunks + chunks =~= before.sink.chunks);
        assert(before.engine.trace + steps =~= before.engine.trace);
    }
    while pos < data.len()
        invariant
            before == (Flow {
                engine: old(engine).log(),
                sink: old(sink)@,
                pending: old(buffer)@,
                count: *old(count) as nat,
            }),
            capacity == old(buffer).spec_capacity(),
            buffer.spec_capacity() == capacity,
            sink.spec_capabilities() == old(sink).spec_capabilities(),
            stage == old(engine).spec_stage(),
            engine.spec_stage() == stage,
            forall|d: EndDirective| engine.finishes(d) == old(engine).finishes(d),
            pos <= data@.len(),
            finishes == old(engine).finishes(EndDirective::Continue),
            !stepped ==> *engine == *old(engine) && *sink == *old(sink) && *buffer == *old(buffer)
                && *count == *old(count) && pos == 0 && chunks.len() == 0 && steps.len() == 0,
            stepped ==> buffer@ == Seq::<u8>::empty() && engine.log().steps > before.engine.steps
                && data@.len() > 0 && engine.log().last_status matches Some(Ok(_)),
            stepped ==> steps.len() > 0 && steps.last().offered.skip(
                steps.last().input.len() as int,
            ) == data@.skip(pos as int),
            engine.log().trace == before.engine.trace + steps,
            engine.log().steps == before.engine.steps + steps.len(),
            engine.log() == before.engine.replayed(steps, finishes),
            forall|i: int|
                0 <= i < steps.len() ==> (#[trigger] steps[i]).directive == EndDirective::Continue
                    && steps[i].room == capacity,
            offered_in_turn(steps, data@),
            forall|i: int| 0 <= i < steps.len() ==> (#[trigger] steps[i]).status is Ok,
            passed_on(steps) == chunks,
            engine.log().consumed == before.engine.consumed + data@.take(pos as int),
            engine.log().produced == before.engine.produced + chunks.flatten(),
            engine.log().frames >= before.engine.frames,
            !old(engine).finishes(EndDirective::Continue) ==> engine.log().frames
                == before.engine.frames,
            engine.log().resets == before.engine.resets,
            engine.log().settings == before.engine.settings,
            engine.log().refused == before.engine.refused,
            engine.log().steps_since_reset - before.engine.steps_since_reset == engine.log().steps
                - before.engine.steps,
            sink@ == (OutletLog { chunks: before.sink.chunks + chunks, ..before.sink }),
            forall|i: int| 0 <= i < chunks.len() ==> 0 < (#[trigger] chunks[i]).len() <= capacity,
            *count == before.count + chunks.flatten().len(),
        decreases (data@.len() - pos) + (usize::MAX - *count),
    {
        let ghost entry = engine.log();
        let ghost earlier = steps;
        let r = engine.step(buffer, data, pos, EndDirective::Continue);
        let ghost taken = data@.subrange(pos as int, r.input_pos as int);
        let ghost after = Flow {
            engine: engine.log(),
            sink: sink@,
            pending: buffer@,
            count: *count as nat,
        };
        proof {
            let step = engine.log().trace.last();
            assert(step.offered == data@.skip(pos as int));
            assert(step.input == taken);
            assert(step.offered.skip(step.input.len() as int) =~= data@.skip(r.input_pos as int));
            if !stepped {
                assert(data@.skip(0) =~= data@);
            }
            before.engine.lemma_replayed_push(earlier, step, finishes);
            lemma_passed_on_push(earlier, step);
            steps = earlier.push(step);
            assert(before.engine.trace + steps =~= (before.engine.trace + earlier).push(step));
            assert(offered_in_turn(steps, data@)) by {
                assert forall|i: int, j: int|
                    0 <= i && j == i + 1 && j < steps.len() implies (#[trigger] steps[j]).offered
                    == (#[trigger] steps[i]).offered.skip(steps[i].input.len() as int) by {
                    if j < earlier.len() {
                        assert(steps[j] == earlier[j]);
                        assert(steps[i] == earlier[i]);
                    } else {
                        assert(steps[i] == earlier.last());
                    }
                }
            }
            stepped = true;
            assert(data@.take(pos as int) + taken =~= data@.take(r.input_pos as int));
            assert(entry.consumed + taken =~= before.engine.consumed + data@.take(
                r.input_pos as int,
            ));
            assert(data@.take(r.input_pos as int).take(r.input_pos as int) =~= data@.take(
                r.input_pos as int,
            ));
            lemma_pumped(before, after, capacity, chunks, data@.take(r.input_pos as int), steps);
        }
        match r.status {
            Ok(_) => {},
            Err(code) => {
                return Err(ZstdError::Codec { stage, code, frame: None });
            },
        }
        if r.output_pos > 0 {
            let ghost chunk = buffer@;
            match forward(buffer, sink, count) {
                Ok(()) => {},
                Err(e) => {
                    return Err(e);
                },
            }
            proof {
                chunks.lemma_flatten_push(chunk);
                assert(before.sink.chunks + chunks.push(chunk) =~= (before.sink.chunks
                    + chunks).push(chunk));
                assert(before.engine.produced + chunks.push(chunk).flatten()
                    =~= before.engine.produced + chunks.flatten() + chunk);
                chunks = chunks.push(chunk);
            }
        } else if r.input_pos == pos {
            return Err(ZstdError::NoProgress);
        } else {
            proof {
                assert(buffer@ =~= Seq::<u8>::empty());
                assert(engine.log().produced =~= before.engine.produced + chunks.flatten());
            }
        }
        pos = r.input_pos;
    }
    proof {
        let after = Flow {
            engine: engine.log(),
            sink: sink@,
            pending: buffer@,
            count: *count as nat,
        };
        assert(data@.take(pos as int) =~= data@);
        if stepped {
            assert(after.engine.produced =~= before.engine.produced + chunks.flatten()
                + after.pending);
            lemma_pumped(before, after, capacity, chunks, data@, steps);
        } else {
            lemma_pumped_nothing(before, capacity);
            assert(data@ =~= Seq::<u8>::empty());
        }
    }
    Ok(())
}

/// Steps the engine with no input and `directive` until it reports that
/// nothing is left, and passes what each step gives on to the sink at once.
/// A step that gives nothing while something is left ends the loop with
/// `NoProgress`.
pub fn drain<E: Engine, W: Sink>(
    engine: &mut E,
    buffer: &mut Buffer,
    sink: &mut Outlet<W>,
    count: &mut usize,
    directive: EndDirective,
) -> (r: Result<(), ZstdError>)
    ensures
        final(buffer).spec_capacity() == old(buffer).spec_capacity(),
        final(sink).spec_capabilities() == old(sink).spec_capabilities(),
        final(sink)@.flushes == old(sink)@.flushes,
        final(sink)@.closes == old(sink)@.closes,
        final(sink)@.close_calls == old(sink)@.close_calls,
        final(sink)@.flush_calls == old(sink)@.flush_calls,
        final(sink)@.failures == old(sink)@.failures + refusals(r.err()),
        final(engine).spec_stage() == old(engine).spec_stage(),
        forall|d: EndDirective| final(engine).finishes(d) == old(engine).finishes(d),
        pumped(
            Flow { engine: old(engine).log(), sink: old(sink)@, pending: old(buffer)@, count: *old(count) as nat },
            Flow { engine: final(engine).log(), sink: final(sink)@, pending: final(buffer)@, count: *final(count) as nat },
            old(buffer).spec_capacity(),
        ),
        drained(
            Flow { engine: old(engine).log(), sink: old(sink)@, pending: old(buffer)@, count: *old(count) as nat },
            Flow { engine: final(engine).log(), sink: final(sink)@, pending: final(buffer)@, count: *final(count) as nat },
            old(engine).spec_stage(),
            directive,
            old(engine).finishes(directive),
            r.err(),
        ),
{
    let ghost before = Flow {
        engine: engine.log(),
        sink: sink@,
        pending: buffer@,
        count: *count as nat,
    };
    let ghost capacity = buffer.spec_capacity();
    let ghost finishes = engine.finishes(directive);
    let ghost mut chunks: Seq<Seq<u8>> = Seq::empty();
    let ghost mut steps: Seq<StepRecord> = Seq::empty();
    let ghost mut stepped = false;
    let ghost ends: nat = if engine.finishes(directive) { 1 } else { 0 };
    let stage = engine.stage();
    let nothing: Vec<u8> = Vec::new();
    let mut done = false;
    proof {
        reveal_with_fuel(Seq::flatten, 1);
        assert(before.engine.produced + chunks.flatten() =~= before.engine.produced);
        assert(before.sink.chunks + chunks =~= before.sink.chunks);
        assert(before.engine.trace + steps =~= before.engine.trace);
    }
    while !done
        invariant
            before == (Flow {
                engine: old(engine).log(),
                sink: old(sink)@,
                pending: old(buffer)@,
                count: *old(count) as nat,
            }),
            capacity == old(buffer).spec_capacity(),
            buffer.spec_capacity() == capacity,
            sink.spec_capabilities() == old(sink).spec_capabilities(),
            stage == old(engine).spec_stage(),
            engine.spec_stage() == stage,
            forall|d: EndDirective| engine.finishes(d) == old(engine).finishes(d),
            ends == if old(engine).finishes(directive) { 1nat } else { 0nat },
            nothing@.len() == 0,
            finishes == old(engine).finishes(directive),
            !stepped ==> *engine == *old(engine) && *sink == *old(sink) && *buffer == *old(buffer)
                && *count == *old(count) && chunks.len() == 0 && !done && steps.len() == 0,
            engine.log().trace == before.engine.trace + steps,
            engine.log().steps == before.engine.steps + steps.len(),
            engine.log() == before.engine.replayed(steps, finishes),
            forall|i: int|
                0 <= i < steps.len() ==> (#[trigger] steps[i]).directive == directive
                    && steps[i].offered.len() == 0 && steps[i].room == capacity,
            forall|i: int|
                0 <= i < steps.len() - (if done { 1int } else { 0int }) ==> (
                #[trigger] steps[i]).status is Ok && steps[i].status != Ok::<usize, usize>(0),
            passed_on(steps) == chunks,
            stepped ==> buffer@ == Seq::<u8>::empty() && engine.log().steps > before.engine.steps,
            engine.log().consumed == before.engine.consumed,
            engine.log().produced == before.engine.produced + chunks.flatten(),
            done ==> engine.log().frames == before.engine.frames + ends && engine.log().last_status
                == Some(Ok::<usize, usize>(0)),
            !done ==> engine.log().frames == before.engine.frames,
            engine.log().resets == before.engine.resets,
            engine.log().settings == before.engine.settings,
            engine.log().refused == before.engine.refused,
            engine.log().steps_since_reset - before.engine.steps_since_reset == engine.log().steps
                - before.engine.steps,
            sink@ == (OutletLog { chunks: before.sink.chunks + chunks, ..before.sink }),
            forall|i: int| 0 <= i < chunks.len() ==> 0 < (#[trigger] chunks[i]).len() <= capacity,
            *count == before.count + chunks.flatten().len(),
        decreases (usize::MAX - *count) + (if done { 0int } else { 1int }),
    {
        let ghost entry = engine.log();
        let ghost earlier = steps;
        let r = engine.step(buffer, nothing.as_slice(), 0, directive);
        proof {
            let after = Flow {
                engine: engine.log(),
                sink: sink@,
                pending: buffer@,
                count: *count as nat,
            };
            let step = engine.log().trace.last();
            assert(step.offered == nothing@.skip(0));
            before.engine.lemma_replayed_push(earlier, step, finishes);
            lemma_passed_on_push(earlier, step);
            steps = earlier.push(step);
            assert(before.engine.trace + steps =~= (before.engine.trace + earlier).push(step));
            stepped = true;
            assert(nothing@.subrange(0, r.input_pos as int) =~= Seq::<u8>::empty());
            assert(entry.consumed + Seq::<u8>::empty() =~= before.engine.consumed);
            assert(before.engine.consumed + Seq::<u8>::empty() =~= before.engine.consumed);
            lemma_pumped(before, after, capacity, chunks, Seq::<u8>::empty(), steps);
        }
        let remaining = match r.status {
            Ok(remaining) => remaining,
            Err(code) => {
                return Err(ZstdError::Codec { stage, code, frame: None });
            },
        };
        if r.output_pos > 0 {
            let ghost chunk = buffer@;
            match forward(buffer, sink, count) {
                Ok(()) => {},
                Err(e) => {
                    return Err(e);
                },
            }
            proof {
                chunks.lemma_flatten_push(chunk);
                assert(before.sink.chunks + chunks.push(chunk) =~= (before.sink.chunks
                    + chunks).push(chunk));
                assert(before.engine.produced + chunks.push(chunk).flatten()
                    =~= before.engine.produced + chunks.flatten() + chunk);
                chunks = chunks.push(chunk);
            }
        } else {
            proof {
                assert(buffer@ =~= Seq::<u8>::empty());
                assert(engine.log().produced =~= before.engine.produced + chunks.flatten());
            }
            if remaining != 0 {
                return Err(ZstdError::NoProgress);
            }
        }
        if remaining == 0 {
            done = true;
        }
    }
    proof {
        let after = Flow {
            engine: engine.log(),
            sink: sink@,
            pending: buffer@,
            count: *count as nat,
        };
        assert(after.engine.produced =~= before.engine.produced + chunks.flatten()
            + after.pending);
        lemma_pumped(before, after, capacity, chunks, Seq::<u8>::empty(), steps);
    }
    Ok(())
}

} // verus!
