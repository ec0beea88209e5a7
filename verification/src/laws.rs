//! What holds of the streams whatever the engine does: laws that follow from
//! the contracts, stated over the records that the contracts speak of.

use vstd::prelude::*;
use crate::compression_writer::{
    closed_by, flushed, owns_sink, pump_error, written, StreamState, WriterView,
};
use crate::decompressor::{
    chain_size, chained, configured, copied, is_setup_error, offered_frame, one_shot,
    spec_chain_frame_size, spec_plan_output, spec_verdict, DecompressorView, OutputPlan,
};
use crate::engine::{declared_content_size, EndDirective};
use crate::error::{ConfigurationIssue, InputIssue, Stage, ZstdError};
use crate::io::OutletLog;
use crate::pump::{lemma_delivered, lemma_since, passed_on, refusals};

verus! {

/// Whether `views` can be the states of a writer before, between and after
/// writes that took `pieces`, one each, with success: the writer was open
/// throughout.
pub open spec fn written_in_pieces(views: Seq<WriterView>, pieces: Seq<Seq<u8>>) -> bool {
    &&& views.len() == pieces.len() + 1
    &&& forall|i: int|
        0 <= i < pieces.len() ==> (#[trigger] views[i]).state != StreamState::Closed && exists|
            n: usize,
        |
            written(
                views[i],
                views[i + 1],
                pieces[i],
                Stage::Compress,
                false,
                Ok::<usize, ZstdError>(n),
            )
}

/// What went through a writer between `before` and `after` is one stream in
/// and one stream out: the engine took `taken`, and the sink got all that the
/// engine gave, in the order in which it gave it.
pub open spec fn streamed(before: WriterView, after: WriterView, taken: Seq<u8>) -> bool {
    &&& after.engine.continues(before.engine)
    &&& after.sink.continues(before.sink)
    &&& after.engine.consumed_since(before.engine) == taken
    &&& after.sink.chunks_since(before.sink).flatten() == after.engine.produced_since(
        before.engine,
    )
}

/// Nothing went through a writer between a state and itself.
proof fn lemma_streamed_nothing(v: WriterView)
    ensures
        streamed(v, v, Seq::empty()),
{
    reveal_with_fuel(Seq::flatten, 1);
    v.engine.lemma_continues_itself();
    assert(v.sink.chunks.take(v.sink.chunks.len() as int) =~= v.sink.chunks);
    assert(v.engine.consumed_since(v.engine) =~= Seq::<u8>::empty());
    assert(v.engine.produced_since(v.engine) =~= Seq::<u8>::empty());
    assert(v.sink.chunks_since(v.sink) =~= Seq::<Seq<u8>>::empty());
}

/// What went through in two stretches went through in one.
proof fn lemma_streamed_on(a: WriterView, b: WriterView, c: WriterView, first: Seq<u8>, second: Seq<u8>)
    requires
        streamed(a, b, first),
        streamed(b, c, second),
        b.sink.flushes <= c.sink.flushes,
        b.sink.closes <= c.sink.closes,
    ensures
        streamed(a, c, first + second),
{
    lemma_since(a.engine, b.engine);
    lemma_since(b.engine, c.engine);
    lemma_delivered(a.sink, b.sink);
    lemma_delivered(b.sink, c.sink);
    let ab = b.sink.chunks_since(a.sink);
    let bc = c.sink.chunks_since(b.sink);
    assert(c.engine.consumed.take(a.engine.consumed.len() as int) =~= a.engine.consumed);
    assert(c.engine.produced.take(a.engine.produced.len() as int) =~= a.engine.produced);
    assert(c.sink.chunks.take(a.sink.chunks.len() as int) =~= a.sink.chunks);
    assert(c.engine.consumed_since(a.engine) =~= first + second);
    assert(c.sink.chunks_since(a.sink) =~= ab + bc);
    vstd::seq_lib::lemma_flatten_concat(ab, bc);
    assert(c.engine.produced_since(a.engine) =~= b.engine.produced_since(a.engine)
        + c.engine.produced_since(b.engine));
}

/// A write that succeeded is a stretch of the one stream.
proof fn lemma_written_streamed(before: WriterView, after: WriterView, data: Seq<u8>, n: usize)
    requires
        written(before, after, data, Stage::Compress, false, Ok::<usize, ZstdError>(n)),
    ensures
        streamed(before, after, data),
        after.engine.frames == before.engine.frames,
        before.sink.flushes <= after.sink.flushes,
        before.sink.closes <= after.sink.closes,
{
    reveal_with_fuel(Seq::flatten, 1);
    if after.engine.steps == before.engine.steps {
        assert(after.engine.produced_since(before.engine) =~= Seq::<u8>::empty());
        assert(after.sink.chunks_since(before.sink) =~= Seq::<Seq<u8>>::empty());
    } else {
        assert(after.engine.consumed_since(before.engine).len() > 0 ==> data.len() > 0);
        if data.len() == 0 {
            assert(after.flow() == before.flow());
        }
        assert(after.sink.chunks_since(before.sink).flatten() + Seq::<u8>::empty()
            =~= after.sink.chunks_since(before.sink).flatten());
    }
}

/// The chunking of the input cannot be seen.
///
/// However a byte sequence is cut into pieces for `write`, once all the
/// writes and then `close` have succeeded, the engine has taken the pieces as
/// the one sequence that they make up, it has finished exactly one frame, and
/// the sink has got exactly what the engine gave, in order. So what the sink
/// holds is what the engine makes of the whole sequence: one frame of it.
pub proof fn law_chunking_is_invisible(views: Seq<WriterView>, pieces: Seq<Seq<u8>>, closed: WriterView)
    requires
        written_in_pieces(views, pieces),
        views.last().state != StreamState::Closed,
        closed_by(views.last(), closed, Ok::<(), ZstdError>(())),
    ensures
        streamed(views[0], closed, pieces.flatten()),
        closed.engine.frames == views[0].engine.frames + 1,
        closed.state == StreamState::Closed,
{
    lemma_pieces_streamed(views, pieces);
    let last = views.last();
    reveal_with_fuel(Seq::flatten, 1);
    last.engine.lemma_continues_itself();
    assert(closed.sink.chunks_since(last.sink).flatten() + Seq::<u8>::empty()
        =~= closed.sink.chunks_since(last.sink).flatten());
    assert(streamed(last, closed, Seq::empty()));
    lemma_streamed_on(views[0], last, closed, pieces.flatten(), Seq::empty());
    assert(pieces.flatten() + Seq::<u8>::empty() =~= pieces.flatten());
}

/// A block flush keeps the frame open.
///
/// After a write, a block flush and another write, all with success, no
/// frame is finished: each step of the flush asked the engine to flush, and
/// none to end the frame. A `close` that succeeds then finishes exactly one
/// frame; the engine has taken the two inputs one after the other, as one
/// sequence, and the sink has got exactly what the engine gave, in order. So
/// what was written after the flush went into the frame that was begun
/// before it.
pub proof fn law_block_flush_keeps_the_frame(
    fresh: WriterView,
    first_written: WriterView,
    block_flushed: WriterView,
    second_written: WriterView,
    closed: WriterView,
    first: Seq<u8>,
    second: Seq<u8>,
    counts: (usize, usize, usize),
)
    requires
        written(
            fresh,
            first_written,
            first,
            Stage::Compress,
            false,
            Ok::<usize, ZstdError>(counts.0),
        ),
        flushed(
            first_written,
            block_flushed,
            EndDirective::Flush,
            Ok::<usize, ZstdError>(counts.1),
        ),
        written(
            block_flushed,
            second_written,
            second,
            Stage::Compress,
            false,
            Ok::<usize, ZstdError>(counts.2),
        ),
        closed_by(second_written, closed, Ok::<(), ZstdError>(())),
    ensures
        second_written.engine.frames == fresh.engine.frames,
        closed.engine.frames == fresh.engine.frames + 1,
        streamed(fresh, closed, first + second),
        forall|i: int|
            0 <= i < block_flushed.engine.steps_since(first_written.engine).len() ==> (
            #[trigger] block_flushed.engine.steps_since(first_written.engine)[i]).directive
                == EndDirective::Flush,
{
    reveal_with_fuel(Seq::flatten, 1);
    lemma_written_streamed(fresh, first_written, first, counts.0);
    assert(block_flushed.sink.chunks_since(first_written.sink).flatten() + Seq::<u8>::empty()
        =~= block_flushed.sink.chunks_since(first_written.sink).flatten());
    assert(streamed(first_written, block_flushed, Seq::empty()));
    lemma_streamed_on(fresh, first_written, block_flushed, first, Seq::empty());
    assert(first + Seq::<u8>::empty() =~= first);
    lemma_written_streamed(block_flushed, second_written, second, counts.2);
    lemma_streamed_on(fresh, block_flushed, second_written, first, second);
    assert(closed.sink.chunks_since(second_written.sink).flatten() + Seq::<u8>::empty()
        =~= closed.sink.chunks_since(second_written.sink).flatten());
    assert(streamed(second_written, closed, Seq::empty()));
    lemma_streamed_on(fresh, second_written, closed, first + second, Seq::empty());
    assert(first + second + Seq::<u8>::empty() =~= first + second);
}

/// The writes of `written_in_pieces` are one stretch of the stream, and
/// finish no frame.
proof fn lemma_pieces_streamed(views: Seq<WriterView>, pieces: Seq<Seq<u8>>)
    requires
        written_in_pieces(views, pieces),
    ensures
        streamed(views[0], views.last(), pieces.flatten()),
        views.last().engine.frames == views[0].engine.frames,
        views[0].sink.flushes <= views.last().sink.flushes,
        views[0].sink.closes <= views.last().sink.closes,
    decreases pieces.len(),
{
    if pieces.len() == 0 {
        reveal_with_fuel(Seq::flatten, 1);
        lemma_streamed_nothing(views[0]);
        assert(pieces.flatten() =~= Seq::<u8>::empty());
    } else {
        let k = pieces.len() - 1;
        let shorter = views.drop_last();
        let fewer = pieces.drop_last();
        assert forall|i: int| 0 <= i < fewer.len() implies (#[trigger] shorter[i]).state
            != StreamState::Closed && exists|n: usize|
            written(
                shorter[i],
                shorter[i + 1],
                fewer[i],
                Stage::Compress,
                false,
                Ok::<usize, ZstdError>(n),
            ) by {
            assert(views[i].state != StreamState::Closed);
        }
        lemma_pieces_streamed(shorter, fewer);
        assert(views[k].state != StreamState::Closed);
        let n = choose|n: usize|
            written(
                views[k],
                views[k + 1],
                pieces[k],
                Stage::Compress,
                false,
                Ok::<usize, ZstdError>(n),
            );
        lemma_written_streamed(views[k], views[k + 1], pieces[k], n);
        assert(shorter.last() == views[k]);
        lemma_streamed_on(views[0], views[k], views[k + 1], fewer.flatten(), pieces[k]);
        fewer.lemma_flatten_push(pieces[k]);
        assert(fewer.push(pieces[k]) =~= pieces);
    }
}

/// Only the end of a frame ends a frame.
///
/// A write and a block flush leave the number of finished frames as it was,
/// so what is written after a block flush goes into the same frame; a frame
/// flush and `close`, where they succeed, finish exactly one.
pub proof fn law_only_frame_end_finishes_a_frame(
    before: WriterView,
    after: WriterView,
    data: Seq<u8>,
    n: usize,
)
    ensures
        written(before, after, data, Stage::Compress, false, Ok::<usize, ZstdError>(n))
            ==> after.engine.frames == before.engine.frames,
        flushed(before, after, EndDirective::Flush, Ok::<usize, ZstdError>(n))
            ==> after.engine.frames == before.engine.frames,
        flushed(before, after, EndDirective::End, Ok::<usize, ZstdError>(n))
            ==> after.engine.frames == before.engine.frames + 1,
        closed_by(before, after, Ok::<(), ZstdError>(())) ==> after.engine.frames
            == before.engine.frames + 1,
{
}

/// A flush asks the engine to flush.
///
/// Every step of a flush hands the engine the directive of the flush mode and
/// no input, and there is such a step: a block flush asks it to flush and not
/// to end the frame, a frame flush to end it. Where the flush succeeds, the
/// last step reported that the engine holds nothing back, and the sink has
/// got all that the steps gave.
pub proof fn law_flush_asks_the_engine_to_flush(
    before: WriterView,
    after: WriterView,
    directive: EndDirective,
    r: Result<usize, ZstdError>,
)
    requires
        flushed(before, after, directive, r),
    ensures
        after.engine.steps_since(before.engine).len() > 0,
        forall|i: int|
            0 <= i < after.engine.steps_since(before.engine).len() ==> (
            #[trigger] after.engine.steps_since(before.engine)[i]).directive == directive
                && after.engine.steps_since(before.engine)[i].offered.len() == 0,
        r is Ok ==> after.engine.steps_since(before.engine).last().status == Ok::<usize, usize>(0)
            && after.sink.chunks_since(before.sink) == passed_on(
            after.engine.steps_since(before.engine),
        ),
{
    let steps = after.engine.steps_since(before.engine);
    assert(after.engine.trace.last() == steps.last());
    if r is Ok {
        before.engine.lemma_replayed_last(steps, directive == EndDirective::End);
    }
}

/// A chain returns the content of its last frame.
///
/// Where a chain succeeds there were as many steps as frames, with no reset
/// between them; the step of each frame was offered that frame, all of it,
/// and room for as many bytes as its header declares; and the result is what
/// the step of the last frame gave: not what an earlier one gave, and not
/// what they all gave together.
pub proof fn law_chain_returns_the_last_content(
    before: DecompressorView,
    after: DecompressorView,
    frames: Seq<Seq<u8>>,
    out: Seq<u8>,
)
    requires
        chained(before, after, frames, Ok::<Seq<u8>, ZstdError>(out)),
    ensures
        ({
            let ready = configured(before.engine, before.config, false);
            let steps = after.engine.steps_since(ready);
            &&& frames.len() > 0
            &&& steps.len() == frames.len()
            &&& after.engine.resets == before.engine.resets + 1
            &&& after.engine.steps_since_reset == frames.len()
            &&& forall|j: int|
                0 <= j < frames.len() ==> offered_frame(
                    #[trigger] steps[j],
                    frames[j],
                    chain_size(frames, j)->Ok_0,
                )
            &&& out == steps.last().output
            &&& steps.last().offered == frames.last()
            &&& steps.last().status == Ok::<usize, usize>(0)
        }),
{
    let ready = configured(before.engine, before.config, false);
    let steps = after.engine.steps_since(ready);
    ready.lemma_replayed_last(steps, true);
    assert(offered_frame(steps[frames.len() - 1], frames[frames.len() - 1], chain_size(frames, frames.len() - 1)->Ok_0));
}

/// A close closes, whatever comes of it, and it closes the sink that the
/// writer owns.
///
/// After `close` the writer is closed even where `close` failed, so every
/// later `close` finds it closed and does nothing. A `close` never flushes
/// the sink. Where the writer owns the sink, the sink is asked to close
/// exactly once, also where the frame could not be finished: its closes and
/// its failures together go up by that one call and by the write that the
/// sink may have refused. The sink is asked to close after the last write:
/// at that call it had got every chunk that it has got in the end.
pub proof fn law_close_closes(before: WriterView, after: WriterView, r: Result<(), ZstdError>)
    requires
        closed_by(before, after, r),
    ensures
        after.state == StreamState::Closed,
        after.sink.flushes == before.sink.flushes,
        owns_sink(before.config) ==> after.sink.closes + after.sink.failures
            == before.sink.closes + before.sink.failures + refusals(pump_error(after, r.err()))
            + 1,
        !owns_sink(before.config) ==> after.sink.closes == before.sink.closes,
        r is Ok && owns_sink(before.config) ==> after.sink.closes == before.sink.closes + 1,
        owns_sink(before.config) ==> after.sink.close_calls.len() == before.sink.close_calls.len()
            + 1 && after.sink.close_calls.last() == after.sink.chunks.len(),
{
}

/// An empty frame is not shown to the engine.
///
/// Where the header of a frame declares a content of no bytes, one-shot
/// decompression returns no bytes, and the engine makes no step, whatever
/// bound the caller gave. (The setup comes first, and may fail.)
pub proof fn law_empty_frame_needs_no_engine(
    before: DecompressorView,
    after: DecompressorView,
    frame: Seq<u8>,
    max_output_size: usize,
    r: Result<Seq<u8>, ZstdError>,
)
    requires
        one_shot(before, after, frame, max_output_size, r),
        declared_content_size(frame) == Ok::<Option<u64>, ()>(Some(0)),
        !(r matches Err(e) && is_setup_error(e)),
    ensures
        r == Ok::<Seq<u8>, ZstdError>(Seq::empty()),
        after.engine.steps == before.engine.steps,
        after.engine.produced == before.engine.produced,
{
}

/// A frame of unknown size needs a bound.
///
/// Where the header of a frame declares no content size and the caller gives
/// no bound, one-shot decompression fails with `MissingOutputBound`, and the
/// engine makes no step. (The setup comes first, and may fail.)
pub proof fn law_unknown_size_needs_a_bound(
    before: DecompressorView,
    after: DecompressorView,
    frame: Seq<u8>,
    r: Result<Seq<u8>, ZstdError>,
)
    requires
        one_shot(before, after, frame, 0, r),
        declared_content_size(frame) == Ok::<Option<u64>, ()>(None),
        !(r matches Err(e) && is_setup_error(e)),
    ensures
        r == Err::<Seq<u8>, ZstdError>(
            ZstdError::Configuration(ConfigurationIssue::MissingOutputBound),
        ),
        after.engine.steps == before.engine.steps,
{
}

/// With a bound, what a frame of unknown size gives is what the engine says:
/// a step that fails is a codec error, and a step that leaves the frame
/// unfinished, as one into too small a buffer does, is an incomplete frame.
pub proof fn law_bound_leaves_it_to_the_engine(status: Result<usize, usize>, produced: usize)
    ensures
        status matches Err(code) ==> spec_verdict(status, produced, None, None) == Err::<
            (),
            ZstdError,
        >(ZstdError::Codec { stage: Stage::Decompress, code, frame: None }),
        status matches Ok(hint) && hint != 0 ==> spec_verdict(status, produced, None, None)
            == Err::<(), ZstdError>(ZstdError::IncompleteFrame { frame: None }),
        status == Ok::<usize, usize>(0) ==> spec_verdict(status, produced, None, None) is Ok,
{
}

/// The failure `e` without the index of a frame.
pub open spec fn unindexed(e: ZstdError) -> ZstdError {
    match e {
        ZstdError::Codec { stage, code, .. } => ZstdError::Codec { stage, code, frame: None },
        ZstdError::IncompleteFrame { .. } => ZstdError::IncompleteFrame { frame: None },
        ZstdError::SizeMismatch { produced, expected, .. } => ZstdError::SizeMismatch {
            produced,
            expected,
            frame: None,
        },
        ZstdError::InvalidInput { issue, .. } => ZstdError::InvalidInput { issue, frame: None },
        other => other,
    }
}

/// A chain of one frame is decided as the frame alone is.
///
/// For a frame whose header declares a content of `n` bytes, and `n` is not
/// 0, the first frame of a chain and a one-shot decompression ask for the
/// same buffer and expect the same number of bytes, and they make the same of
/// what the engine's one step reports, but that the chain's failure names the
/// frame. So where both succeed on the same report they return the same bytes.
pub proof fn law_chain_of_one_is_decided_as_one_shot(
    n: u64,
    max_output_size: usize,
    status: Result<usize, usize>,
    produced: usize,
)
    requires
        0 < n <= usize::MAX,
    ensures
        spec_plan_output(Ok(Some(n)), max_output_size) == Ok::<OutputPlan, ZstdError>(
            OutputPlan::Decode { capacity: n as usize, expected: Some(n) },
        ),
        spec_chain_frame_size(Ok(Some(n)), 0) == Ok::<usize, ZstdError>(n as usize),
        spec_verdict(status, produced, Some(n), Some(0usize)) is Ok <==> spec_verdict(
            status,
            produced,
            Some(n),
            None,
        ) is Ok,
        spec_verdict(status, produced, Some(n), Some(0usize)) matches Err(e) ==> spec_verdict(
            status,
            produced,
            Some(n),
            None,
        ) == Err::<(), ZstdError>(unindexed(e)) && e.spec_frame() == Some(0usize),
{
}

/// A chain of one frame is the one-shot decompression of that frame.
///
/// For a decompressor without a dictionary and a frame whose header declares
/// a content of `n` bytes, `n` not 0: whatever a chain of that one frame did
/// to the context and returned, a one-shot decompression of the frame may do
/// and return the same, but that its failure names no frame. So the two
/// return the same bytes wherever the engine answers them alike.
pub proof fn law_chain_of_one_is_one_shot(
    before: DecompressorView,
    after: DecompressorView,
    frame: Seq<u8>,
    max_output_size: usize,
    r: Result<Seq<u8>, ZstdError>,
)
    requires
        chained(before, after, seq![frame], r),
        before.config.dict_data is None,
        declared_content_size(frame) matches Ok(Some(n)) && 0 < n <= usize::MAX,
    ensures
        one_shot(
            before,
            after,
            frame,
            max_output_size,
            match r {
                Ok(out) => Ok(out),
                Err(e) => Err(unindexed(e)),
            },
        ),
{
    let frames = seq![frame];
    let ready = configured(before.engine, before.config, false);
    assert(ready == configured(before.engine, before.config, true));
    assert(frames[0] == frame);
    let n = declared_content_size(frame)->Ok_0->0;
    assert(chain_size(frames, 0) == Ok::<usize, ZstdError>(n as usize));
    if r matches Err(e) && is_setup_error(e) {
        assert(unindexed(r->Err_0) == r->Err_0);
    } else {
        let steps = after.engine.steps_since(ready);
        let done = after.engine.steps - ready.steps;
        if done == 0 {
            assert(steps.len() == 0);
            assert(ready.replayed(steps, true) == ready);
        } else {
            assert(steps.len() == 1);
            assert(steps.drop_last().len() == 0);
            assert(ready.replayed(steps.drop_last(), true) == ready);
            assert(ready.replayed(steps, true) == ready.after_call(steps.last(), true));
            assert(after.engine.trace.last() == steps.last());
            assert(offered_frame(steps[0], frames[0], n as usize));
        }
    }
}

/// A chain fails at its first fault, and names it.
///
/// An empty chain is refused and nothing is touched. Else the failure of a
/// chain that got past its setup names a frame, unless no buffer could be
/// had: the frame whose header will not do, after as many steps as there are
/// frames before it, or the frame whose step failed.
pub proof fn law_chain_names_the_frame(
    before: DecompressorView,
    after: DecompressorView,
    frames: Seq<Seq<u8>>,
    e: ZstdError,
)
    requires
        chained(before, after, frames, Err::<Seq<u8>, ZstdError>(e)),
        frames.len() <= usize::MAX,
    ensures
        frames.len() == 0 <==> e == (ZstdError::InvalidInput {
            issue: InputIssue::EmptyChain,
            frame: None,
        }),
        frames.len() == 0 ==> after == before,
        frames.len() > 0 && !is_setup_error(e) && e != ZstdError::OutOfMemory ==> e.spec_frame()
            is Some && e.spec_frame()->0 < frames.len(),
        e matches ZstdError::InvalidInput { frame: Some(index), .. } ==> chain_size(
            frames,
            index as int,
        ) == Err::<usize, ZstdError>(e),
{
    if frames.len() > 0 {
        if chain_size(frames, 0) is Err {
        } else if is_setup_error(e) {
        } else {
            let ready = configured(before.engine, before.config, false);
            let done = after.engine.steps - ready.steps;
            if done < frames.len() && (chain_size(frames, done) == Err::<usize, ZstdError>(e)
                || e == ZstdError::OutOfMemory) {
                assert(done as usize == done);
            } else {
                assert(chain_size(frames, done - 1) is Ok);
                assert((done - 1) as usize == done - 1);
            }
        }
    }
}

/// A copy counts what it read and what it wrote.
///
/// Where a copy succeeds, the source gave chunks that are not empty and then
/// an empty one; the first count is the length of all that the source gave,
/// and the engine took all of it, in order; the second count is the length of
/// all that the engine gave, and the sink got exactly that, in order.
pub proof fn law_copy_counts(
    before: DecompressorView,
    after: DecompressorView,
    source_before: Seq<Seq<u8>>,
    source_after: Seq<Seq<u8>>,
    sink_before: OutletLog,
    sink_after: OutletLog,
    write_size: Option<usize>,
    bytes_read: usize,
    bytes_written: usize,
)
    requires
        copied(
            before,
            after,
            source_before,
            source_after,
            sink_before,
            sink_after,
            write_size,
            Ok::<(usize, usize), ZstdError>((bytes_read, bytes_written)),
        ),
    ensures
        ({
            let ready = configured(before.engine, before.config, true);
            let served = source_after.skip(source_before.len() as int);
            &&& bytes_read == served.flatten().len()
            &&& after.engine.consumed_since(ready) == served.flatten()
            &&& bytes_written == after.engine.produced_since(ready).len()
            &&& sink_after.delivered() == sink_before.delivered() + after.engine.produced_since(
                ready,
            )
            &&& after.engine.resets == before.engine.resets + 1
        }),
{
    lemma_delivered(sink_before, sink_after);
}

} // verus!
