//! The compressing stream writer: bytes written to it go through a
//! compression context, and what the context gives goes on to a sink at once.

use vstd::prelude::*;
use crate::engine::{Buffer, CCtx, EndDirective, EngineLog, Setting};
use crate::error::{Capability, ConfigurationIssue, StateIssue, Stage, ZstdError};
use crate::io::{Outlet, OutletLog, Sink, SinkCapabilities};
use crate::pump::{drain, drained, fed, feed, lemma_delivered, pumped, refusals, Flow};

verus! {

/// The flush mode that keeps the frame open.
pub const FLUSH_BLOCK: usize = 0;

/// The flush mode that finishes the frame.
pub const FLUSH_FRAME: usize = 1;

/// Where a stream is in its life.
#[derive(Clone, Copy, Debug, PartialEq, Eq, Structural)]
pub enum StreamState {
    /// Made, and its scope not entered.
    Fresh,
    /// Its scope entered.
    Entered,
    /// In the middle of `close`.
    Closing,
    /// Closed for good.
    Closed,
}

/// What a flush mode asks of the engine, or `None` for a number that is no
/// flush mode.
pub open spec fn spec_flush_directive(flush_mode: usize) -> Option<EndDirective> {
    if flush_mode == FLUSH_BLOCK {
        Some(EndDirective::Flush)
    } else if flush_mode == FLUSH_FRAME {
        Some(EndDirective::End)
    } else {
        None
    }
}

#[verifier::when_used_as_spec(spec_flush_directive)]
pub fn flush_directive(flush_mode: usize) -> (d: Option<EndDirective>)
    ensures
        d == spec_flush_directive(flush_mode),
{
    if flush_mode == FLUSH_BLOCK {
        Some(EndDirective::Flush)
    } else if flush_mode == FLUSH_FRAME {
        Some(EndDirective::End)
    } else {
        None
    }
}

/// The size to declare to the engine for a source of `source_size` bytes:
/// 0 stands for a size that is not known.
pub open spec fn spec_pledged_size(source_size: u64) -> Option<u64> {
    if source_size == 0 {
        None
    } else {
        Some(source_size)
    }
}

#[verifier::when_used_as_spec(spec_pledged_size)]
pub fn pledged_size(source_size: u64) -> (p: Option<u64>)
    ensures
        p == spec_pledged_size(source_size),
{
    if source_size == 0 {
        None
    } else {
        Some(source_size)
    }
}

/// What a writer was made with.
pub struct WriterConfig {
    /// The capacity of the destination buffer: no chunk is longer.
    pub write_size: usize,
    /// Whether `write` returns the bytes it took rather than the bytes it passed on.
    pub write_return_read: bool,
    /// Whether closing the writer closes the sink.
    pub closefd: bool,
    /// What the sink can do.
    pub capabilities: SinkCapabilities,
}

/// A writer, as the contracts see it.
pub struct WriterView {
    pub state: StreamState,
    pub config: WriterConfig,
    /// The record of the context.
    pub engine: EngineLog,
    /// The record of the sink.
    pub sink: OutletLog,
    /// What the latest step gave and the sink has not got.
    pub pending: Seq<u8>,
}

impl WriterView {
    /// The writer as the pump sees it. The count is the number of bytes that
    /// the sink has got.
    pub open spec fn flow(self) -> Flow {
        Flow {
            engine: self.engine,
            sink: self.sink,
            pending: self.pending,
            count: self.sink.delivered().len(),
        }
    }
}

/// What `write` left of a writer that was open, where `r` is what came of it:
/// the writer fed `data` to the engine and pumped, and touched nothing else.
/// `stage` is the engine call that a step is, and `finishes` says whether
/// such a step can finish a frame.
pub open spec fn written(
    before: WriterView,
    after: WriterView,
    data: Seq<u8>,
    stage: Stage,
    finishes: bool,
    r: Result<usize, ZstdError>,
) -> bool {
    &&& after.state == before.state
    &&& after.config == before.config
    &&& pumped(before.flow(), after.flow(), before.config.write_size as nat)
    &&& fed(before.flow(), after.flow(), data, stage, finishes, r.err())
    &&& after.sink.flushes == before.sink.flushes
    &&& after.sink.closes == before.sink.closes
    &&& after.sink.close_calls == before.sink.close_calls
    &&& after.sink.flush_calls == before.sink.flush_calls
    &&& after.sink.failures == before.sink.failures + refusals(r.err())
    &&& r matches Ok(n) ==> n == if before.config.write_return_read {
        data.len()
    } else {
        after.sink.chunks_since(before.sink).flatten().len()
    }
}

/// The failure that ended the pump, where a flush or a close ended with
/// `error`: none where the pump was through and it was the sink's own flush or
/// close that failed, which shows in that nothing is pending.
pub open spec fn pump_error(after: WriterView, error: Option<ZstdError>) -> Option<ZstdError> {
    if error matches Some(ZstdError::Io(_)) && after.pending.len() == 0 {
        None
    } else {
        error
    }
}

/// What `flush` with `directive` left of a writer that was open, where `r` is
/// what came of it: the writer drained the engine and pumped, and then, where
/// the pump was through, it asked the sink to flush, if the sink can be
/// flushed: when the sink was asked, it had got every chunk that it has got.
pub open spec fn flushed(
    before: WriterView,
    after: WriterView,
    directive: EndDirective,
    r: Result<usize, ZstdError>,
) -> bool {
    &&& after.state == before.state
    &&& after.config == before.config
    &&& pumped(before.flow(), after.flow(), before.config.write_size as nat)
    &&& drained(
        before.flow(),
        after.flow(),
        Stage::Compress,
        directive,
        directive == EndDirective::End,
        pump_error(after, r.err()),
    )
    &&& r matches Ok(n) ==> n == after.sink.chunks_since(before.sink).flatten().len()
    &&& r is Err && pump_error(after, r.err()) is None ==> before.config.capabilities.flush
    &&& after.sink.closes == before.sink.closes
    &&& after.sink.close_calls == before.sink.close_calls
    &&& after.sink.flush_calls == if pump_error(after, r.err()) is None
        && before.config.capabilities.flush {
        before.sink.flush_calls.push(after.sink.chunks.len())
    } else {
        before.sink.flush_calls
    }
    &&& after.sink.failures == before.sink.failures + refusals(r.err())
    &&& after.sink.flushes == before.sink.flushes + if r is Ok && before.config.capabilities.flush {
        1nat
    } else {
        0nat
    }
}

/// Whether a writer with `config` is to close its sink when it is closed: it
/// was made to, and the sink can be closed.
pub open spec fn owns_sink(config: WriterConfig) -> bool {
    config.closefd && config.capabilities.close
}

/// What `close` left of a writer that was open, where `r` is what came of it:
/// the writer is closed; it drained the engine to the end of the frame and
/// pumped; it did not flush the sink; and then, whatever came of the pump, it
/// asked the sink to close, once, if that was asked for and the sink can be
/// closed: when the sink was asked, it had got every chunk that it has got,
/// so nothing was written to it afterwards. The failure returned is the
/// pump's, where the pump failed, else the sink's.
pub open spec fn closed_by(before: WriterView, after: WriterView, r: Result<(), ZstdError>) -> bool {
    let pump = pump_error(after, r.err());
    let close_failed = after.sink.failures - before.sink.failures - refusals(pump);
    &&& after.state == StreamState::Closed
    &&& after.config == before.config
    &&& pumped(before.flow(), after.flow(), before.config.write_size as nat)
    &&& drained(before.flow(), after.flow(), Stage::Compress, EndDirective::End, true, pump)
    &&& after.sink.flushes == before.sink.flushes
    &&& after.sink.flush_calls == before.sink.flush_calls
    &&& if owns_sink(before.config) {
        &&& (after.sink.closes - before.sink.closes) + close_failed == 1
        &&& after.sink.close_calls == before.sink.close_calls.push(after.sink.chunks.len())
    } else {
        &&& after.sink.closes == before.sink.closes
        &&& close_failed == 0
        &&& after.sink.close_calls == before.sink.close_calls
    }
    &&& 0 <= close_failed <= 1
    &&& r is Ok ==> close_failed == 0
    &&& r is Err && pump is None ==> close_failed == 1
}

/// A write-only, forward-only stream that compresses what is written to it
/// and passes the result on to a sink.
pub struct ZstdCompressionWriter<W: Sink> {
    cctx: CCtx,
    writer: Outlet<W>,
    write_size: usize,
    write_return_read: bool,
    closefd: bool,
    state: StreamState,
    bytes_compressed: usize,
    dest_buffer: Buffer,
}

impl<W: Sink> View for ZstdCompressionWriter<W> {
    type V = WriterView;

    closed spec fn view(&self) -> WriterView {
        WriterView {
            state: self.state,
            config: WriterConfig {
                write_size: self.write_size,
                write_return_read: self.write_return_read,
                closefd: self.closefd,
                capabilities: self.writer.spec_capabilities(),
            },
            engine: self.cctx@,
            sink: self.writer@,
            pending: self.dest_buffer@,
        }
    }
}

impl<W: Sink> ZstdCompressionWriter<W> {
    /// The invariant of a writer between calls: its counts are right, and no
    /// `close` is under way.
    pub open spec fn wf(&self) -> bool {
        &&& self.inv()
        &&& self@.state != StreamState::Closing
    }

    /// The counts of a writer are right: the byte count is the number of
    /// bytes that the sink has got, and the buffer has the capacity that the
    /// writer was made with.
    pub closed spec fn inv(&self) -> bool {
        &&& self.bytes_compressed == self.writer@.delivered().len()
        &&& self.dest_buffer.spec_capacity() == self.write_size
    }

    /// The sink as it stands.
    pub closed spec fn sink(&self) -> W {
        self.writer.sink()
    }

    /// A writer on `writer`, around a context to which `source_size` is
    /// declared as the size of all that will be written (0: not known), with
    /// a buffer of `write_size` bytes. Fails where the context refuses the
    /// size, and where there is no room for the buffer; a buffer of no bytes
    /// needs none.
    pub fn new(
        cctx: CCtx,
        writer: W,
        source_size: u64,
        write_size: usize,
        write_return_read: bool,
        closefd: bool,
    ) -> (r: Result<Self, ZstdError>)
        ensures
            r matches Ok(w) ==> {
                &&& w.wf()
                &&& w@.state == StreamState::Fresh
                &&& w@.config.write_size == write_size
                &&& w@.config.write_return_read == write_return_read
                &&& w@.config.closefd == closefd
                &&& w@.engine == cctx@.after_setting(Setting::PledgedSize(pledged_size(source_size)))
                &&& w@.sink == OutletLog::empty()
                &&& w@.pending == Seq::<u8>::empty()
                &&& w.sink() == writer
            },
            r matches Err(e) ==> (e == ZstdError::OutOfMemory && write_size > 0) || (
            e matches ZstdError::Codec { stage, frame, .. } && stage == Stage::SetPledgedSize
                && frame is None),
    {
        let mut cctx = cctx;
        match cctx.set_pledged_source_size(pledged_size(source_size)) {
            Ok(()) => {},
            Err(code) => {
                return Err(ZstdError::Codec { stage: Stage::SetPledgedSize, code, frame: None });
            },
        }
        let dest_buffer = match Buffer::try_with_capacity(write_size) {
            Some(buffer) => buffer,
            None => {
                return Err(ZstdError::OutOfMemory);
            },
        };
        let writer = Outlet::new(writer);
        proof {
            reveal_with_fuel(Seq::flatten, 1);
        }
        Ok(
            ZstdCompressionWriter {
                cctx,
                writer,
                write_size,
                write_return_read,
                closefd,
                state: StreamState::Fresh,
                bytes_compressed: 0,
                dest_buffer,
            },
        )
    }

    /// Enters the writer's scope: once, and not after `close`.
    pub fn enter(&mut self) -> (r: Result<(), ZstdError>)
        requires
            old(self).wf(),
        ensures
            final(self).wf(),
            old(self)@.state == StreamState::Closed ==> r == Err::<(), ZstdError>(
                ZstdError::State(StateIssue::Closed),
            ) && *final(self) == *old(self),
            old(self)@.state == StreamState::Entered ==> r == Err::<(), ZstdError>(
                ZstdError::State(StateIssue::AlreadyEntered),
            ) && *final(self) == *old(self),
            old(self)@.state == StreamState::Fresh ==> r == Ok::<(), ZstdError>(())
                && final(self)@ == (WriterView { state: StreamState::Entered, ..old(self)@ }),
    {
        match self.state {
            StreamState::Closed => Err(ZstdError::State(StateIssue::Closed)),
            StreamState::Entered => Err(ZstdError::State(StateIssue::AlreadyEntered)),
            _ => {
                self.state = StreamState::Entered;
                Ok(())
            },
        }
    }

    /// Compresses `data` and passes the result on to the sink as it comes.
    /// Returns the number of bytes taken, or of bytes passed on, as the writer
    /// was made to. On a closed writer it fails and does nothing; with no
    /// data it succeeds and does nothing.
    pub fn write(&mut self, data: &[u8]) -> (r: Result<usize, ZstdError>)
        requires
            old(self).wf(),
        ensures
            final(self).wf(),
            old(self)@.state == StreamState::Closed ==> r == Err::<usize, ZstdError>(
                ZstdError::State(StateIssue::Closed),
            ) && *final(self) == *old(self),
            old(self)@.state != StreamState::Closed ==> written(
                old(self)@,
                final(self)@,
                data@,
                Stage::Compress,
                false,
                r,
            ),
            old(self)@.state != StreamState::Closed && data@.len() == 0 ==> r == Ok::<
                usize,
                ZstdError,
            >(0) && *final(self) == *old(self),
    {
        if self.closed() {
            return Err(ZstdError::State(StateIssue::Closed));
        }
        let start = self.bytes_compressed;
        let fed = feed(
            &mut self.cctx,
            &mut self.dest_buffer,
            &mut self.writer,
            &mut self.bytes_compressed,
            data,
        );
        proof {
            lemma_delivered(old(self)@.sink, self@.sink);
        }
        match fed {
            Ok(()) => {},
            Err(e) => {
                return Err(e);
            },
        }
        proof {
            if data@.len() == 0 {
                reveal_with_fuel(Seq::flatten, 1);
                assert(self@.sink.chunks_since(old(self)@.sink) =~= Seq::<Seq<u8>>::empty());
            }
        }
        if self.write_return_read {
            Ok(data.len())
        } else {
            Ok(self.bytes_compressed - start)
        }
    }

    /// Flushes the engine: `FLUSH_BLOCK` keeps the frame open, `FLUSH_FRAME`
    /// finishes it. What the engine gives goes on to the sink, and then the
    /// sink is flushed, if it can be. Returns the number of bytes passed on.
    /// On a closed writer, and for a number that is no flush mode, it fails
    /// and does nothing.
    pub fn flush(&mut self, flush_mode: usize) -> (r: Result<usize, ZstdError>)
        requires
            old(self).wf(),
        ensures
            final(self).wf(),
            old(self)@.state == StreamState::Closed ==> r == Err::<usize, ZstdError>(
                ZstdError::State(StateIssue::Closed),
            ) && *final(self) == *old(self),
            old(self)@.state != StreamState::Closed ==> match flush_directive(flush_mode) {
                None => r == Err::<usize, ZstdError>(
                    ZstdError::Configuration(ConfigurationIssue::UnknownFlushMode(flush_mode)),
                ) && *final(self) == *old(self),
                Some(directive) => flushed(old(self)@, final(self)@, directive, r),
            },
    {
        if self.closed() {
            return Err(ZstdError::State(StateIssue::Closed));
        }
        let directive = match flush_directive(flush_mode) {
            Some(directive) => directive,
            None => {
                return Err(
                    ZstdError::Configuration(ConfigurationIssue::UnknownFlushMode(flush_mode)),
                );
            },
        };
        let start = self.bytes_compressed;
        let drained = drain(
            &mut self.cctx,
            &mut self.dest_buffer,
            &mut self.writer,
            &mut self.bytes_compressed,
            directive,
        );
        proof {
            lemma_delivered(old(self)@.sink, self@.sink);
        }
        match drained {
            Ok(()) => {},
            Err(e) => {
                return Err(e);
            },
        }
        let total_write = self.bytes_compressed - start;
        if self.writer.capabilities().flush {
            match self.writer.flush() {
                Ok(()) => {},
                Err(e) => {
                    return Err(ZstdError::Io(e));
                },
            }
        }
        Ok(total_write)
    }

    /// Closes the writer: finishes the frame, passes the rest on to the sink,
    /// and then closes the sink if the writer was made to and the sink can be
    /// closed, whether or not the frame could be finished. The sink is not
    /// flushed. The writer is closed afterwards whatever happened. A failure
    /// to finish the frame is returned, and else a failure of the sink to
    /// close. On a closed writer it does nothing.
    pub fn close(&mut self) -> (r: Result<(), ZstdError>)
        requires
            old(self).wf(),
        ensures
            final(self).wf(),
            final(self)@.state == StreamState::Closed,
            old(self)@.state == StreamState::Closed ==> r == Ok::<(), ZstdError>(())
                && *final(self) == *old(self),
            old(self)@.state != StreamState::Closed ==> closed_by(old(self)@, final(self)@, r),
    {
        if self.closed() {
            return Ok(());
        }
        self.state = StreamState::Closing;
        let res = drain(
            &mut self.cctx,
            &mut self.dest_buffer,
            &mut self.writer,
            &mut self.bytes_compressed,
            EndDirective::End,
        );
        proof {
            lemma_delivered(old(self)@.sink, self@.sink);
        }
        self.state = StreamState::Closed;
        let closing = if self.writer.capabilities().close && self.closefd {
            self.writer.close()
        } else {
            Ok(())
        };
        match res {
            Ok(()) => match closing {
                Ok(()) => Ok(()),
                Err(e) => Err(ZstdError::Io(e)),
            },
            Err(e) => Err(e),
        }
    }

    /// Leaves the writer's scope: closes the writer. `Ok(false)` says that an
    /// error of the caller's, if there was one, is not taken off his hands.
    pub fn exit(&mut self) -> (r: Result<bool, ZstdError>)
        requires
            old(self).wf(),
        ensures
            final(self).wf(),
            final(self)@.state == StreamState::Closed,
            r matches Ok(swallow) ==> !swallow,
            old(self)@.state == StreamState::Closed ==> r == Ok::<bool, ZstdError>(false)
                && *final(self) == *old(self),
            old(self)@.state != StreamState::Closed ==> closed_by(
                old(self)@,
                final(self)@,
                match r {
                    Ok(_) => Ok(()),
                    Err(e) => Err(e),
                },
            ),
    {
        match self.close() {
            Ok(()) => Ok(false),
            Err(e) => Err(e),
        }
    }

    /// The bytes the context holds at the moment.
    pub fn memory_size(&self) -> usize {
        self.cctx.memory_size()
    }

    /// The sink's file number, or `MissingCapability` for a sink that showed
    /// none when the writer was made.
    pub fn fileno(&self) -> (r: Result<i64, ZstdError>)
        ensures
            !self@.config.capabilities.fileno ==> r == Err::<i64, ZstdError>(
                ZstdError::MissingCapability(Capability::Fileno),
            ),
            self@.config.capabilities.fileno ==> (r is Ok || r matches Err(ZstdError::Io(_))),
    {
        if self.writer.capabilities().fileno {
            match self.writer.fileno() {
                Ok(n) => Ok(n),
                Err(e) => Err(ZstdError::Io(e)),
            }
        } else {
            Err(ZstdError::MissingCapability(Capability::Fileno))
        }
    }

    /// Whether the writer is closed.
    pub fn closed(&self) -> (c: bool)
        ensures
            c == (self@.state == StreamState::Closed),
    {
        match self.state {
            StreamState::Closed => true,
            _ => false,
        }
    }

    /// A writer is no terminal.
    pub fn isatty(&self) -> (b: bool)
        ensures
            !b,
    {
        false
    }

    /// A writer cannot be read from.
    pub fn readable(&self) -> (b: bool)
        ensures
            !b,
    {
        false
    }

    /// A writer cannot seek.
    pub fn seekable(&self) -> (b: bool)
        ensures
            !b,
    {
        false
    }

    /// A writer can be written to.
    pub fn writable(&self) -> (b: bool)
        ensures
            b,
    {
        true
    }

    /// Not supported, in any state.
    pub fn readline(&self, size: Option<isize>) -> (r: Result<(), ZstdError>)
        ensures
            r == Err::<(), ZstdError>(ZstdError::UnsupportedOperation),
    {
        Err(ZstdError::UnsupportedOperation)
    }

    /// Not supported, in any state.
    pub fn readlines(&self, hint: Option<isize>) -> (r: Result<(), ZstdError>)
        ensures
            r == Err::<(), ZstdError>(ZstdError::UnsupportedOperation),
    {
        Err(ZstdError::UnsupportedOperation)
    }

    /// Not supported, in any state.
    pub fn seek(&self, pos: isize, whence: Option<i32>) -> (r: Result<(), ZstdError>)
        ensures
            r == Err::<(), ZstdError>(ZstdError::UnsupportedOperation),
    {
        Err(ZstdError::UnsupportedOperation)
    }

    /// Not supported, in any state.
    pub fn truncate(&self, size: Option<usize>) -> (r: Result<(), ZstdError>)
        ensures
            r == Err::<(), ZstdError>(ZstdError::UnsupportedOperation),
    {
        Err(ZstdError::UnsupportedOperation)
    }

    /// Not implemented.
    pub fn writelines(&self, lines: &Vec<Vec<u8>>) -> (r: Result<(), ZstdError>)
        ensures
            r == Err::<(), ZstdError>(ZstdError::NotImplemented),
    {
        Err(ZstdError::NotImplemented)
    }

    /// Not supported, in any state.
    pub fn read(&self, size: Option<isize>) -> (r: Result<(), ZstdError>)
        ensures
            r == Err::<(), ZstdError>(ZstdError::UnsupportedOperation),
    {
        Err(ZstdError::UnsupportedOperation)
    }

    /// Not supported, in any state.
    pub fn readall(&self) -> (r: Result<(), ZstdError>)
        ensures
            r == Err::<(), ZstdError>(ZstdError::UnsupportedOperation),
    {
        Err(ZstdError::UnsupportedOperation)
    }

    /// Not supported, in any state.
    pub fn readinto(&self, b: &mut Vec<u8>) -> (r: Result<(), ZstdError>)
        ensures
            r == Err::<(), ZstdError>(ZstdError::UnsupportedOperation),
            *final(b) == *old(b),
    {
        Err(ZstdError::UnsupportedOperation)
    }

    /// The number of compressed bytes that the sink has got.
    pub fn tell(&self) -> (n: usize)
        requires
            self.wf(),
        ensures
            n == self@.sink.delivered().len(),
    {
        self.bytes_compressed
    }

    /// The sink, to look at.
    pub fn get_ref(&self) -> (w: &W)
        ensures
            *w == self.sink(),
    {
        self.writer.get_ref()
    }

    /// The context and the sink, out of the writer.
    pub fn into_parts(self) -> (parts: (CCtx, W))
        ensures
            parts.0@ == self@.engine,
            parts.1 == self.sink(),
    {
        (self.cctx, self.writer.into_inner())
    }
}

} // verus!
