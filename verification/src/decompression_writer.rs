//! The decompressing stream writer: compressed bytes written to it go through
//! a decompression context, and what the context gives goes on to a sink at
//! once.

use vstd::prelude::*;
use crate::compression_writer::{written, StreamState, WriterConfig, WriterView};
use crate::engine::{Buffer, DCtx};
use crate::error::{Capability, StateIssue, Stage, ZstdError};
use crate::io::{Outlet, OutletLog, Sink};
use crate::pump::{feed, lemma_delivered, refusals};

verus! {

/// What `flush` left of a writer that was open, where `r` is what came of it:
/// the sink was flushed, if it can be, and nothing else was touched: the
/// engine is not asked for anything.
pub open spec fn sink_flushed(before: WriterView, after: WriterView, r: Result<(), ZstdError>) -> bool {
    &&& (r is Ok || r matches Err(ZstdError::Io(_)))
    &&& !before.config.capabilities.flush ==> r is Ok
    &&& after == (WriterView {
        sink: OutletLog {
            flushes: before.sink.flushes + if r is Ok && before.config.capabilities.flush {
                1nat
            } else {
                0nat
            },
            failures: before.sink.failures + refusals(r.err()),
            flush_calls: if before.config.capabilities.flush {
                before.sink.flush_calls.push(before.sink.chunks.len())
            } else {
                before.sink.flush_calls
            },
            ..before.sink
        },
        ..before
    })
}

/// What `close` left of a writer that was open, where `r` is what came of it:
/// the writer is closed; the sink was not flushed; and it was closed, if that
/// was asked for and the sink can be closed.
pub open spec fn sink_closed(before: WriterView, after: WriterView, r: Result<(), ZstdError>) -> bool {
    &&& (r is Ok || r matches Err(ZstdError::Io(_)))
    &&& !(before.config.closefd && before.config.capabilities.close) ==> r is Ok
    &&& after == (WriterView {
        state: StreamState::Closed,
        sink: OutletLog {
            closes: before.sink.closes + if r is Ok && before.config.closefd
                && before.config.capabilities.close {
                1nat
            } else {
                0nat
            },
            failures: before.sink.failures + refusals(r.err()),
            close_calls: if before.config.closefd && before.config.capabilities.close {
                before.sink.close_calls.push(before.sink.chunks.len())
            } else {
                before.sink.close_calls
            },
            ..before.sink
        },
        ..before
    })
}

/// A write-only, forward-only stream that decompresses what is written to it
/// and passes the result on to a sink.
pub struct ZstdDecompressionWriter<W: Sink> {
    dctx: DCtx<'static>,
    writer: Outlet<W>,
    write_size: usize,
    write_return_read: bool,
    closefd: bool,
    state: StreamState,
    bytes_decompressed: usize,
    dest_buffer: Buffer,
}

impl<W: Sink> View for ZstdDecompressionWriter<W> {
    type V = WriterView;

    closed spec fn view(&self) -> WriterView {
        WriterView {
            state: self.state,
            config: WriterConfig {
                write_size: self.write_size,
                write_return_read: self.write_return_read,
                closefd: self.closefd,
                capabilities: self.writer.spec_capabilities(),
            },
            engine: self.dctx@,
            sink: self.writer@,
            pending: self.dest_buffer@,
        }
    }
}

impl<W: Sink> ZstdDecompressionWriter<W> {
    /// The invariant of a writer between calls: its counts are right, and no
    /// `close` is under way.
    pub open spec fn wf(&self) -> bool {
        &&& self.inv()
        &&& self@.state != StreamState::Closing
    }

    /// The counts of a writer are right: the byte count is the number of
    /// bytes that the sink has got, and the buffer has the capacity that the
    /// writer was made with.
    pub closed spec fn inv(&self) -> bool {
        &&& self.bytes_decompressed == self.writer@.delivered().len()
        &&& self.dest_buffer.spec_capacity() == self.write_size
    }

    /// The sink as it stands.
    pub closed spec fn sink(&self) -> W {
        self.writer.sink()
    }

    /// A writer on `writer`, around a context that is set up, with a buffer
    /// of `write_size` bytes. Fails where there is no room for the buffer; a
    /// buffer of no bytes needs none.
    pub fn new(
        dctx: DCtx<'static>,
        writer: W,
        write_size: usize,
        write_return_read: bool,
        closefd: bool,
    ) -> (r: Result<Self, ZstdError>)
        ensures
            r matches Ok(w) ==> {
                &&& w.wf()
                &&& w@.state == StreamState::Fresh
                &&& w@.config.write_size == write_size
                &&& w@.config.write_return_read == write_return_read
                &&& w@.config.closefd == closefd
                &&& w@.engine == dctx@
                &&& w@.sink == OutletLog::empty()
                &&& w@.pending == Seq::<u8>::empty()
                &&& w.sink() == writer
            },
            r matches Err(e) ==> e == ZstdError::OutOfMemory && write_size > 0,
    {
        let dest_buffer = match Buffer::try_with_capacity(write_size) {
            Some(buffer) => buffer,
            None => {
                return Err(ZstdError::OutOfMemory);
            },
        };
        let writer = Outlet::new(writer);
        proof {
            reveal_with_fuel(Seq::flatten, 1);
        }
        Ok(
            ZstdDecompressionWriter {
                dctx,
                writer,
                write_size,
                write_return_read,
                closefd,
                state: StreamState::Fresh,
                bytes_decompressed: 0,
                dest_buffer,
            },
        )
    }

    /// Enters the writer's scope: once, and not after `close`.
    pub fn enter(&mut self) -> (r: Result<(), ZstdError>)
        requires
            old(self).wf(),
        ensures
            final(self).wf(),
            old(self)@.state == StreamState::Closed ==> r == Err::<(), ZstdError>(
                ZstdError::State(StateIssue::Closed),
            ) && *final(self) == *old(self),
            old(self)@.state == StreamState::Entered ==> r == Err::<(), ZstdError>(
                ZstdError::State(StateIssue::AlreadyEntered),
            ) && *final(self) == *old(self),
            old(self)@.state == StreamState::Fresh ==> r == Ok::<(), ZstdError>(())
                && final(self)@ == (WriterView { state: StreamState::Entered, ..old(self)@ }),
    {
        match self.state {
            StreamState::Closed => Err(ZstdError::State(StateIssue::Closed)),
            StreamState::Entered => Err(ZstdError::State(StateIssue::AlreadyEntered)),
            _ => {
                self.state = StreamState::Entered;
                Ok(())
            },
        }
    }

    /// Leaves the writer's scope: closes the writer. `Ok(false)` says that an
    /// error of the caller's, if there was one, is not taken off his hands.
    pub fn exit(&mut self) -> (r: Result<bool, ZstdError>)
        requires
            old(self).wf(),
        ensures
            final(self).wf(),
            final(self)@.state == StreamState::Closed,
            r matches Ok(swallow) ==> !swallow,
            old(self)@.state == StreamState::Closed ==> r == Ok::<bool, ZstdError>(false)
                && *final(self) == *old(self),
            old(self)@.state != StreamState::Closed ==> sink_closed(
                old(self)@,
                final(self)@,
                match r {
                    Ok(_) => Ok(()),
                    Err(e) => Err(e),
                },
            ),
    {
        match self.close() {
            Ok(()) => Ok(false),
            Err(e) => Err(e),
        }
    }

    /// Decompresses `data` and passes the result on to the sink as it comes.
    /// Returns the number of bytes taken, or of bytes passed on, as the writer
    /// was made to. On a closed writer it fails and does nothing; with no
    /// data it succeeds and does nothing.
    pub fn write(&mut self, data: &[u8]) -> (r: Result<usize, ZstdError>)
        requires
            old(self).wf(),
        ensures
            final(self).wf(),
            old(self)@.state == StreamState::Closed ==> r == Err::<usize, ZstdError>(
                ZstdError::State(StateIssue::Closed),
            ) && *final(self) == *old(self),
            old(self)@.state != StreamState::Closed ==> written(
                old(self)@,
                final(self)@,
                data@,
                Stage::Decompress,
                true,
                r,
            ),
            old(self)@.state != StreamState::Closed && data@.len() == 0 ==> r == Ok::<
                usize,
                ZstdError,
            >(0) && *final(self) == *old(self),
    {
        if self.closed() {
            return Err(ZstdError::State(StateIssue::Closed));
        }
        let start = self.bytes_decompressed;
        let fed = feed(
            &mut self.dctx,
            &mut self.dest_buffer,
            &mut self.writer,
            &mut self.bytes_decompressed,
            data,
        );
        proof {
            lemma_delivered(old(self)@.sink, self@.sink);
        }
        match fed {
            Ok(()) => {},
            Err(e) => {
                return Err(e);
            },
        }
        proof {
            if data@.len() == 0 {
                reveal_with_fuel(Seq::flatten, 1);
                assert(self@.sink.chunks_since(old(self)@.sink) =~= Seq::<Seq<u8>>::empty());
            }
        }
        if self.write_return_read {
            Ok(data.len())
        } else {
            Ok(self.bytes_decompressed - start)
        }
    }

    /// Flushes the sink, if it can be flushed. On a closed writer it fails and
    /// does nothing.
    pub fn flush(&mut self) -> (r: Result<(), ZstdError>)
        requires
            old(self).wf(),
        ensures
            final(self).wf(),
            old(self)@.state == StreamState::Closed ==> r == Err::<(), ZstdError>(
                ZstdError::State(StateIssue::Closed),
            ) && *final(self) == *old(self),
            old(self)@.state != StreamState::Closed ==> sink_flushed(old(self)@, final(self)@, r),
    {
        if self.closed() {
            return Err(ZstdError::State(StateIssue::Closed));
        }
        if self.writer.capabilities().flush {
            match self.writer.flush() {
                Ok(()) => {},
                Err(e) => {
                    return Err(ZstdError::Io(e));
                },
            }
        }
        Ok(())
    }

    /// Closes the writer, and closes the sink if the writer was made to and
    /// the sink can be closed. The sink is not flushed. The writer is closed
    /// afterwards whatever happened. On a closed writer it does nothing.
    pub fn close(&mut self) -> (r: Result<(), ZstdError>)
        requires
            old(self).wf(),
        ensures
            final(self).wf(),
            final(self)@.state == StreamState::Closed,
            old(self)@.state == StreamState::Closed ==> r == Ok::<(), ZstdError>(())
                && *final(self) == *old(self),
            old(self)@.state != StreamState::Closed ==> sink_closed(old(self)@, final(self)@, r),
    {
        if self.closed() {
            return Ok(());
        }
        self.state = StreamState::Closed;
        if self.writer.capabilities().close && self.closefd {
            match self.writer.close() {
                Ok(()) => {},
                Err(e) => {
                    return Err(ZstdError::Io(e));
                },
            }
        }
        Ok(())
    }

    /// The bytes the context holds at the moment.
    pub fn memory_size(&self) -> usize {
        self.dctx.memory_size()
    }

    /// The sink's file number, or `MissingCapability` for a sink that showed
    /// none when the writer was made.
    pub fn fileno(&self) -> (r: Result<i64, ZstdError>)
        ensures
            !self@.config.capabilities.fileno ==> r == Err::<i64, ZstdError>(
                ZstdError::MissingCapability(Capability::Fileno),
            ),
            self@.config.capabilities.fileno ==> (r is Ok || r matches Err(ZstdError::Io(_))),
    {
        if self.writer.capabilities().fileno {
            match self.writer.fileno() {
                Ok(n) => Ok(n),
                Err(e) => Err(ZstdError::Io(e)),
            }
        } else {
            Err(ZstdError::MissingCapability(Capability::Fileno))
        }
    }

    /// Whether the writer is closed.
    pub fn closed(&self) -> (c: bool)
        ensures
            c == (self@.state == StreamState::Closed),
    {
        match self.state {
            StreamState::Closed => true,
            _ => false,
        }
    }

    /// The number of decompressed bytes that the sink has got.
    pub fn tell(&self) -> (n: usize)
        requires
            self.wf(),
        ensures
            n == self@.sink.delivered().len(),
    {
        self.bytes_decompressed
    }

    /// A writer can be written to.
    pub fn writable(&self) -> (b: bool)
        ensures
            b,
    {
        true
    }

    /// A writer cannot be read from.
    pub fn readable(&self) -> (b: bool)
        ensures
            !b,
    {
        false
    }

    /// A writer cannot seek.
    pub fn seekable(&self) -> (b: bool)
        ensures
            !b,
    {
        false
    }

    /// Not supported, in any state.
    pub fn read(&self, size: Option<isize>) -> (r: Result<(), ZstdError>)
        ensures
            r == Err::<(), ZstdError>(ZstdError::UnsupportedOperation),
    {
        Err(ZstdError::UnsupportedOperation)
    }

    /// Not supported, in any state.
    pub fn seek(&self, pos: isize, whence: Option<i32>) -> (r: Result<(), ZstdError>)
        ensures
            r == Err::<(), ZstdError>(ZstdError::UnsupportedOperation),
    {
        Err(ZstdError::UnsupportedOperation)
    }

    /// The sink, to look at.
    pub fn get_ref(&self) -> (w: &W)
        ensures
            *w == self.sink(),
    {
        self.writer.get_ref()
    }

    /// The context and the sink, out of the writer.
    pub fn into_parts(self) -> (parts: (DCtx<'static>, W))
        ensures
            parts.0@ == self@.engine,
            parts.1 == self.sink(),
    {
        (self.dctx, self.writer.into_inner())
    }
}

} // verus!
