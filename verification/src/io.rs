//! Sinks and sources: what a stream writes to and reads from. A collaborator
//! is any type with the trait; the `Outlet` and the `Inlet` put one in a frame
//! that records each call that it answered with success.

use vstd::prelude::*;
use crate::error::IoError;

verus! {

/// The members a sink may lack.
#[derive(Clone, Copy, Debug, PartialEq, Eq, Structural)]
pub struct SinkCapabilities {
    pub flush: bool,
    pub close: bool,
    pub fileno: bool,
}

/// Something that takes bytes.
pub trait Sink {
    /// Which of the optional members the sink has.
    fn capabilities(&self) -> SinkCapabilities;

    /// Takes `data`, all of it or none.
    fn write(&mut self, data: &[u8]) -> Result<(), IoError>;

    fn flush(&mut self) -> Result<(), IoError>;

    fn close(&mut self) -> Result<(), IoError>;

    fn fileno(&self) -> Result<i64, IoError>;
}

/// Something that gives bytes.
pub trait Source {
    /// The next bytes, `max_bytes` of them at most; none when the source is
    /// exhausted.
    fn read(&mut self, max_bytes: usize) -> Result<Vec<u8>, IoError>;

    fn close(&mut self) -> Result<(), IoError>;
}

/// What an outlet has passed on: the calls that its sink answered with
/// success, and how many it answered with failure.
pub struct OutletLog {
    /// The payload of each write, in order.
    pub chunks: Seq<Seq<u8>>,
    /// The number of flushes.
    pub flushes: nat,
    /// The number of closes.
    pub closes: nat,
    /// The number of calls that the sink answered with failure.
    pub failures: nat,
    /// For each time that the sink was asked to close, whatever it answered:
    /// the number of chunks that it had got by then.
    pub close_calls: Seq<nat>,
    /// For each time that the sink was asked to flush, whatever it answered:
    /// the number of chunks that it had got by then.
    pub flush_calls: Seq<nat>,
}

impl OutletLog {
    pub open spec fn empty() -> OutletLog {
        OutletLog {
            chunks: Seq::empty(),
            flushes: 0,
            closes: 0,
            failures: 0,
            close_calls: Seq::empty(),
            flush_calls: Seq::empty(),
        }
    }

    /// All the bytes passed on, in order.
    pub open spec fn delivered(self) -> Seq<u8> {
        self.chunks.flatten()
    }

    /// Whether this record can be a later one of the outlet that had `before`:
    /// nothing of `before` is lost.
    pub open spec fn continues(self, before: OutletLog) -> bool {
        &&& before.chunks.len() <= self.chunks.len()
        &&& self.chunks.take(before.chunks.len() as int) == before.chunks
        &&& before.flushes <= self.flushes
        &&& before.closes <= self.closes
        &&& before.failures <= self.failures
    }

    /// The chunks passed on after `before`.
    pub open spec fn chunks_since(self, before: OutletLog) -> Seq<Seq<u8>> {
        self.chunks.skip(before.chunks.len() as int)
    }
}

/// A sink with the record of what was passed on to it. Every call on the sink
/// goes through here.
pub struct Outlet<W: Sink> {
    sink: W,
    caps: SinkCapabilities,
    log: Ghost<OutletLog>,
}

impl<W: Sink> View for Outlet<W> {
    type V = OutletLog;

    closed spec fn view(&self) -> OutletLog {
        self.log@
    }
}

impl<W: Sink> Outlet<W> {
    /// The capabilities that the sink showed when the outlet was made.
    pub closed spec fn spec_capabilities(&self) -> SinkCapabilities {
        self.caps
    }

    /// The sink as it stands.
    pub closed spec fn sink(&self) -> W {
        self.sink
    }

    /// Puts `sink` in an outlet, and asks it once for its capabilities.
    pub fn new(sink: W) -> (o: Outlet<W>)
        ensures
            o@ == OutletLog::empty(),
            o.sink() == sink,
    {
        let caps = sink.capabilities();
        Outlet { sink, caps, log: Ghost(OutletLog::empty()) }
    }

    #[verifier::when_used_as_spec(spec_capabilities)]
    pub fn capabilities(&self) -> (c: SinkCapabilities)
        ensures
            c == self.spec_capabilities(),
    {
        self.caps
    }

    /// Writes `data` to the sink. The record gets the chunk if the sink took it.
    pub fn write(&mut self, data: &[u8]) -> (r: Result<(), IoError>)
        ensures
            final(self).spec_capabilities() == old(self).spec_capabilities(),
            r is Ok ==> final(self)@ == (OutletLog { chunks: old(self)@.chunks.push(data@), ..old(self)@ }),
            r is Err ==> final(self)@ == (OutletLog { failures: old(self)@.failures + 1, ..old(self)@ }),
    {
        let r = self.sink.write(data);
        proof {
            if r is Ok {
                self.log@ = OutletLog { chunks: self.log@.chunks.push(data@), ..self.log@ };
            } else {
                self.log@ = OutletLog { failures: self.log@.failures + 1, ..self.log@ };
            }
        }
        r
    }

    /// Flushes the sink. The record notes how many chunks the sink had got
    /// when it was asked.
    pub fn flush(&mut self) -> (r: Result<(), IoError>)
        ensures
            final(self).spec_capabilities() == old(self).spec_capabilities(),
            r is Ok ==> final(self)@ == (OutletLog {
                flushes: old(self)@.flushes + 1,
                flush_calls: old(self)@.flush_calls.push(old(self)@.chunks.len()),
                ..old(self)@
            }),
            r is Err ==> final(self)@ == (OutletLog {
                failures: old(self)@.failures + 1,
                flush_calls: old(self)@.flush_calls.push(old(self)@.chunks.len()),
                ..old(self)@
            }),
    {
        let r = self.sink.flush();
        proof {
            let flush_calls = self.log@.flush_calls.push(self.log@.chunks.len());
            if r is Ok {
                self.log@ = OutletLog { flushes: self.log@.flushes + 1, flush_calls, ..self.log@ };
            } else {
                self.log@ = OutletLog {
                    failures: self.log@.failures + 1,
                    flush_calls,
                    ..self.log@
                };
            }
        }
        r
    }

    /// Closes the sink. The record notes how many chunks the sink had got
    /// when it was asked.
    pub fn close(&mut self) -> (r: Result<(), IoError>)
        ensures
            final(self).spec_capabilities() == old(self).spec_capabilities(),
            r is Ok ==> final(self)@ == (OutletLog {
                closes: old(self)@.closes + 1,
                close_calls: old(self)@.close_calls.push(old(self)@.chunks.len()),
                ..old(self)@
            }),
            r is Err ==> final(self)@ == (OutletLog {
                failures: old(self)@.failures + 1,
                close_calls: old(self)@.close_calls.push(old(self)@.chunks.len()),
                ..old(self)@
            }),
    {
        let r = self.sink.close();
        proof {
            let close_calls = self.log@.close_calls.push(self.log@.chunks.len());
            if r is Ok {
                self.log@ = OutletLog { closes: self.log@.closes + 1, close_calls, ..self.log@ };
            } else {
                self.log@ = OutletLog {
                    failures: self.log@.failures + 1,
                    close_calls,
                    ..self.log@
                };
            }
        }
        r
    }

    /// The sink's file number, as the sink gives it.
    pub fn fileno(&self) -> Result<i64, IoError> {
        self.sink.fileno()
    }

    /// The sink, to look at.
    pub fn get_ref(&self) -> (w: &W)
        ensures
            *w == self.sink(),
    {
        &self.sink
    }

    /// The sink, out of its outlet.
    pub fn into_inner(self) -> (w: W)
        ensures
            w == self.sink(),
    {
        self.sink
    }
}

/// Whether the reads that `after` has and `before` has not are `reads` in
/// number, and all asked for the same number of bytes at most: for `size`,
/// where there is one.
pub open spec fn asked_for(before: Seq<usize>, after: Seq<usize>, reads: nat, size: Option<usize>) -> bool {
    &&& after.len() == before.len() + reads
    &&& after.take(before.len() as int) == before
    &&& forall|i: int|
        before.len() <= i < after.len() ==> (#[trigger] after[i]) == after[before.len() as int]
            && (size matches Some(n) ==> after[i] == n)
}

/// No read asked for anything.
pub proof fn lemma_asked_nothing(asked: Seq<usize>, size: Option<usize>)
    ensures
        asked_for(asked, asked, 0, size),
{
    assert(asked.take(asked.len() as int) =~= asked);
}

/// One more read that asked for `size`, after reads that all asked for `size`.
pub proof fn lemma_asked_again(
    before: Seq<usize>,
    now: Seq<usize>,
    reads: nat,
    size: usize,
    wanted: Option<usize>,
)
    requires
        asked_for(before, now, reads, Some(size)),
        wanted matches Some(n) ==> size == n,
    ensures
        asked_for(before, now.push(size), reads + 1, Some(size)),
        asked_for(before, now.push(size), reads + 1, wanted),
{
    assert(now.push(size).take(before.len() as int) =~= now.take(before.len() as int));
}

/// A source with the record of what it gave. Every call on the source goes
/// through here.
pub struct Inlet<R: Source> {
    source: R,
    log: Ghost<Seq<Seq<u8>>>,
    closes: Ghost<nat>,
    failures: Ghost<nat>,
    asked: Ghost<Seq<usize>>,
}

impl<R: Source> View for Inlet<R> {
    type V = Seq<Seq<u8>>;

    /// What each read that succeeded gave, in order.
    closed spec fn view(&self) -> Seq<Seq<u8>> {
        self.log@
    }
}

impl<R: Source> Inlet<R> {
    /// The source as it stands.
    pub closed spec fn source(&self) -> R {
        self.source
    }

    /// The number of closes that the source answered with success.
    pub closed spec fn closes(&self) -> nat {
        self.closes@
    }

    /// The number of calls that the source answered with failure.
    pub closed spec fn failures(&self) -> nat {
        self.failures@
    }

    /// How many bytes each read asked for at most, read by read, whatever
    /// came of it.
    pub closed spec fn asked(&self) -> Seq<usize> {
        self.asked@
    }

    /// Puts `source` in an inlet.
    pub fn new(source: R) -> (i: Inlet<R>)
        ensures
            i@ == Seq::<Seq<u8>>::empty(),
            i.closes() == 0,
            i.failures() == 0,
            i.asked() == Seq::<usize>::empty(),
            i.source() == source,
    {
        Inlet {
            source,
            log: Ghost(Seq::empty()),
            closes: Ghost(0),
            failures: Ghost(0),
            asked: Ghost(Seq::empty()),
        }
    }

    /// Reads from the source, asking for `max_bytes` bytes at most. The
    /// record gets what was asked for, and what the source gave.
    pub fn read(&mut self, max_bytes: usize) -> (r: Result<Vec<u8>, IoError>)
        ensures
            final(self).closes() == old(self).closes(),
            final(self).asked() == old(self).asked().push(max_bytes),
            r matches Ok(chunk) ==> final(self)@ == old(self)@.push(chunk@)
                && final(self).failures() == old(self).failures(),
            r is Err ==> final(self)@ == old(self)@
                && final(self).failures() == old(self).failures() + 1,
    {
        let r = self.source.read(max_bytes);
        proof {
            self.asked@ = self.asked@.push(max_bytes);
            if r is Ok {
                self.log@ = self.log@.push(r->Ok_0@);
            } else {
                self.failures@ = self.failures@ + 1;
            }
        }
        r
    }

    /// Closes the source.
    pub fn close(&mut self) -> (r: Result<(), IoError>)
        ensures
            final(self)@ == old(self)@,
            final(self).asked() == old(self).asked(),
            r is Ok ==> final(self).closes() == old(self).closes() + 1 && final(self).failures()
                == old(self).failures(),
            r is Err ==> final(self).closes() == old(self).closes() && final(self).failures()
                == old(self).failures() + 1,
    {
        let r = self.source.close();
        proof {
            if r is Ok {
                self.closes@ = self.closes@ + 1;
            } else {
                self.failures@ = self.failures@ + 1;
            }
        }
        r
    }

    /// The source, to look at.
    pub fn get_ref(&self) -> (s: &R)
        ensures
            *s == self.source(),
    {
        &self.source
    }

    /// The source, out of its inlet.
    pub fn into_inner(self) -> (s: R)
        ensures
            s == self.source(),
    {
        self.source
    }
}

/// The contents of each vector of `chunks`, in order.
pub open spec fn chunk_views(chunks: Seq<Vec<u8>>) -> Seq<Seq<u8>> {
    Seq::new(chunks.len(), |i: int| chunks[i]@)
}

/// A sink in memory: it keeps what it is given, and has every capability.
#[derive(Debug, PartialEq, Eq)]
pub struct MemorySink {
    /// Each write, in order.
    pub chunks: Vec<Vec<u8>>,
    /// The number of flushes; it stops at `usize::MAX`.
    pub flushes: usize,
    /// The number of closes; it stops at `usize::MAX`.
    pub closes: usize,
}

impl MemorySink {
    /// A sink that has been given nothing.
    pub fn new() -> (s: MemorySink)
        ensures
            s.chunks@.len() == 0,
            s.flushes == 0,
            s.closes == 0,
    {
        MemorySink { chunks: Vec::new(), flushes: 0, closes: 0 }
    }

    /// All the bytes written, in order.
    pub open spec fn spec_contents(&self) -> Seq<u8> {
        chunk_views(self.chunks@).flatten()
    }

    /// All the bytes written, in order.
    pub fn contents(&self) -> (all: Vec<u8>)
        ensures
            all@ == self.spec_contents(),
    {
        let mut all: Vec<u8> = Vec::new();
        let mut i: usize = 0;
        while i < self.chunks.len()
            invariant
                i <= self.chunks@.len(),
                all@ == chunk_views(self.chunks@.take(i as int)).flatten(),
            decreases self.chunks@.len() - i,
        {
            let ghost seen = chunk_views(self.chunks@.take(i as int));
            let ghost before = all@;
            all.extend_from_slice(self.chunks[i].as_slice());
            proof {
                let chunk = self.chunks@[i as int]@;
                assert(chunk_views(self.chunks@.take(i + 1)) =~= seen.push(chunk));
                seen.lemma_flatten_push(chunk);
                assert(all@ =~= before + chunk);
            }
            i += 1;
        }
        proof {
            assert(self.chunks@.take(i as int) =~= self.chunks@);
        }
        all
    }
}

impl Sink for MemorySink {
    /// It can be flushed and closed, and has no file number.
    fn capabilities(&self) -> (c: SinkCapabilities)
        ensures
            c == (SinkCapabilities { flush: true, close: true, fileno: false }),
    {
        SinkCapabilities { flush: true, close: true, fileno: false }
    }

    /// Keeps `data` as one more chunk.
    fn write(&mut self, data: &[u8]) -> (r: Result<(), IoError>)
        ensures
            r is Ok,
            chunk_views(final(self).chunks@) == chunk_views(old(self).chunks@).push(data@),
            final(self).spec_contents() == old(self).spec_contents() + data@,
            final(self).flushes == old(self).flushes,
            final(self).closes == old(self).closes,
    {
        self.chunks.push(vstd::slice::slice_to_vec(data));
        proof {
            assert(chunk_views(self.chunks@) =~= chunk_views(old(self).chunks@).push(data@));
            chunk_views(old(self).chunks@).lemma_flatten_push(data@);
        }
        Ok(())
    }

    /// Counts the flush.
    fn flush(&mut self) -> (r: Result<(), IoError>)
        ensures
            r is Ok,
            final(self).chunks == old(self).chunks,
            final(self).closes == old(self).closes,
            final(self).flushes == if old(self).flushes < usize::MAX {
                old(self).flushes + 1
            } else {
                usize::MAX as int
            },
    {
        if self.flushes < usize::MAX {
            self.flushes += 1;
        }
        Ok(())
    }

    /// Counts the close.
    fn close(&mut self) -> (r: Result<(), IoError>)
        ensures
            r is Ok,
            final(self).chunks == old(self).chunks,
            final(self).flushes == old(self).flushes,
            final(self).closes == if old(self).closes < usize::MAX {
                old(self).closes + 1
            } else {
                usize::MAX as int
            },
    {
        if self.closes < usize::MAX {
            self.closes += 1;
        }
        Ok(())
    }

    /// There is no file behind it.
    fn fileno(&self) -> (r: Result<i64, IoError>)
        ensures
            r == Err::<i64, IoError>(IoError { code: 0 }),
    {
        Err(IoError { code: 0 })
    }
}

/// A source in memory: it gives out its bytes from the front.
#[derive(Debug, PartialEq, Eq)]
pub struct MemorySource {
    data: Vec<u8>,
    pos: usize,
}

impl MemorySource {
    /// What is still to be given out.
    pub closed spec fn remaining(&self) -> Seq<u8> {
        if self.pos <= self.data@.len() {
            self.data@.skip(self.pos as int)
        } else {
            Seq::empty()
        }
    }

    /// A source that will give out `data`.
    pub fn new(data: Vec<u8>) -> (s: MemorySource)
        ensures
            s.remaining() == data@,
    {
        MemorySource { data, pos: 0 }
    }

    /// Gives out the next `max_bytes` bytes, or all that is left if that is less.
    pub fn take(&mut self, max_bytes: usize) -> (chunk: Vec<u8>)
        ensures
            chunk@.len() == if max_bytes <= old(self).remaining().len() {
                max_bytes as nat
            } else {
                old(self).remaining().len()
            },
            chunk@ == old(self).remaining().take(chunk@.len() as int),
            final(self).remaining() == old(self).remaining().skip(chunk@.len() as int),
    {
        let len = self.data.len();
        let start = if self.pos <= len { self.pos } else { len };
        let left = len - start;
        let count = if max_bytes <= left { max_bytes } else { left };
        let chunk = vstd::slice::slice_to_vec(
            vstd::slice::slice_subrange(self.data.as_slice(), start, start + count),
        );
        self.pos = start + count;
        proof {
            assert(chunk@ =~= old(self).remaining().take(count as int));
            assert(self.remaining() =~= old(self).remaining().skip(count as int));
        }
        chunk
    }
}

impl Source for MemorySource {
    /// Gives out the next `max_bytes` bytes, or all that is left if that is less.
    fn read(&mut self, max_bytes: usize) -> (r: Result<Vec<u8>, IoError>)
        ensures
            r matches Ok(chunk) && chunk@ == old(self).remaining().take(chunk@.len() as int)
                && chunk@.len() == if max_bytes <= old(self).remaining().len() {
                max_bytes as nat
            } else {
                old(self).remaining().len()
            } && final(self).remaining() == old(self).remaining().skip(chunk@.len() as int),
    {
        Ok(self.take(max_bytes))
    }

    /// There is nothing to close.
    fn close(&mut self) -> (r: Result<(), IoError>)
        ensures
            r is Ok,
            *final(self) == *old(self),
    {
        Ok(())
    }
}

} // verus!
