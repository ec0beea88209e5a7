use zstandard::compression_writer::{ZstdCompressionWriter, FLUSH_FRAME};
use zstandard::decompressor::{ZstdDecompressor, FORMAT_ZSTD1};
use zstandard::engine::CCtx;
use zstandard::error::{
    Capability, ConfigurationIssue, ErrorKind, IoError, StateIssue, ZstdError,
};
use zstandard::io::{MemorySink, MemorySource, Sink, SinkCapabilities, Source};

fn content(len: usize, seed: u32) -> Vec<u8> {
    let mut data = Vec::with_capacity(len);
    let mut x = seed;
    for i in 0..len {
        x = x.wrapping_mul(1664525).wrapping_add(1013904223);
        data.push(if i % 5 == 0 { (x >> 24) as u8 } else { b'A' + (i % 13) as u8 });
    }
    data
}

fn compressed(data: &[u8]) -> Vec<u8> {
    let mut out = vec![0u8; zstd_safe::compress_bound(data.len())];
    let n = zstd_safe::compress(&mut out[..], data, 3).unwrap();
    out.truncate(n);
    out
}

fn fresh() -> ZstdDecompressor {
    ZstdDecompressor::new(None, 0, FORMAT_ZSTD1).unwrap()
}

/// A sink that takes `room` writes and fails from then on, and that can
/// neither be flushed nor closed.
struct Brittle {
    room: usize,
    taken: Vec<u8>,
    flushes: usize,
    closes: usize,
}

impl Sink for Brittle {
    fn capabilities(&self) -> SinkCapabilities {
        SinkCapabilities { flush: false, close: false, fileno: true }
    }

    fn write(&mut self, data: &[u8]) -> Result<(), IoError> {
        if self.room == 0 {
            return Err(IoError { code: 28 });
        }
        self.room -= 1;
        self.taken.extend_from_slice(data);
        Ok(())
    }

    fn flush(&mut self) -> Result<(), IoError> {
        self.flushes += 1;
        Ok(())
    }

    fn close(&mut self) -> Result<(), IoError> {
        self.closes += 1;
        Ok(())
    }

    fn fileno(&self) -> Result<i64, IoError> {
        Ok(7)
    }
}

/// A source that gives out a list of chunks, one a read, whatever is asked for.
struct Chunks {
    chunks: Vec<Vec<u8>>,
    next: usize,
    closes: usize,
}

impl Source for Chunks {
    fn read(&mut self, _max_bytes: usize) -> Result<Vec<u8>, IoError> {
        if self.next < self.chunks.len() {
            self.next += 1;
            Ok(self.chunks[self.next - 1].clone())
        } else {
            Ok(Vec::new())
        }
    }

    fn close(&mut self) -> Result<(), IoError> {
        self.closes += 1;
        Ok(())
    }
}

#[test]
fn decompression_writer_round_trip() {
    let data = content(200_000, 1);
    let frame = compressed(&data);
    let mut w = fresh().stream_writer(MemorySink::new(), Some(4096), true, true).unwrap();
    for piece in frame.chunks(333) {
        assert_eq!(w.write(piece), Ok(piece.len()));
    }
    assert_eq!(w.tell(), data.len());
    assert_eq!(w.get_ref().contents(), data);
    assert_eq!(w.flush(), Ok(()));
    assert_eq!(w.get_ref().flushes, 1);
    assert_eq!(w.close(), Ok(()));
    assert_eq!(w.get_ref().closes, 1);
    assert_eq!(w.get_ref().flushes, 1);
    assert!(w.closed());
    assert_eq!(w.write(b"x"), Err(ZstdError::State(StateIssue::Closed)));
    assert_eq!(w.flush(), Err(ZstdError::State(StateIssue::Closed)));
    assert_eq!(w.close(), Ok(()));
    assert_eq!(w.get_ref().closes, 1);
}

#[test]
fn decompression_writer_returns_bytes_passed_on_when_asked_to() {
    let data = content(50_000, 2);
    let frame = compressed(&data);
    let mut w = fresh().stream_writer(MemorySink::new(), None, false, false).unwrap();
    assert_eq!(w.write(&frame), Ok(data.len()));
    assert_eq!(w.close(), Ok(()));
    assert_eq!(w.get_ref().closes, 0);
}

#[test]
fn decompression_writer_scope() {
    let mut w = fresh().stream_writer(MemorySink::new(), None, true, true).unwrap();
    assert_eq!(w.enter(), Ok(()));
    assert_eq!(w.enter(), Err(ZstdError::State(StateIssue::AlreadyEntered)));
    assert_eq!(w.exit(), Ok(false));
    assert!(w.closed());
    assert_eq!(w.enter(), Err(ZstdError::State(StateIssue::Closed)));
    assert_eq!(w.read(None), Err(ZstdError::UnsupportedOperation));
    assert_eq!(w.seek(0, None), Err(ZstdError::UnsupportedOperation));
    assert!(w.writable() && !w.readable() && !w.seekable());
    assert_eq!(w.fileno(), Err(ZstdError::MissingCapability(Capability::Fileno)));
}

#[test]
fn decompression_writer_passes_sink_failure_on() {
    let data = content(100_000, 3);
    let frame = compressed(&data);
    let sink = Brittle { room: 2, taken: Vec::new(), flushes: 0, closes: 0 };
    let mut w = fresh().stream_writer(sink, Some(1000), true, true).unwrap();
    assert_eq!(w.write(&frame), Err(ZstdError::Io(IoError { code: 28 })));
    assert_eq!(w.tell(), 2000);
    assert_eq!(w.get_ref().taken, data[..2000].to_vec());
    assert_eq!(w.fileno(), Ok(7));
    // A sink that cannot be flushed or closed is left alone.
    assert_eq!(w.flush(), Ok(()));
    assert_eq!(w.close(), Ok(()));
    assert_eq!(w.get_ref().flushes, 0);
    assert_eq!(w.get_ref().closes, 0);
}

#[test]
fn compression_writer_is_closed_even_when_its_last_flush_fails() {
    let data = content(100_000, 4);
    let sink = Brittle { room: 0, taken: Vec::new(), flushes: 0, closes: 0 };
    let cctx = CCtx::new().unwrap();
    let mut w = ZstdCompressionWriter::new(cctx, sink, 0, 1 << 20, true, true).unwrap();
    // The engine keeps this much to itself, so the sink is not asked yet.
    assert_eq!(w.write(&data[..1000]), Ok(1000));
    let e = w.close().unwrap_err();
    assert_eq!(e, ZstdError::Io(IoError { code: 28 }));
    assert_eq!(e.kind(), ErrorKind::Io);
    assert!(w.closed());
    assert_eq!(w.close(), Ok(()));
    assert_eq!(w.write(b"more"), Err(ZstdError::State(StateIssue::Closed)));
    assert_eq!(w.flush(FLUSH_FRAME), Err(ZstdError::State(StateIssue::Closed)));
    assert_eq!(w.tell(), 0);
}

#[test]
fn reader_gives_the_content_in_pieces() {
    let data = content(100_000, 5);
    let frame = compressed(&data);
    let mut r = fresh().stream_reader(MemorySource::new(frame), Some(700), false, true).unwrap();
    let mut got = Vec::new();
    loop {
        let piece = r.read(4096).unwrap();
        if piece.is_empty() {
            break;
        }
        assert!(piece.len() <= 4096);
        got.extend_from_slice(&piece);
        assert_eq!(r.tell(), got.len());
    }
    assert_eq!(got, data);
    assert_eq!(r.read(10), Ok(Vec::new()));
    assert_eq!(r.read(0), Ok(Vec::new()));
}

#[test]
fn reader_stops_at_the_end_of_a_frame_unless_told_to_go_on() {
    let first = content(3000, 6);
    let second = content(2000, 7);
    let mut both = compressed(&first);
    both.extend_from_slice(&compressed(&second));

    let mut r =
        fresh().stream_reader(MemorySource::new(both.clone()), None, false, true).unwrap();
    assert_eq!(r.read(100_000), Ok(first.clone()));
    assert_eq!(r.read(100_000), Ok(Vec::new()));
    assert_eq!(r.tell(), first.len());

    let mut r = fresh().stream_reader(MemorySource::new(both), None, true, true).unwrap();
    let mut all = first.clone();
    all.extend_from_slice(&second);
    assert_eq!(r.read(100_000), Ok(all));
    assert_eq!(r.read(100_000), Ok(Vec::new()));
}

#[test]
fn reader_fills_a_read_from_several_chunks_of_the_source() {
    let data = content(30_000, 8);
    let frame = compressed(&data);
    let third = frame.len() / 3;
    let source = Chunks {
        chunks: vec![
            frame[..third].to_vec(),
            frame[third..2 * third].to_vec(),
            frame[2 * third..].to_vec(),
        ],
        next: 0,
        closes: 0,
    };
    let mut r = fresh().stream_reader(source, Some(1), false, true).unwrap();
    assert_eq!(r.read(30_000), Ok(data));
    assert_eq!(r.get_ref().next, 3);
}

#[test]
fn reader_scope_and_close() {
    let source = Chunks { chunks: vec![], next: 0, closes: 0 };
    let mut r = fresh().stream_reader(source, None, false, true).unwrap();
    assert_eq!(r.enter(), Ok(()));
    assert_eq!(r.enter(), Err(ZstdError::State(StateIssue::AlreadyEntered)));
    assert_eq!(r.exit(), Ok(false));
    assert!(r.closed());
    assert_eq!(r.get_ref().closes, 1);
    assert_eq!(r.close(), Ok(()));
    assert_eq!(r.get_ref().closes, 1);
    assert_eq!(r.read(10), Err(ZstdError::State(StateIssue::Closed)));
    assert_eq!(r.enter(), Err(ZstdError::State(StateIssue::Closed)));
    assert_eq!(r.write(b"x"), Err(ZstdError::UnsupportedOperation));
    assert!(r.readable() && !r.writable() && !r.seekable());

    let source = Chunks { chunks: vec![], next: 0, closes: 0 };
    let mut r = fresh().stream_reader(source, None, false, false).unwrap();
    assert_eq!(r.close(), Ok(()));
    assert_eq!(r.get_ref().closes, 0);
}

#[test]
fn reader_of_rubbish_is_a_codec_error() {
    let source = MemorySource::new(b"nothing that the engine knows".to_vec());
    let mut r = fresh().stream_reader(source, None, false, true).unwrap();
    let e = r.read(100).unwrap_err();
    assert_eq!(e.kind(), ErrorKind::Codec);
    assert_eq!(e.frame(), None);
}

#[test]
fn handles_are_checked_before_anything_is_set_up() {
    assert_eq!(
        fresh().decompressobj(Some(0)).err(),
        Some(ZstdError::Configuration(ConfigurationIssue::WriteSizeNotPositive))
    );
    let obj = fresh().decompressobj(Some(512)).unwrap();
    assert_eq!(obj.write_size(), 512);
    assert!(fresh().decompressobj(None).unwrap().write_size() > 0);

    let source = MemorySource::new(Vec::new());
    assert_eq!(
        fresh().read_to_iter(source, Some(10), None, Some(10)).err(),
        Some(ZstdError::Configuration(ConfigurationIssue::SkipBytesNotBelowReadSize))
    );
    let source = MemorySource::new(Vec::new());
    let it = fresh().read_to_iter(source, Some(10), Some(20), Some(9)).unwrap();
    assert_eq!((it.read_size(), it.write_size(), it.skip_bytes()), (10, 20, 9));
    let source = MemorySource::new(Vec::new());
    let it = fresh().read_to_iter(source, None, None, None).unwrap();
    assert_eq!(it.skip_bytes(), 0);
    assert!(it.read_size() > 0 && it.write_size() > 0);
}

#[test]
fn copy_stream_over_three_chunks() {
    let data = content(40_000, 9);
    let frame = compressed(&data);
    let (a, rest) = frame.split_at(frame.len() / 4);
    let (b, c) = rest.split_at(rest.len() / 2);
    let source = Chunks { chunks: vec![a.to_vec(), b.to_vec(), c.to_vec()], next: 0, closes: 0 };
    let mut source = zstandard::io::Inlet::new(source);
    let mut sink = zstandard::io::Outlet::new(MemorySink::new());
    let mut d = fresh();
    let r = d.copy_stream(&mut source, &mut sink, None, Some(5000));
    assert_eq!(r, Ok((a.len() + b.len() + c.len(), data.len())));
    assert_eq!(sink.get_ref().contents(), data);
    assert_eq!(source.get_ref().closes, 0);
    // The source was asked once more, and gave nothing.
    assert_eq!(source.get_ref().next, 3);
}

#[test]
fn copy_stream_passes_failures_of_the_sink_on() {
    let data = content(40_000, 10);
    let frame = compressed(&data);
    let mut source = zstandard::io::Inlet::new(MemorySource::new(frame));
    let sink = Brittle { room: 3, taken: Vec::new(), flushes: 0, closes: 0 };
    let mut sink = zstandard::io::Outlet::new(sink);
    let mut d = fresh();
    let r = d.copy_stream(&mut source, &mut sink, Some(100), Some(100));
    assert_eq!(r, Err(ZstdError::Io(IoError { code: 28 })));
    assert_eq!(sink.get_ref().taken, data[..300].to_vec());
}

#[test]
fn pledged_size_is_refused_in_the_middle_of_a_frame() {
    let cctx = CCtx::new().unwrap();
    let mut w = ZstdCompressionWriter::new(cctx, MemorySink::new(), 0, 100, true, true).unwrap();
    w.write(b"the frame is under way").unwrap();
    let (cctx, _) = w.into_parts();
    let r = ZstdCompressionWriter::new(cctx, MemorySink::new(), 5, 100, true, true);
    match r {
        Ok(_) => panic!("a size was declared in the middle of a frame"),
        Err(e) => {
            assert!(matches!(
                e,
                ZstdError::Codec { stage: zstandard::error::Stage::SetPledgedSize, frame: None, .. }
            ));
            assert!(!e.diagnostic().unwrap().is_empty());
        }
    }
}

#[test]
fn broken_dictionary_is_refused_when_it_is_loaded() {
    // The magic number of a dictionary, and nothing behind it that holds.
    let mut dict = vec![0x37, 0xA4, 0x30, 0xEC];
    dict.extend_from_slice(&[0xFF; 64]);
    let mut d = ZstdDecompressor::new(Some(dict), 0, FORMAT_ZSTD1).unwrap();
    let e = d.decompress(&compressed(b"abc"), 0).unwrap_err();
    assert!(matches!(
        e,
        ZstdError::Codec { stage: zstandard::error::Stage::LoadDictionary, frame: None, .. }
    ));
    // A chain does not load it.
    assert_eq!(d.decompress_content_dict_chain(&vec![compressed(b"abc")]), Ok(b"abc".to_vec()));
}

#[test]
fn frame_that_declares_more_than_there_is_room_for() {
    // A header that declares 2^62 bytes, in a single segment.
    let mut frame = vec![0x28, 0xB5, 0x2F, 0xFD, 0xE0];
    frame.extend_from_slice(&(1u64 << 62).to_le_bytes());
    frame.extend_from_slice(&[0x01, 0x00, 0x00]);
    assert_eq!(zstandard::engine::frame_content_size(&frame), Ok(Some(1 << 62)));
    let mut d = fresh();
    assert_eq!(d.decompress(&frame, 0), Err(ZstdError::OutOfMemory));
    assert_eq!(d.decompress_content_dict_chain(&vec![frame]), Err(ZstdError::OutOfMemory));
}

/// A sink that refuses every write, and counts what else it is asked.
struct Deaf {
    writes: usize,
    flushes: usize,
    closes: usize,
    close_fails: bool,
}

impl Sink for Deaf {
    fn capabilities(&self) -> SinkCapabilities {
        SinkCapabilities { flush: true, close: true, fileno: false }
    }

    fn write(&mut self, _data: &[u8]) -> Result<(), IoError> {
        self.writes += 1;
        Err(IoError { code: 5 })
    }

    fn flush(&mut self) -> Result<(), IoError> {
        self.flushes += 1;
        Ok(())
    }

    fn close(&mut self) -> Result<(), IoError> {
        self.closes += 1;
        if self.close_fails {
            Err(IoError { code: 9 })
        } else {
            Ok(())
        }
    }

    fn fileno(&self) -> Result<i64, IoError> {
        Err(IoError { code: 0 })
    }
}

#[test]
fn close_closes_the_sink_it_owns_although_the_last_flush_failed() {
    let sink = Deaf { writes: 0, flushes: 0, closes: 0, close_fails: false };
    let cctx = CCtx::new().unwrap();
    let mut w = ZstdCompressionWriter::new(cctx, sink, 0, 1 << 16, true, true).unwrap();
    assert_eq!(w.write(b"kept by the engine for now"), Ok(26));
    assert_eq!(w.get_ref().writes, 0);
    // The failure of the flush is what is returned, once.
    assert_eq!(w.close(), Err(ZstdError::Io(IoError { code: 5 })));
    assert!(w.closed());
    assert_eq!(w.get_ref().writes, 1);
    assert_eq!(w.get_ref().closes, 1);
    assert_eq!(w.get_ref().flushes, 0);
    assert_eq!(w.close(), Ok(()));
    assert_eq!(w.get_ref().closes, 1);
    assert_eq!(w.write(b"x"), Err(ZstdError::State(StateIssue::Closed)));
}

#[test]
fn close_returns_the_failure_of_the_flush_before_that_of_the_sink_s_close() {
    let sink = Deaf { writes: 0, flushes: 0, closes: 0, close_fails: true };
    let cctx = CCtx::new().unwrap();
    let mut w = ZstdCompressionWriter::new(cctx, sink, 0, 1 << 16, true, true).unwrap();
    w.write(b"something").unwrap();
    assert_eq!(w.close(), Err(ZstdError::Io(IoError { code: 5 })));
    assert_eq!(w.get_ref().closes, 1);
    assert!(w.closed());
}

#[test]
fn close_does_not_close_a_sink_it_does_not_own() {
    let sink = Deaf { writes: 0, flushes: 0, closes: 0, close_fails: false };
    let cctx = CCtx::new().unwrap();
    let mut w = ZstdCompressionWriter::new(cctx, sink, 0, 1 << 16, true, false).unwrap();
    w.write(b"something").unwrap();
    assert_eq!(w.close(), Err(ZstdError::Io(IoError { code: 5 })));
    assert_eq!(w.get_ref().closes, 0);
    assert!(w.closed());
}

#[test]
fn chain_of_two_raw_frames_gives_the_second() {
    let a = b"\x28\xb5\x2f\xfd\x20\x01\x09\x00\x00\x61".to_vec();
    let b = b"\x28\xb5\x2f\xfd\x20\x01\x09\x00\x00\x62".to_vec();
    let mut d = fresh();
    assert_eq!(d.decompress(&a, 0), Ok(b"a".to_vec()));
    assert_eq!(d.decompress_content_dict_chain(&vec![a.clone(), b.clone()]), Ok(b"b".to_vec()));
    assert_eq!(d.decompress_content_dict_chain(&vec![b.clone(), a.clone()]), Ok(b"a".to_vec()));
    assert_eq!(d.decompress_content_dict_chain(&vec![b.clone()]), d.decompress(&b, 0));
}

#[test]
fn copy_of_a_source_that_is_empty_touches_nothing() {
    let source = Chunks { chunks: vec![], next: 0, closes: 0 };
    let mut source = zstandard::io::Inlet::new(source);
    let sink = Deaf { writes: 0, flushes: 0, closes: 0, close_fails: false };
    let mut sink = zstandard::io::Outlet::new(sink);
    let mut d = fresh();
    assert_eq!(d.copy_stream(&mut source, &mut sink, None, None), Ok((0, 0)));
    let sink = sink.into_inner();
    assert_eq!((sink.writes, sink.flushes, sink.closes), (0, 0, 0));
}

/// A source that counts how often it is read, and what it was asked for.
struct Counted {
    chunks: Vec<Vec<u8>>,
    reads: usize,
    asked: Vec<usize>,
}

impl Source for Counted {
    fn read(&mut self, max_bytes: usize) -> Result<Vec<u8>, IoError> {
        self.asked.push(max_bytes);
        self.reads += 1;
        if self.reads <= self.chunks.len() {
            Ok(self.chunks[self.reads - 1].clone())
        } else {
            Ok(Vec::new())
        }
    }

    fn close(&mut self) -> Result<(), IoError> {
        Ok(())
    }
}

#[test]
fn copy_reads_no_more_once_the_engine_has_failed() {
    let data = content(20_000, 21);
    let frame = compressed(&data);
    let source = Counted {
        chunks: vec![
            frame.clone(),
            b"what follows is no frame of any kind".to_vec(),
            frame.clone(),
        ],
        reads: 0,
        asked: Vec::new(),
    };
    let mut source = zstandard::io::Inlet::new(source);
    let mut sink = zstandard::io::Outlet::new(MemorySink::new());
    let mut d = fresh();
    let e = d.copy_stream(&mut source, &mut sink, Some(77), Some(1000)).unwrap_err();
    assert_eq!(e.kind(), ErrorKind::Codec);
    assert_eq!(source.get_ref().reads, 2);
    assert_eq!(source.get_ref().asked, vec![77, 77]);
    // What went to the sink before the failure stays there.
    assert_eq!(sink.get_ref().contents(), data);
}

#[test]
fn reader_asks_the_source_for_what_it_was_made_to_ask_for() {
    let data = content(5000, 22);
    let frame = compressed(&data);
    let source = Counted { chunks: vec![frame], reads: 0, asked: Vec::new() };
    let mut r = fresh().stream_reader(source, Some(123), true, true).unwrap();
    assert_eq!(r.read(10_000), Ok(data));
    assert_eq!(r.get_ref().asked, vec![123, 123]);
}

/// A sink that keeps the order of what it is asked.
struct Ordered {
    calls: Vec<&'static str>,
}

impl Sink for Ordered {
    fn capabilities(&self) -> SinkCapabilities {
        SinkCapabilities { flush: true, close: true, fileno: false }
    }

    fn write(&mut self, _data: &[u8]) -> Result<(), IoError> {
        self.calls.push("write");
        Ok(())
    }

    fn flush(&mut self) -> Result<(), IoError> {
        self.calls.push("flush");
        Ok(())
    }

    fn close(&mut self) -> Result<(), IoError> {
        self.calls.push("close");
        Ok(())
    }

    fn fileno(&self) -> Result<i64, IoError> {
        Err(IoError { code: 0 })
    }
}

#[test]
fn close_asks_the_sink_to_close_after_the_last_write_and_does_not_flush_it() {
    let cctx = CCtx::new().unwrap();
    let sink = Ordered { calls: Vec::new() };
    let mut w = ZstdCompressionWriter::new(cctx, sink, 0, 64, true, true).unwrap();
    w.write(&content(5000, 31)).unwrap();
    w.close().unwrap();
    let calls = &w.get_ref().calls;
    assert!(calls.len() > 2);
    assert_eq!(calls.last(), Some(&"close"));
    assert_eq!(calls.iter().filter(|c| **c == "close").count(), 1);
    assert!(calls[..calls.len() - 1].iter().all(|c| *c == "write"));
}

#[test]
fn flush_flushes_the_sink_after_the_last_write() {
    let cctx = CCtx::new().unwrap();
    let sink = Ordered { calls: Vec::new() };
    let mut w = ZstdCompressionWriter::new(cctx, sink, 0, 64, true, true).unwrap();
    w.write(&content(5000, 32)).unwrap();
    w.flush(FLUSH_FRAME).unwrap();
    let calls = &w.get_ref().calls;
    assert_eq!(calls.last(), Some(&"flush"));
    assert!(calls[..calls.len() - 1].iter().all(|c| *c == "write"));
}

#[test]
fn write_that_the_engine_refuses_ends_at_once_and_leaves_the_writer_open() {
    let cctx = CCtx::new().unwrap();
    let mut w = ZstdCompressionWriter::new(cctx, MemorySink::new(), 4, 64, true, true).unwrap();
    let e = w.write(&content(500_000, 33)).unwrap_err();
    assert_eq!(e.kind(), ErrorKind::Codec);
    assert!(!w.closed());
    assert_eq!(w.tell(), w.get_ref().contents().len());
    let chunks = w.get_ref().chunks.len();
    // The engine stays as the failure left it: nothing more goes to the sink.
    assert_eq!(w.write(b"more").unwrap_err().kind(), ErrorKind::Codec);
    assert_eq!(w.get_ref().chunks.len(), chunks);
}

#[test]
fn reader_of_a_source_that_gives_nothing() {
    let source = Counted { chunks: vec![], reads: 0, asked: Vec::new() };
    let mut r = fresh().stream_reader(source, Some(50), false, true).unwrap();
    assert_eq!(r.read(100), Ok(Vec::new()));
    assert_eq!(r.get_ref().reads, 1);
    // The end of the input is known by now: the source is not asked again.
    assert_eq!(r.read(100), Ok(Vec::new()));
    assert_eq!(r.get_ref().reads, 1);
    assert_eq!(r.tell(), 0);
}

#[test]
fn reader_gives_out_what_the_engine_still_holds_when_the_source_is_used_up() {
    let data = content(9000, 34);
    let frame = compressed(&data);
    let source = Counted { chunks: vec![frame], reads: 0, asked: Vec::new() };
    let mut r = fresh().stream_reader(source, Some(1 << 20), true, true).unwrap();
    let mut got = Vec::new();
    for _ in 0..9 {
        let piece = r.read(1000).unwrap();
        assert_eq!(piece.len(), 1000);
        got.extend_from_slice(&piece);
    }
    assert_eq!(r.read(1000), Ok(Vec::new()));
    assert_eq!(got, data);
}

#[test]
fn writers_with_a_buffer_of_no_bytes_can_always_be_made() {
    let cctx = CCtx::new().unwrap();
    assert!(ZstdCompressionWriter::new(cctx, MemorySink::new(), 0, 0, true, true).is_ok());
    assert!(fresh().stream_writer(MemorySink::new(), Some(0), true, true).is_ok());
}
