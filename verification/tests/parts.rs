use zstandard::compression_writer::{
    flush_directive, pledged_size, ZstdCompressionWriter, FLUSH_BLOCK, FLUSH_FRAME,
};
use zstandard::decompressor::{chain_frame_size, frame_format, FORMAT_ZSTD1, FORMAT_ZSTD1_MAGICLESS};
use zstandard::engine::{
    dstream_in_size, dstream_out_size, error_text, frame_content_size, Buffer, CCtx, DCtx,
    EndDirective, Engine, FrameFormat,
};
use zstandard::error::{
    Capability, ConfigurationIssue, ErrorKind, InputIssue, IoError, Stage, StateIssue, ZstdError,
};
use zstandard::io::{Inlet, MemorySink, MemorySource, Outlet, Sink, Source};
use zstandard::pump::{drain, feed, forward};

fn frame(data: &[u8]) -> Vec<u8> {
    let mut out = vec![0u8; zstd_safe::compress_bound(data.len())];
    let n = zstd_safe::compress(&mut out[..], data, 1).unwrap();
    out.truncate(n);
    out
}

#[test]
fn buffer_keeps_its_capacity() {
    let mut b = Buffer::try_with_capacity(16).unwrap();
    assert_eq!((b.len(), b.capacity()), (0, 16));
    assert!(b.as_slice().is_empty());
    b.clear();
    assert_eq!((b.len(), b.capacity()), (0, 16));
    assert_eq!(b.into_vec(), Vec::<u8>::new());
    let b = Buffer::try_with_capacity(1 << 12).unwrap();
    assert_eq!((b.len(), b.capacity()), (0, 1 << 12));
    assert!(Buffer::try_with_capacity(usize::MAX).is_none());
}

#[test]
fn step_reads_its_positions_back() {
    let data = vec![7u8; 5000];
    let compressed = frame(&data);
    let mut dctx = DCtx::new().unwrap();
    let mut out = Buffer::try_with_capacity(1000).unwrap();
    let mut pos = 0;
    let mut got = Vec::new();
    loop {
        let r = dctx.step(&mut out, &compressed, pos, EndDirective::Continue);
        assert!(r.input_pos >= pos && r.input_pos <= compressed.len());
        assert_eq!(r.output_pos, out.len());
        assert!(out.len() <= 1000);
        pos = r.input_pos;
        got.extend_from_slice(out.as_slice());
        if r.status == Ok(0) {
            break;
        }
        assert!(r.status.is_ok());
    }
    assert_eq!(pos, compressed.len());
    assert_eq!(got, data);
    assert!(dctx.memory_size() > 0);
    assert!(dctx.dctx().sizeof() > 0);
}

#[test]
fn step_onto_adds_to_what_is_there() {
    let data: Vec<u8> = (0..3000u32).map(|i| (i % 251) as u8).collect();
    let compressed = frame(&data);
    let half = compressed.len() / 2;
    let mut dctx = DCtx::new().unwrap();
    let mut out = Buffer::try_with_capacity(3000).unwrap();
    let first = dctx.step_onto(&mut out, &compressed[..half], 0);
    assert_eq!(first.input_pos, half);
    let held = out.as_slice().to_vec();
    assert_eq!(first.output_pos, held.len());
    let second = dctx.step_onto(&mut out, &compressed[half..], 0);
    assert_eq!(second.status, Ok(0));
    assert_eq!(second.output_pos, 3000);
    assert_eq!(out.as_slice()[..held.len()].to_vec(), held);
    assert_eq!(out.into_vec(), data);
}

#[test]
fn failed_step_moves_nothing() {
    let mut dctx = DCtx::new().unwrap();
    let mut out = Buffer::try_with_capacity(100).unwrap();
    let rubbish = b"certainly not a frame of any kind";
    let r = dctx.step(&mut out, rubbish, 0, EndDirective::Continue);
    assert!(r.status.is_err());
    assert_eq!((r.input_pos, r.output_pos, out.len()), (0, 0, 0));
    // The context is of no use until its session is reset.
    let good = frame(b"good");
    assert!(dctx.step(&mut out, &good, 0, EndDirective::Continue).status.is_err());
    assert_eq!(dctx.reset_session(), Ok(()));
    let r = dctx.step(&mut out, &good, 0, EndDirective::Continue);
    assert_eq!(r.status, Ok(0));
    assert_eq!(out.as_slice(), b"good");
}

#[test]
fn settings_are_the_engine_s_to_refuse() {
    let mut dctx = DCtx::new().unwrap();
    assert_eq!(dctx.set_window_log_max(20), Ok(()));
    assert!(dctx.set_window_log_max(1).is_err());
    assert_eq!(dctx.set_format(FrameFormat::Zstd1Magicless), Ok(()));
    assert_eq!(dctx.set_format(FrameFormat::Zstd1), Ok(()));
    assert_eq!(dctx.load_dictionary(b"some raw content to lean on"), Ok(()));
    let mut cctx = CCtx::new().unwrap();
    assert_eq!(cctx.set_pledged_source_size(Some(10)), Ok(()));
    assert_eq!(cctx.set_pledged_source_size(None), Ok(()));
    assert!(cctx.memory_size() > 0);
}

#[test]
fn magicless_frames_need_the_magicless_format() {
    let data = b"the same bytes with and without the magic number".to_vec();
    let full = frame(&data);
    let magicless = full[4..].to_vec();
    let mut d =
        zstandard::decompressor::ZstdDecompressor::new(None, 0, FORMAT_ZSTD1_MAGICLESS).unwrap();
    let mut source = Inlet::new(MemorySource::new(magicless));
    let mut sink = Outlet::new(MemorySink::new());
    let (_, written) = d.copy_stream(&mut source, &mut sink, None, None).unwrap();
    assert_eq!(written, data.len());
    assert_eq!(sink.get_ref().contents(), data);
}

#[test]
fn header_tells_the_size() {
    assert_eq!(frame_content_size(&frame(&[1u8; 77])), Ok(Some(77)));
    assert_eq!(frame_content_size(&frame(&[])), Ok(Some(0)));
    assert_eq!(frame_content_size(b"no"), Err(()));
    assert_eq!(frame_content_size(b"not a frame, however long it is"), Err(()));
}

#[test]
fn engine_names_its_errors() {
    let mut dctx = DCtx::new().unwrap();
    let mut out = Buffer::try_with_capacity(10).unwrap();
    let r = dctx.step(&mut out, b"rubbish rubbish", 0, EndDirective::Continue);
    let code = r.status.unwrap_err();
    let words = error_text(code);
    assert!(!words.is_empty());
    assert_ne!(words, error_text(0));
    let e = ZstdError::Codec { stage: Stage::Decompress, code, frame: None };
    assert_eq!(e.diagnostic(), Some(words));
    assert_eq!(ZstdError::OutOfMemory.diagnostic(), None);
    assert!(dstream_in_size() > 0 && dstream_out_size() > 0);
}

#[test]
fn numbers_stand_for_modes_and_formats() {
    assert_eq!(flush_directive(FLUSH_BLOCK), Some(EndDirective::Flush));
    assert_eq!(flush_directive(FLUSH_FRAME), Some(EndDirective::End));
    assert_eq!(flush_directive(2), None);
    assert_eq!(frame_format(FORMAT_ZSTD1), Some(FrameFormat::Zstd1));
    assert_eq!(frame_format(FORMAT_ZSTD1_MAGICLESS), Some(FrameFormat::Zstd1Magicless));
    assert_eq!(frame_format(2), None);
    assert_eq!(pledged_size(0), None);
    assert_eq!(pledged_size(9), Some(9));
}

#[test]
fn chained_frame_has_to_declare_its_size() {
    assert_eq!(chain_frame_size(Ok(Some(0)), 4), Ok(0));
    assert_eq!(chain_frame_size(Ok(Some(99)), 4), Ok(99));
    assert_eq!(
        chain_frame_size(Ok(None), 4),
        Err(ZstdError::InvalidInput { issue: InputIssue::MissingContentSize, frame: Some(4) })
    );
    assert_eq!(
        chain_frame_size(Err(()), 0),
        Err(ZstdError::InvalidInput { issue: InputIssue::UnreadableHeader, frame: Some(0) })
    );
}

#[test]
fn every_failure_has_its_class() {
    let cases = [
        (ZstdError::Configuration(ConfigurationIssue::UnknownFlushMode(3)), ErrorKind::Configuration),
        (ZstdError::State(StateIssue::Closed), ErrorKind::State),
        (ZstdError::State(StateIssue::AlreadyEntered), ErrorKind::State),
        (ZstdError::Codec { stage: Stage::Compress, code: 1, frame: None }, ErrorKind::Codec),
        (ZstdError::IncompleteFrame { frame: Some(2) }, ErrorKind::IncompleteFrame),
        (
            ZstdError::SizeMismatch { produced: 1, expected: 2, frame: None },
            ErrorKind::SizeMismatch,
        ),
        (ZstdError::UnsupportedOperation, ErrorKind::UnsupportedOperation),
        (ZstdError::OutOfMemory, ErrorKind::OutOfMemory),
        (
            ZstdError::InvalidInput { issue: InputIssue::EmptyChain, frame: None },
            ErrorKind::InvalidInput,
        ),
        (ZstdError::MissingCapability(Capability::Fileno), ErrorKind::MissingCapability),
        (ZstdError::NotImplemented, ErrorKind::NotImplemented),
        (ZstdError::NoProgress, ErrorKind::NoProgress),
        (ZstdError::CounterOverflow, ErrorKind::CounterOverflow),
        (ZstdError::Io(IoError { code: 5 }), ErrorKind::Io),
    ];
    for (e, kind) in cases {
        assert_eq!(e.kind(), kind);
    }
    assert_eq!(ZstdError::IncompleteFrame { frame: Some(2) }.frame(), Some(2));
    assert_eq!(ZstdError::NoProgress.frame(), None);
}

#[test]
fn writer_scope() {
    let cctx = CCtx::new().unwrap();
    let mut w = ZstdCompressionWriter::new(cctx, MemorySink::new(), 0, 100, true, true).unwrap();
    assert!(!w.closed());
    assert_eq!(w.enter(), Ok(()));
    assert_eq!(w.enter(), Err(ZstdError::State(StateIssue::AlreadyEntered)));
    assert_eq!(w.write(b"inside the scope"), Ok(16));
    assert_eq!(w.exit(), Ok(false));
    assert!(w.closed());
    assert_eq!(w.get_ref().closes, 1);
    assert_eq!(w.exit(), Ok(false));
    assert_eq!(w.get_ref().closes, 1);
    assert_eq!(w.enter(), Err(ZstdError::State(StateIssue::Closed)));
    let (_, sink) = w.into_parts();
    let mut out = vec![0u8; 16];
    assert_eq!(zstd_safe::decompress(&mut out[..], &sink.contents()), Ok(16));
    assert_eq!(&out, b"inside the scope");
}

#[test]
fn writer_does_not_read_seek_or_truncate() {
    let cctx = CCtx::new().unwrap();
    let mut w = ZstdCompressionWriter::new(cctx, MemorySink::new(), 0, 100, true, false).unwrap();
    for _ in 0..2 {
        assert_eq!(w.read(None), Err(ZstdError::UnsupportedOperation));
        assert_eq!(w.read(Some(4)), Err(ZstdError::UnsupportedOperation));
        assert_eq!(w.readall(), Err(ZstdError::UnsupportedOperation));
        assert_eq!(w.readinto(&mut vec![0u8; 4]), Err(ZstdError::UnsupportedOperation));
        assert_eq!(w.readline(None), Err(ZstdError::UnsupportedOperation));
        assert_eq!(w.readlines(None), Err(ZstdError::UnsupportedOperation));
        assert_eq!(w.seek(0, None), Err(ZstdError::UnsupportedOperation));
        assert_eq!(w.truncate(None), Err(ZstdError::UnsupportedOperation));
        assert_eq!(w.writelines(&vec![]), Err(ZstdError::NotImplemented));
        assert!(!w.isatty() && !w.readable() && !w.seekable() && w.writable());
        assert_eq!(w.fileno(), Err(ZstdError::MissingCapability(Capability::Fileno)));
        assert!(w.memory_size() > 0);
        w.close().unwrap();
    }
    // The writer did not own the sink.
    assert_eq!(w.get_ref().closes, 0);
}

#[test]
fn writer_with_nothing_to_write() {
    let cctx = CCtx::new().unwrap();
    let mut w = ZstdCompressionWriter::new(cctx, MemorySink::new(), 0, 100, false, true).unwrap();
    assert_eq!(w.write(b""), Ok(0));
    assert!(w.get_ref().chunks.is_empty());
    assert_eq!(w.tell(), 0);
    w.close().unwrap();
    // An empty frame is a frame, and the engine knows its size by then.
    let frame = w.get_ref().contents();
    assert_eq!(w.tell(), frame.len());
    assert_eq!(frame_content_size(&frame), Ok(Some(0)));
    let mut out = vec![0u8; 8];
    assert_eq!(zstd_safe::decompress(&mut out[..], &frame), Ok(0));
}

#[test]
fn declared_size_goes_into_the_header_and_binds_the_writer() {
    let cctx = CCtx::new().unwrap();
    let mut w = ZstdCompressionWriter::new(cctx, MemorySink::new(), 10, 100, true, true).unwrap();
    w.write(b"0123456789").unwrap();
    w.close().unwrap();
    assert_eq!(frame_content_size(&w.get_ref().contents()), Ok(Some(10)));

    let cctx = CCtx::new().unwrap();
    let mut w = ZstdCompressionWriter::new(cctx, MemorySink::new(), 10, 100, true, true).unwrap();
    w.write(b"too short").unwrap();
    let e = w.close().unwrap_err();
    assert!(matches!(e, ZstdError::Codec { stage: Stage::Compress, frame: None, .. }));
    assert!(w.closed());
    // The writer owns the sink, and closes it although the frame is not done.
    assert_eq!(w.get_ref().closes, 1);
    assert_eq!(w.get_ref().flushes, 0);
    assert_eq!(w.close(), Ok(()));
    assert_eq!(w.get_ref().closes, 1);
    assert_eq!(w.write(b"more"), Err(ZstdError::State(StateIssue::Closed)));
}

#[test]
fn writer_with_no_room_makes_no_progress() {
    let cctx = CCtx::new().unwrap();
    let mut w = ZstdCompressionWriter::new(cctx, MemorySink::new(), 0, 0, true, true).unwrap();
    assert_eq!(w.write(b"kept by the engine"), Ok(18));
    assert_eq!(w.flush(FLUSH_BLOCK), Err(ZstdError::NoProgress));
    assert_eq!(w.close(), Err(ZstdError::NoProgress));
    assert!(w.closed());
}

#[test]
fn pump_by_hand() {
    let data = vec![42u8; 10_000];
    let mut cctx = CCtx::new().unwrap();
    let mut buffer = Buffer::try_with_capacity(64).unwrap();
    let mut sink = Outlet::new(MemorySink::new());
    let mut count = 0usize;
    assert_eq!(feed(&mut cctx, &mut buffer, &mut sink, &mut count, &data), Ok(()));
    assert_eq!(drain(&mut cctx, &mut buffer, &mut sink, &mut count, EndDirective::End), Ok(()));
    assert_eq!(cctx.stage(), Stage::Compress);
    let compressed = sink.get_ref().contents();
    assert_eq!(count, compressed.len());
    let mut out = vec![0u8; 10_000];
    assert_eq!(zstd_safe::decompress(&mut out[..], &compressed), Ok(10_000));
    assert_eq!(out, data);

    // A count that has no room left stops the pump before the sink is asked.
    let mut dctx = DCtx::new().unwrap();
    let mut sink = Outlet::new(MemorySink::new());
    let mut count = usize::MAX - 10;
    assert_eq!(
        feed(&mut dctx, &mut buffer, &mut sink, &mut count, &compressed),
        Err(ZstdError::CounterOverflow)
    );
    assert_eq!(count, usize::MAX - 10);
    assert!(sink.get_ref().chunks.is_empty());
    assert_eq!(forward(&mut buffer, &mut sink, &mut count), Err(ZstdError::CounterOverflow));
}

#[test]
fn memory_collaborators() {
    let mut source = MemorySource::new(vec![1, 2, 3, 4, 5]);
    assert_eq!(source.read(2), Ok(vec![1, 2]));
    assert_eq!(source.take(2), vec![3, 4]);
    assert_eq!(source.read(2), Ok(vec![5]));
    assert_eq!(source.read(2), Ok(vec![]));
    assert_eq!(source.close(), Ok(()));
    let mut sink = MemorySink::new();
    assert!(sink.capabilities().flush && sink.capabilities().close);
    assert!(!sink.capabilities().fileno);
    sink.write(&[1, 2]).unwrap();
    sink.write(&[3]).unwrap();
    sink.flush().unwrap();
    sink.close().unwrap();
    assert_eq!(sink.contents(), vec![1, 2, 3]);
    assert_eq!(sink.chunks, vec![vec![1, 2], vec![3]]);
    assert_eq!((sink.flushes, sink.closes), (1, 1));
    assert!(sink.fileno().is_err());
}

#[test]
fn writer_that_asks_for_more_room_than_there_is() {
    let cctx = CCtx::new().unwrap();
    let r = ZstdCompressionWriter::new(cctx, MemorySink::new(), 0, usize::MAX, true, true);
    assert_eq!(r.err(), Some(ZstdError::OutOfMemory));
    let d = zstandard::decompressor::ZstdDecompressor::new(None, 0, FORMAT_ZSTD1).unwrap();
    let r = d.stream_writer(MemorySink::new(), Some(usize::MAX), true, true);
    assert_eq!(r.err(), Some(ZstdError::OutOfMemory));
}

#[test]
fn engine_s_answer_to_a_request() {
    assert_eq!(zstandard::engine::accepted(Ok(0)), Ok(()));
    assert_eq!(zstandard::engine::accepted(Ok(17)), Ok(()));
    assert_eq!(zstandard::engine::accepted(Err(usize::MAX - 41)), Err(usize::MAX - 41));
    // The error of a setter is the code that the engine gave, by its name.
    let mut dctx = DCtx::new().unwrap();
    let code = dctx.set_window_log_max(1).unwrap_err();
    assert_ne!(error_text(code), error_text(0));
    // A refusal leaves the context as it was for the next request.
    assert_eq!(dctx.set_window_log_max(20), Ok(()));
    assert_eq!(dctx.reset_session(), Ok(()));
}

#[test]
fn buffer_for_nothing_is_always_there() {
    let b = Buffer::try_with_capacity(0).unwrap();
    assert_eq!((b.len(), b.capacity()), (0, 0));
    assert_eq!(b.into_vec(), Vec::<u8>::new());
}
