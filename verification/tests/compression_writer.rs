use zstandard::compression_writer::{ZstdCompressionWriter, FLUSH_BLOCK, FLUSH_FRAME};
use zstandard::engine::CCtx;
use zstandard::error::{ConfigurationIssue, StateIssue, ZstdError};
use zstandard::io::MemorySink;

fn writer(write_return_read: bool) -> ZstdCompressionWriter<MemorySink> {
    let cctx = CCtx::new().unwrap();
    ZstdCompressionWriter::new(cctx, MemorySink::new(), 0, 1024, write_return_read, true).unwrap()
}

fn sample(len: usize) -> Vec<u8> {
    let mut data = Vec::with_capacity(len);
    let mut x: u32 = 12345;
    for i in 0..len {
        x = x.wrapping_mul(1664525).wrapping_add(1013904223);
        data.push(if i % 3 == 0 { (x >> 24) as u8 } else { (i % 7) as u8 });
    }
    data
}

fn inflate(frame: &[u8], capacity: usize) -> Vec<u8> {
    let mut out = vec![0u8; capacity];
    let n = zstd_safe::decompress(&mut out[..], frame).unwrap();
    out.truncate(n);
    out
}

#[test]
fn round_trip_in_one_write() {
    let data = sample(50_000);
    let mut w = writer(true);
    assert_eq!(w.write(&data), Ok(data.len()));
    assert_eq!(w.close(), Ok(()));
    let frame = w.get_ref().contents();
    assert_eq!(w.tell(), frame.len());
    assert_eq!(inflate(&frame, data.len()), data);
}

#[test]
fn round_trip_in_many_writes() {
    let data = sample(20_000);
    let mut w = writer(true);
    for piece in data.chunks(777) {
        assert_eq!(w.write(piece), Ok(piece.len()));
    }
    assert_eq!(w.close(), Ok(()));
    assert_eq!(inflate(&w.get_ref().contents(), data.len()), data);
}

#[test]
fn chunks_are_never_empty_nor_longer_than_the_buffer() {
    let data = sample(50_000);
    let mut w = writer(true);
    w.write(&data).unwrap();
    w.close().unwrap();
    let sink = w.get_ref();
    assert!(sink.chunks.len() > 1);
    for chunk in &sink.chunks {
        assert!(!chunk.is_empty());
        assert!(chunk.len() <= 1024);
    }
}

#[test]
fn write_returns_bytes_passed_on_when_asked_to() {
    let data = sample(50_000);
    let mut w = writer(false);
    let n = w.write(&data).unwrap();
    assert_eq!(n, w.tell());
    assert_eq!(n, w.get_ref().contents().len());
}

#[test]
fn write_on_closed_writer_is_a_state_error() {
    let mut w = writer(true);
    w.close().unwrap();
    assert_eq!(w.write(b"abc"), Err(ZstdError::State(StateIssue::Closed)));
    assert_eq!(w.flush(FLUSH_BLOCK), Err(ZstdError::State(StateIssue::Closed)));
    assert_eq!(w.enter(), Err(ZstdError::State(StateIssue::Closed)));
}

#[test]
fn unknown_flush_mode_is_a_configuration_error() {
    let mut w = writer(true);
    assert_eq!(
        w.flush(2),
        Err(ZstdError::Configuration(ConfigurationIssue::UnknownFlushMode(2)))
    );
    assert_eq!(w.get_ref().flushes, 0);
}

#[test]
fn close_twice_touches_the_sink_once() {
    let mut w = writer(true);
    w.write(b"hello").unwrap();
    w.close().unwrap();
    let chunks = w.get_ref().chunks.len();
    assert_eq!(w.get_ref().closes, 1);
    assert_eq!(w.get_ref().flushes, 0);
    assert_eq!(w.close(), Ok(()));
    assert_eq!(w.get_ref().chunks.len(), chunks);
    assert_eq!(w.get_ref().closes, 1);
    assert_eq!(w.get_ref().flushes, 0);
}

#[test]
fn frame_flush_gives_a_whole_frame_and_block_flush_does_not() {
    let data = sample(3000);
    let mut w = writer(true);
    w.write(&data).unwrap();
    w.flush(FLUSH_BLOCK).unwrap();
    assert_eq!(w.get_ref().flushes, 1);
    let partial = w.get_ref().contents();
    let mut out = vec![0u8; data.len()];
    assert!(zstd_safe::decompress(&mut out[..], &partial).is_err());
    w.flush(FLUSH_FRAME).unwrap();
    assert_eq!(inflate(&w.get_ref().contents(), data.len()), data);
}

#[test]
fn writes_after_a_block_flush_go_into_the_same_frame() {
    let first = sample(4000);
    let second = sample(2500);
    let mut w = writer(true);
    w.write(&first).unwrap();
    w.flush(FLUSH_BLOCK).unwrap();
    w.write(&second).unwrap();
    w.close().unwrap();
    let out = w.get_ref().contents();
    // One frame, from the first byte to the last.
    assert_eq!(zstd_safe::find_frame_compressed_size(&out), Ok(out.len()));
    let mut both = first.clone();
    both.extend_from_slice(&second);
    assert_eq!(inflate(&out, both.len()), both);
}

#[test]
fn writes_after_a_frame_flush_start_another_frame() {
    let first = sample(4000);
    let second = sample(2500);
    let mut w = writer(true);
    w.write(&first).unwrap();
    w.flush(FLUSH_FRAME).unwrap();
    let one = w.get_ref().contents();
    assert_eq!(zstd_safe::find_frame_compressed_size(&one), Ok(one.len()));
    assert_eq!(inflate(&one, first.len()), first);
    w.write(&second).unwrap();
    w.close().unwrap();
    let two = w.get_ref().contents();
    assert_eq!(zstd_safe::find_frame_compressed_size(&two), Ok(one.len()));
    assert_eq!(inflate(&two[one.len()..], second.len()), second);
}

#[test]
fn chunking_does_not_show_in_what_the_sink_gets() {
    let data = sample(30_000);
    let mut whole = writer(true);
    whole.write(&data).unwrap();
    whole.close().unwrap();
    let mut pieces = writer(true);
    for piece in data.chunks(1234) {
        pieces.write(piece).unwrap();
    }
    pieces.close().unwrap();
    let a = inflate(&whole.get_ref().contents(), data.len());
    let b = inflate(&pieces.get_ref().contents(), data.len());
    assert_eq!(a, data);
    assert_eq!(b, data);
}
