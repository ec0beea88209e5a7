use zstandard::decompressor::{
    plan_output, verdict, window_log, OutputPlan, ZstdDecompressor, FORMAT_ZSTD1,
    FORMAT_ZSTD1_MAGICLESS,
};
use zstandard::error::{ConfigurationIssue, ErrorKind, InputIssue, Stage, ZstdError};
use zstandard::io::{Inlet, MemorySink, MemorySource, Outlet};

fn text(len: usize, seed: u32) -> Vec<u8> {
    let mut data = Vec::with_capacity(len);
    let mut x = seed;
    for i in 0..len {
        x = x.wrapping_mul(1664525).wrapping_add(1013904223);
        data.push(if i % 4 == 0 { (x >> 24) as u8 } else { b'a' + (i % 11) as u8 });
    }
    data
}

/// A frame with the size of `data` in its header.
fn frame_of(data: &[u8]) -> Vec<u8> {
    let mut out = vec![0u8; zstd_safe::compress_bound(data.len())];
    let n = zstd_safe::compress(&mut out[..], data, 3).unwrap();
    out.truncate(n);
    out
}

/// A frame without the size of `data` in its header.
fn frame_without_size(data: &[u8]) -> Vec<u8> {
    let mut cctx = zstd_safe::CCtx::create();
    let mut out = vec![0u8; zstd_safe::compress_bound(data.len()) + 64];
    let mut output = zstd_safe::OutBuffer::around(&mut out[..]);
    let mut input = zstd_safe::InBuffer::around(data);
    let directive = zstd_safe::zstd_sys::ZSTD_EndDirective::ZSTD_e_continue;
    cctx.compress_stream2(&mut output, &mut input, directive).unwrap();
    let directive = zstd_safe::zstd_sys::ZSTD_EndDirective::ZSTD_e_end;
    let mut nothing = zstd_safe::InBuffer::around(&[]);
    let left = cctx.compress_stream2(&mut output, &mut nothing, directive).unwrap();
    assert_eq!(left, 0);
    let n = output.pos();
    out.truncate(n);
    out
}

/// A frame of `data` that refers to `prefix` as its dictionary.
fn frame_with_prefix(data: &[u8], prefix: &[u8]) -> Vec<u8> {
    let mut cctx = zstd_safe::CCtx::create();
    cctx.ref_prefix(prefix).unwrap();
    let mut out = vec![0u8; zstd_safe::compress_bound(data.len())];
    let n = cctx.compress2(&mut out[..], data).unwrap();
    out.truncate(n);
    out
}

fn decompressor() -> ZstdDecompressor {
    ZstdDecompressor::new(None, 0, FORMAT_ZSTD1).unwrap()
}

#[test]
fn one_shot_gives_the_content() {
    let data = text(10_000, 1);
    let mut d = decompressor();
    assert_eq!(d.decompress(&frame_of(&data), 0), Ok(data));
}

#[test]
fn one_shot_works_again_after_a_failure() {
    let data = text(5000, 2);
    let mut d = decompressor();
    let mut broken = frame_of(&data);
    let len = broken.len();
    broken.truncate(len - 5);
    assert_eq!(d.decompress(&broken, 0), Err(ZstdError::IncompleteFrame { frame: None }));
    assert_eq!(d.decompress(&frame_of(&data), 0), Ok(data));
}

#[test]
fn one_shot_of_an_empty_frame_is_empty() {
    let mut d = decompressor();
    assert_eq!(d.decompress(&frame_of(&[]), 0), Ok(Vec::new()));
}

#[test]
fn one_shot_without_size_needs_a_bound() {
    let data = text(3000, 3);
    let frame = frame_without_size(&data);
    let mut d = decompressor();
    let r = d.decompress(&frame, 0);
    assert_eq!(r, Err(ZstdError::Configuration(ConfigurationIssue::MissingOutputBound)));
    assert_eq!(r.unwrap_err().kind(), ErrorKind::Configuration);
    assert_eq!(d.decompress(&frame, 3000), Ok(data.clone()));
    assert_eq!(d.decompress(&frame, 100_000), Ok(data));
}

#[test]
fn one_shot_with_too_small_a_bound_fails() {
    let data = text(3000, 4);
    let frame = frame_without_size(&data);
    let mut d = decompressor();
    let e = d.decompress(&frame, 100).unwrap_err();
    assert!(matches!(e.kind(), ErrorKind::Codec | ErrorKind::IncompleteFrame));
}

#[test]
fn one_shot_of_rubbish_cannot_read_the_header() {
    let mut d = decompressor();
    assert_eq!(
        d.decompress(b"this is no frame at all", 0),
        Err(ZstdError::InvalidInput { issue: InputIssue::UnreadableHeader, frame: None })
    );
    assert_eq!(
        d.decompress(b"", 0),
        Err(ZstdError::InvalidInput { issue: InputIssue::UnreadableHeader, frame: None })
    );
}

#[test]
fn one_shot_of_a_corrupt_frame_is_a_codec_error() {
    let data = text(4000, 5);
    let mut frame = frame_of(&data);
    // The first block gets a type that there is none of.
    frame[7] |= 0x06;
    let mut d = decompressor();
    let r = d.decompress(&frame, 0);
    assert!(r.is_err());
    assert!(matches!(r, Err(ZstdError::Codec { stage: Stage::Decompress, frame: None, .. })));
}

#[test]
fn invalid_format_is_refused() {
    assert_eq!(
        ZstdDecompressor::new(None, 0, 2).err(),
        Some(ZstdError::Configuration(ConfigurationIssue::InvalidFormat(2)))
    );
    assert!(ZstdDecompressor::new(None, 0, FORMAT_ZSTD1_MAGICLESS).is_ok());
}

#[test]
fn window_limit_is_handed_on_as_a_power_of_two() {
    assert_eq!(window_log(1), 1);
    assert_eq!(window_log(2), 1);
    assert_eq!(window_log(3), 1);
    assert_eq!(window_log(1024), 10);
    assert_eq!(window_log(1025), 10);
    assert_eq!(window_log(2047), 10);
    assert_eq!(window_log(1 << 20), 20);
    assert_eq!(window_log(usize::MAX), usize::BITS - 1);
}

#[test]
fn window_limit_under_the_minimum_is_refused_by_the_engine() {
    let mut d = ZstdDecompressor::new(None, 1, FORMAT_ZSTD1).unwrap();
    let e = d.decompress(&frame_of(b"abc"), 0).unwrap_err();
    assert!(matches!(e, ZstdError::Codec { stage: Stage::SetMaxWindowSize, frame: None, .. }));
    let mut d = ZstdDecompressor::new(None, 1 << 20, FORMAT_ZSTD1).unwrap();
    assert_eq!(d.decompress(&frame_of(b"abc"), 0), Ok(b"abc".to_vec()));
}

#[test]
fn plan_follows_the_header() {
    assert_eq!(plan_output(Ok(Some(0)), 0), Ok(OutputPlan::Empty));
    assert_eq!(plan_output(Ok(Some(0)), 7), Ok(OutputPlan::Empty));
    assert_eq!(
        plan_output(Ok(Some(12)), 7),
        Ok(OutputPlan::Decode { capacity: 12, expected: Some(12) })
    );
    assert_eq!(plan_output(Ok(None), 7), Ok(OutputPlan::Decode { capacity: 7, expected: None }));
    assert_eq!(
        plan_output(Ok(None), 0),
        Err(ZstdError::Configuration(ConfigurationIssue::MissingOutputBound))
    );
    assert_eq!(
        plan_output(Err(()), 7),
        Err(ZstdError::InvalidInput { issue: InputIssue::UnreadableHeader, frame: None })
    );
}

#[test]
fn verdict_on_a_step() {
    assert_eq!(verdict(Ok(0), 12, Some(12), None), Ok(()));
    assert_eq!(verdict(Ok(0), 12, None, None), Ok(()));
    assert_eq!(
        verdict(Ok(0), 11, Some(12), Some(3)),
        Err(ZstdError::SizeMismatch { produced: 11, expected: 12, frame: Some(3) })
    );
    assert_eq!(verdict(Ok(5), 12, Some(12), None), Err(ZstdError::IncompleteFrame { frame: None }));
    assert_eq!(
        verdict(Err(99), 0, Some(12), Some(1)),
        Err(ZstdError::Codec { stage: Stage::Decompress, code: 99, frame: Some(1) })
    );
}

#[test]
fn chain_of_one_is_one_shot() {
    let data = text(6000, 6);
    let frame = frame_of(&data);
    let mut d = decompressor();
    let one_shot = d.decompress(&frame, 0);
    let chain = d.decompress_content_dict_chain(&vec![frame]);
    assert_eq!(chain, one_shot);
    assert_eq!(chain, Ok(data));
}

#[test]
fn chain_gives_the_last_content() {
    let c1 = text(8000, 7);
    let c2 = text(5000, 17);
    let c3 = text(7000, 27);
    let frames = vec![frame_of(&c1), frame_of(&c2), frame_of(&c3)];
    let mut d = decompressor();
    assert_eq!(d.decompress_content_dict_chain(&frames), Ok(c3));
    // The decompressor's own dictionary plays no part in a chain.
    let mut d = ZstdDecompressor::new(Some(text(500, 9)), 0, FORMAT_ZSTD1).unwrap();
    let frames = vec![frame_of(&c1), frame_of(&c2)];
    assert_eq!(d.decompress_content_dict_chain(&frames), Ok(c2));
}

#[test]
fn chain_link_leans_on_what_the_engine_keeps() {
    // The decompressor hands the engine the frames and nothing else. An
    // engine that keeps nothing of the frame before cannot follow a link that
    // refers to it, and says so; the failure names the link.
    let c1 = text(8000, 7);
    let mut c2 = c1.clone();
    c2[100] ^= 1;
    c2.extend_from_slice(b"some more");
    let frames = vec![frame_of(&c1), frame_with_prefix(&c2, &c1)];
    assert!(frames[1].len() < frames[0].len() / 4);
    let mut d = decompressor();
    match d.decompress_content_dict_chain(&frames) {
        Ok(content) => assert!(content == c2),
        Err(e) => {
            assert_eq!(e.frame(), Some(1));
            assert_eq!(e.kind(), ErrorKind::Codec);
        }
    }
}

#[test]
fn chain_link_without_its_base_fails() {
    let c1 = text(8000, 7);
    let mut c2 = c1.clone();
    c2[100] ^= 1;
    let frames = vec![frame_with_prefix(&c2, &c1)];
    let mut d = decompressor();
    let e = d.decompress_content_dict_chain(&frames).unwrap_err();
    assert_eq!(e.frame(), Some(0));
    assert!(matches!(e.kind(), ErrorKind::Codec | ErrorKind::SizeMismatch));
}

#[test]
fn empty_chain_is_refused() {
    let mut d = decompressor();
    assert_eq!(
        d.decompress_content_dict_chain(&vec![]),
        Err(ZstdError::InvalidInput { issue: InputIssue::EmptyChain, frame: None })
    );
}

#[test]
fn chain_names_the_frame_that_fails() {
    let c1 = text(2000, 8);
    let good = frame_of(&c1);
    let mut d = decompressor();
    assert_eq!(
        d.decompress_content_dict_chain(&vec![b"rubbish, not a frame".to_vec(), good.clone()]),
        Err(ZstdError::InvalidInput { issue: InputIssue::UnreadableHeader, frame: Some(0) })
    );
    assert_eq!(
        d.decompress_content_dict_chain(&vec![good.clone(), b"rubbish, not a frame".to_vec()]),
        Err(ZstdError::InvalidInput { issue: InputIssue::UnreadableHeader, frame: Some(1) })
    );
    assert_eq!(
        d.decompress_content_dict_chain(&vec![good.clone(), frame_without_size(&c1)]),
        Err(ZstdError::InvalidInput { issue: InputIssue::MissingContentSize, frame: Some(1) })
    );
    let mut cut = good.clone();
    cut.truncate(good.len() - 3);
    assert_eq!(
        d.decompress_content_dict_chain(&vec![good.clone(), good.clone(), cut]),
        Err(ZstdError::IncompleteFrame { frame: Some(2) })
    );
    assert_eq!(d.decompress_content_dict_chain(&vec![good.clone(), good]), Ok(c1));
}

#[test]
fn copy_stream_counts_and_delivers() {
    let data = text(300_000, 10);
    let frame = frame_of(&data);
    let mut d = decompressor();
    let mut source = Inlet::new(MemorySource::new(frame.clone()));
    let mut sink = Outlet::new(MemorySink::new());
    let r = d.copy_stream(&mut source, &mut sink, Some(1000), Some(4096));
    assert_eq!(r, Ok((frame.len(), data.len())));
    let sink = sink.into_inner();
    assert_eq!(sink.contents(), data);
    assert_eq!(sink.flushes, 0);
    assert_eq!(sink.closes, 0);
    for chunk in &sink.chunks {
        assert!(!chunk.is_empty() && chunk.len() <= 4096);
    }
}

#[test]
fn copy_stream_with_the_sizes_of_the_engine() {
    let data = text(500_000, 11);
    let frame = frame_of(&data);
    let mut d = decompressor();
    let mut source = Inlet::new(MemorySource::new(frame.clone()));
    let mut sink = Outlet::new(MemorySink::new());
    assert_eq!(d.copy_stream(&mut source, &mut sink, None, None), Ok((frame.len(), data.len())));
    assert_eq!(sink.get_ref().contents(), data);
}

#[test]
fn copy_stream_of_nothing() {
    let mut d = decompressor();
    let mut source = Inlet::new(MemorySource::new(Vec::new()));
    let mut sink = Outlet::new(MemorySink::new());
    assert_eq!(d.copy_stream(&mut source, &mut sink, Some(10), Some(10)), Ok((0, 0)));
    assert!(sink.get_ref().chunks.is_empty());
}

#[test]
fn copy_stream_of_a_cut_frame_does_not_complain() {
    let data = text(50_000, 12);
    let mut frame = frame_of(&data);
    frame.truncate(frame.len() / 2);
    let mut d = decompressor();
    let mut source = Inlet::new(MemorySource::new(frame.clone()));
    let mut sink = Outlet::new(MemorySink::new());
    let (read, written) = d.copy_stream(&mut source, &mut sink, Some(512), Some(512)).unwrap();
    assert_eq!(read, frame.len());
    assert!(written < data.len());
    assert_eq!(sink.get_ref().contents(), data[..written].to_vec());
}

#[test]
fn copy_stream_of_rubbish_is_a_codec_error() {
    let mut d = decompressor();
    let mut source = Inlet::new(MemorySource::new(b"rubbish, and more rubbish".to_vec()));
    let mut sink = Outlet::new(MemorySink::new());
    let e = d.copy_stream(&mut source, &mut sink, Some(512), Some(512)).unwrap_err();
    assert!(matches!(e, ZstdError::Codec { stage: Stage::Decompress, frame: None, .. }));
}

#[test]
fn copy_stream_into_no_room_makes_no_progress() {
    let data = text(50_000, 13);
    let frame = frame_of(&data);
    let mut d = decompressor();
    let mut source = Inlet::new(MemorySource::new(frame));
    let mut sink = Outlet::new(MemorySink::new());
    assert_eq!(
        d.copy_stream(&mut source, &mut sink, Some(512), Some(0)),
        Err(ZstdError::NoProgress)
    );
}

#[test]
fn dictionary_is_loaded_for_one_shot() {
    let dict = text(2000, 14);
    let data = text(3000, 15);
    let mut cctx = zstd_safe::CCtx::create();
    cctx.load_dictionary(&dict).unwrap();
    let mut frame = vec![0u8; zstd_safe::compress_bound(data.len())];
    let n = cctx.compress2(&mut frame[..], &data).unwrap();
    frame.truncate(n);
    let mut with = ZstdDecompressor::new(Some(dict), 0, FORMAT_ZSTD1).unwrap();
    assert_eq!(with.decompress(&frame, 0), Ok(data));
}

#[test]
fn multi_decompress_is_not_implemented() {
    let d = decompressor();
    assert_eq!(d.multi_decompress_to_buffer(&vec![], None, 0), Err(ZstdError::NotImplemented));
    assert!(d.memory_size() > 0);
}
