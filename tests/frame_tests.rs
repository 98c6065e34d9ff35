use rusty_snow::double_buffer::{FrameSlot, Renderer};
use rusty_snow::frame::{
    compress_frame, decode_frame, frame_from_decoded, frame_message, parse_frame_message, receive_frame, tick_wait,
    FrameEnvelope, Image,
};
use rusty_snow::protocol::StreamError;

fn raw(width: u32, height: u32) -> Vec<u8> {
    (0..(width * height * 4)).map(|i| (i * 7 % 251) as u8).collect()
}

fn slot(data: Vec<u8>, width: u32, height: u32) -> FrameSlot {
    FrameSlot { data: Some(data), width, height }
}

#[test]
fn write_swap_read_returns_frame() {
    let mut b = Renderer::new();
    assert!(b.read().data.is_none());
    b.write(slot(vec![1, 2, 3, 4], 1, 1));
    assert!(b.read().data.is_none());
    b.swap_buffers();
    assert_eq!(b.read().data, Some(vec![1, 2, 3, 4]));
    assert_eq!(b.read().data, Some(vec![1, 2, 3, 4]));
    assert_eq!((b.read().width, b.read().height), (1, 1));
}

#[test]
fn interleaved_reads_see_whole_frames() {
    let mut b = Renderer::new();
    let frames: Vec<Vec<u8>> = (0..6u8).map(|k| vec![k; 8]).collect();
    let mut published: Vec<Option<Vec<u8>>> = vec![None];
    for (k, f) in frames.iter().enumerate() {
        b.write(slot(f.clone(), 2, 1));
        let seen = b.read().data.clone();
        assert!(published.contains(&seen));
        if k % 2 == 0 {
            b.swap_buffers();
            published.push(Some(f.clone()));
            assert_eq!(b.read().data, Some(f.clone()));
        }
    }
}

#[test]
fn frame_message_layout() {
    let env = FrameEnvelope { width: 100, height: 0x01020304, payload: vec![9, 8] };
    let parts = frame_message(env);
    assert_eq!(parts[0], b"frame".to_vec());
    assert_eq!(parts[1], vec![100, 0, 0, 0]);
    assert_eq!(parts[2], vec![4, 3, 2, 1]);
    assert_eq!(parts[3], vec![9, 8]);
    let back = parse_frame_message(parts).unwrap();
    assert_eq!((back.width, back.height, back.payload), (100, 0x01020304, vec![9, 8]));
}

#[test]
fn malformed_frame_messages() {
    let w = 5u32.to_le_bytes().to_vec();
    let bad = vec![
        vec![b"frame".to_vec(), w.clone(), w.clone()],
        vec![b"frames".to_vec(), w.clone(), w.clone(), vec![]],
        vec![b"frame".to_vec(), vec![5, 0, 0], w.clone(), vec![]],
        vec![b"frame".to_vec(), vec![1, 0, 0, 0, 9], vec![1, 0, 0, 0], vec![]],
        vec![b"frame".to_vec(), vec![1, 0, 0, 0], vec![1, 0, 0, 0, 0], vec![]],
    ];
    for parts in bad {
        assert!(matches!(parse_frame_message(parts), Err(StreamError::FrameDecodeFailure)));
    }
}

#[test]
fn published_frame_lands_in_buffer() {
    let pixels = raw(100, 50);
    let env = compress_frame(&Image { data: Some(pixels.clone()), width: 100, height: 50 }).unwrap();
    assert_eq!((env.width, env.height), (100, 50));
    assert_ne!(env.payload, pixels);
    let mut b = Renderer::new();
    receive_frame(frame_message(env), &mut b).unwrap();
    let f = b.read();
    assert_eq!((f.width, f.height), (100, 50));
    assert_eq!(f.data.as_ref().unwrap().len(), 20000);
    assert_eq!(f.data.as_ref().unwrap(), &pixels);
}

#[test]
fn codec_round_trip_keeps_size_and_bytes() {
    for (w, h) in [(1u32, 1u32), (3, 7), (64, 2)] {
        let pixels = raw(w, h);
        let env = compress_frame(&Image { data: Some(pixels.clone()), width: w, height: h }).unwrap();
        let mut b = Renderer::new();
        receive_frame(frame_message(env), &mut b).unwrap();
        assert_eq!((b.read().width, b.read().height), (w, h));
        assert_eq!(b.read().data.as_ref().unwrap(), &pixels);
    }
}

#[test]
fn truncated_payload_keeps_previous_frame() {
    let mut b = Renderer::new();
    let first = raw(4, 4);
    let env = compress_frame(&Image { data: Some(first.clone()), width: 4, height: 4 }).unwrap();
    receive_frame(frame_message(env), &mut b).unwrap();

    let env = compress_frame(&Image { data: Some(raw(100, 50)), width: 100, height: 50 }).unwrap();
    let mut parts = frame_message(env);
    parts[3].truncate(10);
    assert_eq!(receive_frame(parts, &mut b), Err(StreamError::FrameDecodeFailure));
    assert_eq!(b.read().data.as_ref().unwrap(), &first);
    assert_eq!((b.read().width, b.read().height), (4, 4));
}

#[test]
fn size_mismatch_is_dropped() {
    let env = compress_frame(&Image { data: Some(raw(4, 4)), width: 4, height: 4 }).unwrap();
    let mut parts = frame_message(env);
    parts[1] = 5u32.to_le_bytes().to_vec();
    let mut b = Renderer::new();
    assert_eq!(receive_frame(parts, &mut b), Err(StreamError::FrameDecodeFailure));
    assert!(b.read().data.is_none());

    assert!(matches!(frame_from_decoded(2, 2, Some((2, 2, true, vec![0; 15]))), Err(StreamError::FrameDecodeFailure)));
    assert!(matches!(frame_from_decoded(2, 2, None), Err(StreamError::FrameDecodeFailure)));
    assert!(matches!(frame_from_decoded(2, 2, Some((2, 1, true, vec![0; 16]))), Err(StreamError::FrameDecodeFailure)));
    assert!(matches!(frame_from_decoded(2, 2, Some((2, 2, false, vec![0; 16]))), Err(StreamError::FrameDecodeFailure)));
    let f = frame_from_decoded(2, 2, Some((2, 2, true, vec![7; 16]))).unwrap();
    assert_eq!((f.data, f.width, f.height), (Some(vec![7; 16]), 2, 2));
}

#[test]
fn decode_frame_gives_pixels() {
    let pixels = raw(5, 3);
    let env = compress_frame(&Image { data: Some(pixels.clone()), width: 5, height: 3 }).unwrap();
    let f = decode_frame(frame_message(env)).unwrap();
    assert_eq!((f.width, f.height), (5, 3));
    assert_eq!(f.data, Some(pixels));
    let garbage = vec![b"frame".to_vec(), vec![5, 0, 0, 0], vec![3, 0, 0, 0], vec![1, 2, 3]];
    assert!(matches!(decode_frame(garbage), Err(StreamError::FrameDecodeFailure)));
}

#[test]
fn compress_skips_bad_images() {
    assert!(compress_frame(&Image { data: None, width: 2, height: 2 }).is_none());
    assert!(compress_frame(&Image { data: Some(vec![0; 15]), width: 2, height: 2 }).is_none());
    assert!(compress_frame(&Image { data: Some(vec![]), width: 0, height: 0 }).is_none());
}

#[test]
fn tick_wait_no_catch_up() {
    assert_eq!(tick_wait(16_000, 4_000), 12_000);
    assert_eq!(tick_wait(16_000, 16_000), 0);
    assert_eq!(tick_wait(16_000, 40_000), 0);
}

#[test]
fn overlong_size_part_is_dropped() {
    let pixels = raw(1, 1);
    let env = compress_frame(&Image { data: Some(pixels), width: 1, height: 1 }).unwrap();
    let mut parts = frame_message(env);
    parts[1].push(9);
    let mut b = Renderer::new();
    assert_eq!(receive_frame(parts, &mut b), Err(StreamError::FrameDecodeFailure));
    assert!(b.read().data.is_none());
}

#[test]
fn non_rgba8_payload_is_dropped() {
    let mut payload = Vec::new();
    {
        let mut enc = png::Encoder::new(&mut payload, 2, 2);
        enc.set_color(png::ColorType::GrayscaleAlpha);
        enc.set_depth(png::BitDepth::Sixteen);
        let mut w = enc.write_header().unwrap();
        w.write_image_data(&[1u8; 16]).unwrap();
        w.finish().unwrap();
    }
    let parts = vec![b"frame".to_vec(), vec![2, 0, 0, 0], vec![2, 0, 0, 0], payload];
    assert!(matches!(decode_frame(parts), Err(StreamError::FrameDecodeFailure)));
}

#[test]
fn oversized_frame_is_refused() {
    let env = compress_frame(&Image { data: Some(raw(2, 2)), width: 2, height: 2 }).unwrap();
    let parts = vec![b"frame".to_vec(), 5000u32.to_le_bytes().to_vec(), 5000u32.to_le_bytes().to_vec(), env.payload];
    assert!(matches!(decode_frame(parts), Err(StreamError::FrameDecodeFailure)));
}
