//! The frame pipeline: a captured surface becomes a compressed envelope on
//! the host, and a received envelope becomes a frame in the viewer's double
//! buffer.
use vstd::prelude::*;
use crate::double_buffer::{FrameSlot, Renderer};
use crate::protocol::{StreamError, Topic, topic_ascii, topic_bytes};
use vstd::arithmetic::div_mod::{lemma_fundamental_div_mod, lemma_div_denominator};

verus! {

/// A captured surface: its RGBA pixels, 4 bytes per pixel, row by row, or
/// `None` when nothing could be captured.
pub struct Image {
    pub data: Option<Vec<u8>>,
    pub width: u32,
    pub height: u32,
}

/// A frame as published: the decoded pixel grid's size and the compressed
/// pixels.
pub struct FrameEnvelope {
    pub width: u32,
    pub height: u32,
    pub payload: Vec<u8>,
}

/// The byte length of a decoded `width` by `height` grid of 4-channel pixels.
pub open spec fn frame_len(width: u32, height: u32) -> int {
    width as int * height as int * 4
}

/// The four bytes of `v`, least significant first.
pub open spec fn le_bytes(v: u32) -> Seq<u8> {
    seq![
        (v % 0x100) as u8,
        (v / 0x100 % 0x100) as u8,
        (v / 0x1_0000 % 0x100) as u8,
        (v / 0x100_0000) as u8,
    ]
}

/// The number whose bytes, least significant first, open `b`.
pub open spec fn le_value(b: Seq<u8>) -> u32 {
    (b[0] as int + b[1] as int * 0x100 + b[2] as int * 0x1_0000 + b[3] as int * 0x100_0000) as u32
}

/// Four little-endian bytes read back as the number they were made from.
pub proof fn lemma_le_round_trip(v: u32)
    ensures
        le_value(le_bytes(v)) == v,
{
    let x = v as int;
    let q1 = x / 0x100;
    let q2 = q1 / 0x100;
    let q3 = q2 / 0x100;
    lemma_fundamental_div_mod(x, 0x100);
    lemma_fundamental_div_mod(q1, 0x100);
    lemma_fundamental_div_mod(q2, 0x100);
    lemma_div_denominator(x, 0x100, 0x100);
    lemma_div_denominator(x, 0x1_0000, 0x100);
    assert(q3 < 0x100);
    assert(q3 % 0x100 == q3);
    let b = le_bytes(v);
    assert(b[0] as int == x % 0x100);
    assert(b[1] as int == q1 % 0x100);
    assert(b[2] as int == q2 % 0x100);
    assert(b[3] as int == q3);
    assert(x == x % 0x100 + (q1 % 0x100) * 0x100 + (q2 % 0x100) * 0x1_0000 + q3 * 0x100_0000) by (nonlinear_arith)
        requires
            x == 0x100 * q1 + x % 0x100,
            q1 == 0x100 * q2 + q1 % 0x100,
            q2 == 0x100 * q3 + q2 % 0x100,
    ;
}

/// The ASCII bytes of the frame topic, `frame`.
pub open spec fn frame_topic() -> Seq<u8> {
    topic_ascii(Topic::Frame)
}

/// Relies on `bincode::serialize`: its default options encode a `u32` as
/// four fixed-width little-endian bytes, without a size limit, so the
/// call cannot fail.
#[verifier::external_body]
fn serialize_u32(v: u32) -> (r: Vec<u8>)
    ensures
        r@ == le_bytes(v),
{
    bincode::serialize(&v).unwrap()
}

/// Relies on `bincode::deserialize`: with its default options a `u32` is
/// read from the first four bytes, little-endian, trailing bytes allowed;
/// fewer than four bytes are an error.
#[verifier::external_body]
fn deserialize_u32(b: &[u8]) -> (r: Option<u32>)
    ensures
        r == (if b@.len() >= 4 { Some(le_value(b@)) } else { None::<u32> }),
{
    bincode::deserialize::<u32>(b).ok()
}

/// The outcome of compressing a `width` by `height` RGBA image with `png`'s
/// encoder, 8 bits per channel.
pub uninterp spec fn png_rgba_of(width: u32, height: u32, pixels: Seq<u8>) -> Option<Seq<u8>>;

/// The outcome of decoding bytes with `png`'s decoder into a buffer of
/// `capacity` bytes: the grid's width and height, whether the pixels are
/// RGBA with 8 bits per channel, and the buffer.
pub uninterp spec fn png_decoded(bytes: Seq<u8>, capacity: usize) -> Option<(u32, u32, bool, Seq<u8>)>;

/// The largest decoded frame the viewer accepts, in bytes (64 MiB, the
/// png decoder's default allocation limit; a 4K RGBA frame fits).
pub const MAX_FRAME_LEN: u64 = 0x400_0000;

/// Relies on `png::Encoder` (RGBA, 8 bits per channel) writing into memory:
/// the outcome depends on the arguments alone; with a buffer of the right
/// size only a zero width or height is refused; and the format is lossless,
/// so `png::Decoder` gives back the size and the pixels, as RGBA 8, when the
/// decoded rows stay within its default 64 MiB limit.
#[verifier::external_body]
fn encode_rgba(width: u32, height: u32, pixels: &[u8]) -> (r: Option<Vec<u8>>)
    requires
        pixels@.len() == frame_len(width, height),
    ensures
        match r {
            Some(b) => png_rgba_of(width, height, pixels@) == Some(b@),
            None => png_rgba_of(width, height, pixels@) is None,
        },
        width > 0 && height > 0 ==> r is Some,
        r is Some && pixels@.len() <= MAX_FRAME_LEN ==> png_decoded(r->Some_0@, pixels@.len() as usize)
            == Some((width, height, true, pixels@)),
{
    let mut out: Vec<u8> = Vec::new();
    {
        let mut enc = png::Encoder::new(&mut out, width, height);
        enc.set_color(png::ColorType::Rgba);
        enc.set_depth(png::BitDepth::Eight);
        let mut w = enc.write_header().ok()?;
        w.write_image_data(pixels).ok()?;
        w.finish().ok()?;
    }
    Some(out)
}

/// Relies on `png::Decoder` reading from memory into a buffer of
/// `capacity` bytes: it reports malformed or truncated input, and a buffer
/// too small for the image, as errors; the outcome depends on the arguments
/// alone. The flag tells whether the output is RGBA with 8-bit channels.
#[verifier::external_body]
fn decode_rgba(bytes: &[u8], capacity: usize) -> (r: Option<(u32, u32, bool, Vec<u8>)>)
    ensures
        match r {
            Some((w, h, rgba8, px)) => png_decoded(bytes@, capacity) == Some((w, h, rgba8, px@)),
            None => png_decoded(bytes@, capacity) is None,
        },
{
    let mut reader = png::Decoder::new(bytes).read_info().ok()?;
    let mut buf = vec![0u8; capacity];
    let info = reader.next_frame(&mut buf).ok()?;
    let rgba8 = matches!((info.color_type, info.bit_depth), (png::ColorType::Rgba, png::BitDepth::Eight));
    Some((info.width, info.height, rgba8, buf))
}

/// Whether `n` is the byte length of a `width` by `height` RGBA grid.
fn has_frame_len(n: usize, width: u32, height: u32) -> (r: bool)
    ensures
        r == (n as int == frame_len(width, height)),
{
    let w = width as u128;
    let h = height as u128;
    assert(w * h <= 0xffff_ffff_u128 * 0xffff_ffff_u128) by (nonlinear_arith)
        requires
            w <= 0xffff_ffff,
            h <= 0xffff_ffff,
    ;
    n as u128 == w * h * 4
}

/// The envelope that the host publishes for a captured image, or `None`
/// when this tick's frame is skipped.
pub open spec fn spec_compress(image: Image) -> Option<(u32, u32, Seq<u8>)> {
    match image.data {
        None => None,
        Some(px) => if px@.len() == frame_len(image.width, image.height) {
            match png_rgba_of(image.width, image.height, px@) {
                Some(b) => Some((image.width, image.height, b)),
                None => None,
            }
        } else {
            None
        },
    }
}

/// Compresses a captured image into an envelope. An image with no pixels,
/// with a pixel count that does not match its size, or that the codec
/// refuses, gives `None`: that frame is skipped.
pub fn compress_frame(image: &Image) -> (r: Option<FrameEnvelope>)
    ensures
        match r {
            Some(env) => spec_compress(*image) == Some((env.width, env.height, env.payload@)),
            None => spec_compress(*image) is None,
        },
        image.data is Some && image.data->Some_0@.len() == frame_len(image.width, image.height)
            && image.width > 0 && image.height > 0 ==> r is Some,
        r is Some && image.data->Some_0@.len() <= MAX_FRAME_LEN ==> png_decoded(
            r->Some_0.payload@,
            frame_len(image.width, image.height) as usize,
        ) == Some((image.width, image.height, true, image.data->Some_0@)),
{
    match &image.data {
        None => None,
        Some(px) => {
            if !has_frame_len(px.len(), image.width, image.height) {
                return None;
            }
            match encode_rgba(image.width, image.height, px.as_slice()) {
                Some(b) => Some(FrameEnvelope { width: image.width, height: image.height, payload: b }),
                None => None,
            }
        },
    }
}

/// The parts of the broadcast message of an envelope.
pub open spec fn spec_frame_message(width: u32, height: u32, payload: Seq<u8>) -> Seq<Seq<u8>> {
    seq![frame_topic(), le_bytes(width), le_bytes(height), payload]
}

/// The four parts of an envelope's broadcast message: the topic `frame`,
/// the width, the height, and the payload.
pub fn frame_message(env: FrameEnvelope) -> (r: Vec<Vec<u8>>)
    ensures
        r@.map_values(|p: Vec<u8>| p@) == spec_frame_message(env.width, env.height, env.payload@),
{
    let mut v: Vec<Vec<u8>> = Vec::new();
    v.push(topic_bytes(Topic::Frame));
    v.push(serialize_u32(env.width));
    v.push(serialize_u32(env.height));
    v.push(env.payload);
    proof {
        assert(v@.map_values(|p: Vec<u8>| p@) =~= spec_frame_message(env.width, env.height, env.payload@));
    }
    v
}

/// The envelope that a broadcast message carries, or `FrameDecodeFailure`.
pub open spec fn spec_parse_frame_message(parts: Seq<Seq<u8>>) -> Result<(u32, u32, Seq<u8>), StreamError> {
    if parts.len() == 4 && parts[0] == frame_topic() && parts[1].len() == 4 && parts[2].len() == 4 {
        Ok((le_value(parts[1]), le_value(parts[2]), parts[3]))
    } else {
        Err(StreamError::FrameDecodeFailure)
    }
}

fn is_frame_topic(b: &Vec<u8>) -> (r: bool)
    ensures
        r == (b@ == frame_topic()),
{
    let r = b.len() == 5 && b[0] == 0x66u8 && b[1] == 0x72u8 && b[2] == 0x61u8 && b[3] == 0x6du8
        && b[4] == 0x65u8;
    proof {
        if r {
            assert(b@ =~= frame_topic());
        }
    }
    r
}

/// Reads an envelope from the parts of a broadcast message: the topic
/// `frame`, a width and a height of exactly four bytes each, the payload.
pub fn parse_frame_message(parts: Vec<Vec<u8>>) -> (r: Result<FrameEnvelope, StreamError>)
    ensures
        match spec_parse_frame_message(parts@.map_values(|p: Vec<u8>| p@)) {
            Ok((w, h, payload)) => r is Ok && r->Ok_0.width == w && r->Ok_0.height == h
                && r->Ok_0.payload@ == payload,
            Err(e) => r == Err::<FrameEnvelope, StreamError>(e),
        },
{
    let ghost views = parts@.map_values(|p: Vec<u8>| p@);
    if parts.len() != 4 || !is_frame_topic(&parts[0]) || parts[1].len() != 4 || parts[2].len() != 4 {
        proof {
            if parts.len() == 4 {
                assert(views[1] == parts@[1]@ && views[2] == parts@[2]@ && views[0] == parts@[0]@);
            }
        }
        return Err(StreamError::FrameDecodeFailure);
    }
    let w = deserialize_u32(parts[1].as_slice());
    let h = deserialize_u32(parts[2].as_slice());
    assert(views[1] == parts@[1]@ && views[2] == parts@[2]@ && views[0] == parts@[0]@);
    match (w, h) {
        (Some(width), Some(height)) => {
            let mut parts = parts;
            let payload = parts.pop().unwrap();
            assert(payload@ == views[3]);
            Ok(FrameEnvelope { width, height, payload })
        },
        _ => Err(StreamError::FrameDecodeFailure),
    }
}

/// An envelope's broadcast message reads back as that envelope.
pub proof fn law_frame_message_round_trip(width: u32, height: u32, payload: Seq<u8>)
    ensures
        spec_parse_frame_message(spec_frame_message(width, height, payload))
            == Ok::<(u32, u32, Seq<u8>), StreamError>((width, height, payload)),
{
    lemma_le_round_trip(width);
    lemma_le_round_trip(height);
}

/// Whether a decoding result is a whole frame of the announced size.
pub open spec fn decoded_fits(width: u32, height: u32, d: Option<(u32, u32, bool, Seq<u8>)>) -> bool {
    match d {
        Some((dw, dh, rgba8, px)) => dw == width && dh == height && rgba8 && px.len() == frame_len(
            width,
            height,
        ),
        None => false,
    }
}

/// What decoding an envelope's payload gives: nothing for a frame larger
/// than `MAX_FRAME_LEN`, else the decoder's result into a buffer of the
/// announced size.
pub open spec fn decoded_payload(width: u32, height: u32, payload: Seq<u8>) -> Option<(u32, u32, bool, Seq<u8>)> {
    if frame_len(width, height) <= MAX_FRAME_LEN {
        png_decoded(payload, frame_len(width, height) as usize)
    } else {
        None
    }
}

/// The frame that a decoding result gives for an envelope announcing
/// `width` by `height`: whole, RGBA 8 and of that size, or
/// `FrameDecodeFailure`.
pub fn frame_from_decoded(
    width: u32,
    height: u32,
    decoded: Option<(u32, u32, bool, Vec<u8>)>,
) -> (r: Result<FrameSlot, StreamError>)
    ensures
        match decoded {
            Some((dw, dh, rgba8, px)) => if decoded_fits(width, height, Some((dw, dh, rgba8, px@))) {
                r == Ok::<FrameSlot, StreamError>(FrameSlot { data: Some(px), width, height })
            } else {
                r == Err::<FrameSlot, StreamError>(StreamError::FrameDecodeFailure)
            },
            None => r == Err::<FrameSlot, StreamError>(StreamError::FrameDecodeFailure),
        },
{
    match decoded {
        Some((dw, dh, rgba8, px)) => {
            if dw == width && dh == height && rgba8 && has_frame_len(px.len(), width, height) {
                Ok(FrameSlot { data: Some(px), width, height })
            } else {
                Err(StreamError::FrameDecodeFailure)
            }
        },
        None => Err(StreamError::FrameDecodeFailure),
    }
}

/// What decoding a broadcast message gives: the frame, of the announced
/// size, or the failure.
pub open spec fn decode_frame_ok(parts: Seq<Seq<u8>>, r: Result<FrameSlot, StreamError>) -> bool {
    match spec_parse_frame_message(parts) {
        Ok((w, h, payload)) => if decoded_fits(w, h, decoded_payload(w, h, payload)) {
            &&& r is Ok
            &&& r->Ok_0.width == w
            &&& r->Ok_0.height == h
            &&& r->Ok_0.data is Some
            &&& r->Ok_0.data->Some_0@ == decoded_payload(w, h, payload)->Some_0.3
        } else {
            r == Err::<FrameSlot, StreamError>(StreamError::FrameDecodeFailure)
        },
        Err(e) => r == Err::<FrameSlot, StreamError>(e),
    }
}

/// Decodes one broadcast message into a frame: reads the envelope,
/// decompresses its payload into a buffer of the announced size (frames over
/// `MAX_FRAME_LEN` bytes are refused before any allocation) and checks that
/// the pixels fill the announced grid as RGBA 8. Every failure is
/// `FrameDecodeFailure`.
pub fn decode_frame(parts: Vec<Vec<u8>>) -> (r: Result<FrameSlot, StreamError>)
    ensures
        decode_frame_ok(parts@.map_values(|p: Vec<u8>| p@), r),
{
    let env = match parse_frame_message(parts) {
        Ok(env) => env,
        Err(e) => {
            return Err(e);
        },
    };
    let w = env.width as u64;
    let h = env.height as u64;
    assert(w * h <= 0xffff_ffff_u64 * 0xffff_ffff_u64) by (nonlinear_arith)
        requires
            w <= 0xffff_ffff,
            h <= 0xffff_ffff,
    ;
    let len = w * h;
    assert(len * 4 == frame_len(env.width, env.height));
    if len > MAX_FRAME_LEN / 4 {
        return Err(StreamError::FrameDecodeFailure);
    }
    let decoded = decode_rgba(env.payload.as_slice(), (len * 4) as usize);
    frame_from_decoded(env.width, env.height, decoded)
}

/// A frame compressed on the host and published comes out of the viewer's
/// decoding with the captured size and exactly the captured pixels, when it
/// is within `MAX_FRAME_LEN`.
pub proof fn law_published_frame_decodes(width: u32, height: u32, payload: Seq<u8>, pixels: Seq<u8>, r: Result<FrameSlot, StreamError>)
    requires
        pixels.len() == frame_len(width, height),
        pixels.len() <= MAX_FRAME_LEN,
        png_decoded(payload, pixels.len() as usize) == Some((width, height, true, pixels)),
        decode_frame_ok(spec_frame_message(width, height, payload), r),
    ensures
        r is Ok,
        r->Ok_0.width == width,
        r->Ok_0.height == height,
        r->Ok_0.data == Some(r->Ok_0.data->Some_0),
        r->Ok_0.data->Some_0@ == pixels,
{
    law_frame_message_round_trip(width, height, payload);
}

/// Receives one broadcast message into the double buffer: a frame that
/// decodes whole and of the announced size is written and swapped in, so
/// the consumer reads it next; on any failure the buffer is left as it was.
pub fn receive_frame(parts: Vec<Vec<u8>>, buffer: &mut Renderer) -> (r: Result<(), StreamError>)
    ensures
        match spec_parse_frame_message(parts@.map_values(|p: Vec<u8>| p@)) {
            Ok((w, h, payload)) => if decoded_fits(w, h, decoded_payload(w, h, payload)) {
                &&& r is Ok
                &&& final(buffer)@ == old(buffer)@.write(final(buffer)@.read()).swap()
                &&& decode_frame_ok(parts@.map_values(|p: Vec<u8>| p@), Ok(final(buffer)@.read()))
            } else {
                r == Err::<(), StreamError>(StreamError::FrameDecodeFailure) && final(buffer)@ == old(buffer)@
            },
            Err(e) => r == Err::<(), StreamError>(e) && final(buffer)@ == old(buffer)@,
        },
{
    let ghost views = parts@.map_values(|p: Vec<u8>| p@);
    match decode_frame(parts) {
        Ok(frame) => {
            buffer.publish(frame);
            Ok(())
        },
        Err(e) => Err(e),
    }
}

/// How long the publisher waits before its next tick, when a tick of
/// `interval` began `elapsed` ago: the rest of the interval, or nothing when
/// the work overran it (the next frame follows at once, with no catching up).
pub fn tick_wait(interval: u64, elapsed: u64) -> (r: u64)
    ensures
        r == (if elapsed < interval { interval - elapsed } else { 0 }),
{
    if elapsed < interval {
        interval - elapsed
    } else {
        0
    }
}

} // verus!
