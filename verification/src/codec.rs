//! Trusted boundary to the `gif` crate: stream decoders (one per layer) and
//! the stream encoder. Decoding and encoding read and write only in-memory
//! buffers here, so every result below is a function of its arguments alone;
//! the names in this module give those results their identities, and each
//! wrapper's contract states only what the crate's own source shows.
//! Everything pixel-related is re-checked by the verified compositor.

use vstd::prelude::*;
use crate::compose::FrameData;

verus! {

#[verifier::external_type_specification]
#[verifier::external_body]
pub struct ExDecodingError(gif::DecodingError);

#[verifier::external_type_specification]
#[verifier::external_body]
pub struct ExEncodingError(gif::EncodingError);

/// One layer's independently advancing decoder, normalized to four channels
/// per pixel. Verus refuses `gif::Decoder`'s `Read` bound, so the decoder sits
/// in a hidden field and is spoken of only through `layer_frames`,
/// `layer_size` and `layer_clean`.
#[verifier::external_body]
pub struct LayerDecoder {
    inner: gif::Decoder<std::io::Cursor<Vec<u8>>>,
}

/// The output stream's encoder. Verus refuses `gif::Encoder`'s `Write` bound,
/// so the encoder sits in a hidden field and is spoken of only through
/// `enc_frames` and `enc_config`.
#[verifier::external_body]
pub struct StreamEncoder {
    inner: gif::Encoder<Vec<u8>>,
}

/// Whether a byte stream's header parses as a GIF (decoding an owned
/// in-memory buffer, this is a function of the bytes alone).
pub uninterp spec fn gif_parses(bytes: Seq<u8>) -> bool;

/// The width and height a byte stream's header declares.
pub uninterp spec fn gif_size(bytes: Seq<u8>) -> (u16, u16);

/// The frames (RGBA-expanded pixel bytes and duration, in order) that a byte
/// stream decodes to, up to the first end-of-stream or decoding failure.
pub uninterp spec fn gif_frames(bytes: Seq<u8>) -> Seq<(Seq<u8>, u16)>;

/// Whether a byte stream's frame data ends cleanly: after its last decodable
/// frame the decoder signals end of stream rather than a decoding failure.
pub uninterp spec fn gif_clean(bytes: Seq<u8>) -> bool;

/// The frames a layer's decoder has yet to yield.
pub uninterp spec fn layer_frames(d: LayerDecoder) -> Seq<(Seq<u8>, u16)>;

/// The width and height a layer's decoder read from its stream's header.
pub uninterp spec fn layer_size(d: LayerDecoder) -> (u16, u16);

/// Whether a layer's decoder will end cleanly once its frames are exhausted.
pub uninterp spec fn layer_clean(d: LayerDecoder) -> bool;

/// The pixel content a frame keeps once packed for serialization: the GIF
/// palette model is lossy (a fully transparent pixel keeps no colour of its
/// own, and a frame of more than 256 colours is reduced), so the stored frame
/// is this function of the requested buffer, not the buffer itself.
pub uninterp spec fn rgba_quantized(buf: Seq<u8>) -> Seq<u8>;

/// The frames (stored pixel content and duration, in order) the encoder has
/// serialized so far.
pub uninterp spec fn enc_frames(e: StreamEncoder) -> Seq<(Seq<u8>, u16)>;

/// The encoder's fixed configuration: width, height, and whether the
/// infinite-repeat extension has been written.
pub uninterp spec fn enc_config(e: StreamEncoder) -> (u16, u16, bool);

/// The byte stream that serializing the given frames at the given geometry,
/// with the infinite-repeat extension written first, produces.
pub uninterp spec fn gif_output(
    width: u16,
    height: u16,
    repeat: bool,
    frames: Seq<(Seq<u8>, u16)>,
) -> Seq<u8>;

/// Relies on gif::DecodeOptions::read_info with gif::ColorOutput::RGBA: parses
/// the stream header eagerly — success and the parsed geometry are functions
/// of the bytes alone — and yields a decoder that expands every frame to four
/// channels per pixel.
#[verifier::external_body]
pub(crate) fn open_layer(bytes: &Vec<u8>) -> (r: Result<LayerDecoder, gif::DecodingError>)
    ensures
        match r {
            Ok(d) => gif_parses(bytes@) && layer_size(d) == gif_size(bytes@) && layer_frames(d)
                == gif_frames(bytes@) && layer_clean(d) == gif_clean(bytes@),
            Err(_) => !gif_parses(bytes@),
        },
{
    let mut options = gif::DecodeOptions::new();
    options.set_color_output(gif::ColorOutput::RGBA);
    match options.read_info(std::io::Cursor::new(bytes.clone())) {
        Ok(inner) => Ok(LayerDecoder { inner }),
        Err(e) => Err(e),
    }
}

/// Relies on gif::Decoder::width: the screen width from the parsed header,
/// immutable for the decoder's life.
#[verifier::external_body]
pub(crate) fn layer_width(d: &LayerDecoder) -> (r: u16)
    ensures
        r == layer_size(*d).0,
{
    d.inner.width()
}

/// Relies on gif::Decoder::height: the screen height from the parsed header,
/// immutable for the decoder's life.
#[verifier::external_body]
pub(crate) fn layer_height(d: &LayerDecoder) -> (r: u16)
    ensures
        r == layer_size(*d).1,
{
    d.inner.height()
}

/// Relies on gif::Decoder::read_next_frame: advances the layer's cursor and
/// yields the next decoded frame's pixel bytes and duration; end of stream is
/// signalled only once the frames are exhausted and the stream ends cleanly,
/// and a decoding failure — surfaced, never retried — only once they are
/// exhausted and it does not.
#[verifier::external_body]
pub(crate) fn pull_frame(d: &mut LayerDecoder) -> (r: Result<
    Option<FrameData>,
    gif::DecodingError,
>)
    ensures
        match r {
            Ok(Some(f)) => layer_frames(*old(d)).len() >= 1 && f.buffer@ == layer_frames(
                *old(d),
            )[0].0 && f.delay == layer_frames(*old(d))[0].1 && layer_frames(*final(d))
                == layer_frames(*old(d)).drop_first() && layer_clean(*final(d)) == layer_clean(
                *old(d),
            ),
            Ok(None) => layer_frames(*old(d)).len() == 0 && layer_clean(*old(d)) && layer_frames(
                *final(d),
            ).len() == 0,
            Err(_) => layer_frames(*old(d)).len() == 0 && !layer_clean(*old(d)),
        },
{
    match d.inner.read_next_frame() {
        Ok(Some(frame)) => Ok(
            Some(FrameData { buffer: frame.buffer.to_vec(), delay: frame.delay }),
        ),
        Ok(None) => Ok(None),
        Err(e) => Err(e),
    }
}

/// Relies on gif::Encoder::new: writes the stream header for the given
/// geometry; no frame and no repeat extension has been serialized yet.
#[verifier::external_body]
pub(crate) fn new_encoder(width: u16, height: u16) -> (r: Result<
    StreamEncoder,
    gif::EncodingError,
>)
    ensures
        r matches Ok(e) ==> enc_frames(e) == Seq::<(Seq<u8>, u16)>::empty() && enc_config(e) == (
            width,
            height,
            false,
        ),
{
    match gif::Encoder::new(Vec::new(), width, height, &[]) {
        Ok(inner) => Ok(StreamEncoder { inner }),
        Err(e) => Err(e),
    }
}

/// Relies on gif::Encoder::set_repeat: records the infinite-repeat policy in
/// one extension block; it serializes no frame. It is called once, before any
/// frame, so that the stream's shape stays a function of the configuration
/// and the frames.
#[verifier::external_body]
pub(crate) fn set_infinite_repeat(e: &mut StreamEncoder) -> (r: Result<
    (),
    gif::EncodingError,
>)
    requires
        !enc_config(*old(e)).2,
        enc_frames(*old(e)).len() == 0,
    ensures
        r is Ok ==> enc_frames(*final(e)) == enc_frames(*old(e)) && enc_config(*final(e)) == (
            enc_config(*old(e)).0,
            enc_config(*old(e)).1,
            true,
        ),
{
    e.inner.set_repeat(gif::Repeat::Infinite)
}

/// Relies on gif::Frame::from_rgba and gif::Encoder::write_frame: the buffer
/// is packed into one frame of the encoder's own geometry (from_rgba panics
/// unless it holds exactly width x height four-byte pixels, hence the
/// precondition) and serialized, its stored pixel content `rgba_quantized` of
/// the buffer and its duration carried through unchanged into the frame's
/// control data.
#[verifier::external_body]
pub(crate) fn write_rgba_frame(
    e: &mut StreamEncoder,
    width: u16,
    height: u16,
    buffer: Vec<u8>,
    delay: u16,
) -> (r: Result<(), gif::EncodingError>)
    requires
        buffer@.len() == width * height * 4,
        enc_config(*old(e)) == (width, height, true),
    ensures
        r is Ok ==> enc_frames(*final(e)) == enc_frames(*old(e)).push(
            (rgba_quantized(buffer@), delay),
        ) && enc_config(*final(e)) == enc_config(*old(e)),
{
    let mut buf = buffer;
    let mut frame = gif::Frame::from_rgba(width, height, &mut buf);
    frame.delay = delay;
    e.inner.write_frame(&frame)
}

/// Relies on gif::Encoder::into_inner: writes the stream trailer and hands
/// back the sink, so all frame data is flushed before the stream is complete;
/// the bytes are a function of the configuration and the serialized frames.
#[verifier::external_body]
pub(crate) fn finish_encoder(e: StreamEncoder) -> (r: Result<
    Vec<u8>,
    gif::EncodingError,
>)
    ensures
        r matches Ok(v) ==> v@ == gif_output(
            enc_config(e).0,
            enc_config(e).1,
            enc_config(e).2,
            enc_frames(e),
        ),
{
    e.inner.into_inner()
}

} // verus!
