//! Reading a GIF byte stream.  The byte-level parse (headers, blocks, LZW)
//! is done by the `gif` crate behind the trusted items below; everything
//! the parse yields is converted to plain [`SubFrame`] values and handed to
//! the verified compositor.

use vstd::prelude::*;
use crate::compose::composed_views;
use crate::compose::compose_frames;
use crate::compose::first_sub_error;
use crate::compose::lemma_first_error_at;
use crate::compose::lemma_no_first_error;
use crate::compose::sub_error;
use crate::compose::sub_views;
use crate::frame::DecodeError;
use crate::frame::Disposal;
use crate::frame::SubFrame;
use crate::frame::SubFrameView;
use crate::play::GifAnimation;

verus! {

/// What the `gif` crate's parse of a byte stream yields, when it succeeds:
/// the sub-frames in stream order, the global colour table as RGB triples
/// (empty when the file declares none), and the logical screen width and
/// height.  The parse reads nothing but the bytes — no clock, environment
/// or randomness — so its outcome is a function of them alone; this name
/// stands for that outcome, and [`parse_gif`] is the one place it is tied
/// to the outside code.
pub uninterp spec fn gif_parse(bytes: Seq<u8>) -> Option<(Seq<SubFrameView>, Seq<u8>, u16, u16)>;

/// The `gif` crate's streaming decoder, held opaquely: Verus cannot take
/// `gif::Decoder`'s declaration (its reader bound), so the state sits
/// behind this struct while the parse drives it.
#[verifier::external_body]
pub struct ByteDecoder {
    inner: gif::Decoder<std::io::Cursor<Vec<u8>>>,
}

#[verifier::external_type_specification]
#[verifier::external_body]
pub struct ExDecodingError(gif::DecodingError);

/// Relies on gif::Decoder::read_next_frame: decode the next frame's
/// indexed, deinterlaced pixel data and its metadata, or `None` past the
/// last frame.  The fields are moved over one for one into a [`SubFrame`];
/// only [`parse_gif`] calls this, once per frame of the stream.
#[verifier::external_body]
fn next_sub_frame(decoder: &mut ByteDecoder) -> Result<Option<SubFrame>, gif::DecodingError> {
    match decoder.inner.read_next_frame() {
        Err(e) => Err(e),
        Ok(None) => Ok(None),
        Ok(Some(f)) => Ok(Some(SubFrame {
            left: f.left, top: f.top, width: f.width, height: f.height,
            delay: f.delay, transparent: f.transparent, palette: f.palette.clone(),
            pixels: f.buffer.to_vec(),
            disposal: match f.dispose {
                gif::DisposalMethod::Any => Disposal::Unspecified,
                gif::DisposalMethod::Keep => Disposal::Keep,
                gif::DisposalMethod::Background => Disposal::Background,
                gif::DisposalMethod::Previous => Disposal::Previous,
            },
        })),
    }
}

/// Relies on gif::DecodeOptions::{new, set_color_output, read_info} and
/// gif::Decoder::{width, height, global_palette, read_next_frame}: parse
/// the whole byte stream — header, logical screen descriptor, colour
/// tables, and every frame in stream order.  The loop only drives the
/// streaming decoder; [`next_sub_frame`] moves each frame's fields over
/// one for one.  The parse is deterministic in the bytes, which is what
/// the two clauses tie to the name [`gif_parse`].
#[verifier::external_body]
fn parse_gif(bytes: &[u8]) -> (result: Result<
    (Vec<SubFrame>, Vec<u8>, u16, u16),
    gif::DecodingError,
>)
    ensures
        (result matches Ok(p) ==> gif_parse(bytes@) == Some((sub_views(p.0@), p.1@, p.2, p.3))),
        (result is Err ==> gif_parse(bytes@) is None),
{
    let mut options = gif::DecodeOptions::new();
    options.set_color_output(gif::ColorOutput::Indexed);
    let inner = options.read_info(std::io::Cursor::new(bytes.to_vec()))?;
    let mut decoder = ByteDecoder { inner };
    let (w, h) = (decoder.inner.width(), decoder.inner.height());
    let gpal = match decoder.inner.global_palette() {
        Some(p) => p.to_vec(),
        None => Vec::new(),
    };
    let mut subs: Vec<SubFrame> = Vec::new();
    while let Some(sub) = next_sub_frame(&mut decoder)? {
        subs.push(sub);
    }
    Ok((subs, gpal, w, h))
}

/// The failure decoding a byte stream produces, if any: a stream the parse
/// rejects is malformed; otherwise the first failing sub-frame decides;
/// a clean parse that yields no frame at all is an empty animation.
pub open spec fn decode_failure(parse: Option<(Seq<SubFrameView>, Seq<u8>, u16, u16)>) -> Option<
    DecodeError,
> {
    match parse {
        None => Some(DecodeError::Malformed),
        Some(p) => match first_sub_error(p.0, p.1) {
            Some(e) => Some(e),
            None => if p.0.len() == 0 {
                Some(DecodeError::EmptyAnimation)
            } else {
                None
            },
        },
    }
}

impl GifAnimation {
    /// Decode a whole GIF byte stream into an animation ready for
    /// playback.  Succeeds exactly when the parse succeeds, yields at
    /// least one sub-frame, and every sub-frame carries one indexed pixel
    /// per cell, each referring to an entry its colour table holds;
    /// otherwise the error says which of these failed first.  On success
    /// the animation starts unpaused at its first frame with no time
    /// elapsed, its canvas is the parsed logical screen, and its frames
    /// are exactly the composition, per [`composed_views`], of the parsed
    /// sub-frames against the parsed global colour table.
    pub fn from_gif_bytes(file_bytes: &[u8]) -> (result: Result<GifAnimation, DecodeError>)
        ensures
            (result is Ok <==> decode_failure(gif_parse(file_bytes@)) is None),
            (result matches Err(e) ==> decode_failure(gif_parse(file_bytes@)) == Some(e)),
            (result matches Ok(anim) ==> gif_parse(file_bytes@) matches Some(p) && {
                &&& anim.wf()
                &&& anim@.frames.len() >= 1
                &&& anim@.current_frame == 0
                &&& anim@.elapsed_us == 0
                &&& !anim@.paused
                &&& anim@.width == p.2
                &&& anim@.height == p.3
                &&& anim@.frames == composed_views(p.0, p.1, p.2 as int, p.3 as int)
            }),
    {
        let parsed = match parse_gif(file_bytes) {
            Ok(parsed) => parsed,
            Err(_) => {
                return Err(DecodeError::Malformed);
            },
        };
        let (subs, gpal, width, height) = parsed;
        let frames = match compose_frames(&subs, &gpal, width, height) {
            Ok(frames) => frames,
            Err(e) => {
                proof {
                    let j = choose|j: int|
                        0 <= j < subs@.len() && (forall|k: int|
                            0 <= k < j ==> sub_error(#[trigger] sub_views(subs@)[k], gpal@) is None)
                            && sub_error(#[trigger] sub_views(subs@)[j], gpal@) == Some(e);
                    lemma_first_error_at(sub_views(subs@), gpal@, j);
                }
                return Err(e);
            },
        };
        proof {
            lemma_no_first_error(sub_views(subs@), gpal@);
            assert(frames@.map_values(|f: crate::frame::AnimationFrame| f@).len()
                == frames@.len());
            assert(composed_views(
                sub_views(subs@),
                gpal@,
                width as int,
                height as int,
            ).len() == sub_views(subs@).len());
        }
        if frames.len() == 0 {
            return Err(DecodeError::EmptyAnimation);
        }
        Ok(GifAnimation::new(frames, width, height))
    }
}

} // verus!
