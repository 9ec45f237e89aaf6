//! One operation that changes the pixels of a cel, whatever its storage
//! encoding: a raw buffer is changed in place, a compressed blob is decoded,
//! changed and encoded again, a linked cel is left alone.
//!
//! The codec is not part of this library. Its two directions are handed in
//! as functions, and every contract here holds for whatever they return.

use vstd::prelude::*;
use crate::color::ColorDepth;
use crate::document::{Cel, CelChunk, Pixels};

verus! {

/// The failure of an encoder to compress a pixel buffer.
#[derive(Clone, Copy, Debug, PartialEq, Eq, Structural)]
pub struct CodecError {}

/// The blob that a compressed cel holds once the encoder has answered: the
/// new bytes after a success, the bytes it held before after a failure.
pub open spec fn stored_blob(held: Vec<u8>, outcome: Result<Vec<u8>, CodecError>) -> Vec<u8> {
    match outcome {
        Ok(bytes) => bytes,
        Err(_) => held,
    }
}

/// Whether `after` is a possible result of transforming the cel `before`
/// with `func`, given the codec.
pub open spec fn transformed<D, E, F>(before: Cel, after: Cel, decode: D, encode: E, func: F) -> bool
    where
        D: Fn(&Vec<u8>, ColorDepth) -> Pixels,
        E: Fn(&Pixels) -> Result<Vec<u8>, CodecError>,
        F: FnOnce(Pixels) -> Pixels,
{
    match before {
        Cel::RawPixels { width, height, pixels } => {
            &&& after matches Cel::RawPixels { width: w, height: h, pixels: changed }
            &&& w == width
            &&& h == height
            &&& call_ensures(func, (pixels,), changed)
        },
        Cel::LinkedCel { .. } => after == before,
        Cel::CompressedPixels { width, height, data } => {
            &&& after matches Cel::CompressedPixels { width: w, height: h, data: blob }
            &&& w == width
            &&& h == height
            &&& exists|decoded: Pixels, changed: Pixels, outcome: Result<Vec<u8>, CodecError>|
                #![trigger call_ensures(func, (decoded,), changed), call_ensures(encode, (&changed,), outcome)]
                {
                    &&& call_ensures(decode, (&data, ColorDepth::Rgba), decoded)
                    &&& call_ensures(func, (decoded,), changed)
                    &&& call_ensures(encode, (&changed,), outcome)
                    &&& blob == stored_blob(data, outcome)
                }
        },
    }
}

/// Whether the codec gives back what it was given: every decoding of bytes
/// that the encoder produced holds the pixels that were encoded.
pub open spec fn codec_round_trips<D, E>(decode: D, encode: E) -> bool where
    D: Fn(&Vec<u8>, ColorDepth) -> Pixels,
    E: Fn(&Pixels) -> Result<Vec<u8>, CodecError>,
 {
    forall|pixels: Pixels, bytes: Vec<u8>, decoded: Pixels|
        #![trigger call_ensures(encode, (&pixels,), Ok::<Vec<u8>, CodecError>(bytes)), call_ensures(decode, (&bytes, ColorDepth::Rgba), decoded)]
        call_ensures(encode, (&pixels,), Ok::<Vec<u8>, CodecError>(bytes)) && call_ensures(
            decode,
            (&bytes, ColorDepth::Rgba),
            decoded,
        ) ==> decoded@ == pixels@
}

/// Transforming a compressed cel with a function that changes no pixel
/// keeps its picture, under a codec that round-trips: whatever the new blob
/// decodes to, the old blob could decode to the same pixels. The bytes of
/// the blob may differ.
pub proof fn lemma_identity_transform_keeps_pixels<D, E, F>(
    before: Cel,
    after: Cel,
    decode: D,
    encode: E,
    func: F,
    redecoded: Pixels,
) where
    D: Fn(&Vec<u8>, ColorDepth) -> Pixels,
    E: Fn(&Pixels) -> Result<Vec<u8>, CodecError>,
    F: FnOnce(Pixels) -> Pixels,

    requires
        before is CompressedPixels,
        transformed(before, after, decode, encode, func),
        forall|given: Pixels, returned: Pixels| #[trigger]
            call_ensures(func, (given,), returned) ==> returned@ == given@,
        codec_round_trips(decode, encode),
        call_ensures(decode, (&after->CompressedPixels_data, ColorDepth::Rgba), redecoded),
    ensures
        after is CompressedPixels,
        after@.geometry() == before@.geometry(),
        exists|decoded: Pixels| #[trigger]
            call_ensures(decode, (&before->CompressedPixels_data, ColorDepth::Rgba), decoded)
                && decoded@ == redecoded@,
{
    let data = before->CompressedPixels_data;
    let blob = after->CompressedPixels_data;
    let (decoded, changed, outcome) = choose|
        decoded: Pixels,
        changed: Pixels,
        outcome: Result<Vec<u8>, CodecError>,
    |
        #![trigger call_ensures(func, (decoded,), changed), call_ensures(encode, (&changed,), outcome)]
        {
            &&& call_ensures(decode, (&data, ColorDepth::Rgba), decoded)
            &&& call_ensures(func, (decoded,), changed)
            &&& call_ensures(encode, (&changed,), outcome)
            &&& blob == stored_blob(data, outcome)
        };
    match outcome {
        Ok(bytes) => {
            assert(call_ensures(encode, (&changed,), Ok::<Vec<u8>, CodecError>(bytes)));
            assert(redecoded@ == changed@);
            assert(call_ensures(decode, (&data, ColorDepth::Rgba), decoded));
        },
        Err(_) => {
            assert(call_ensures(decode, (&data, ColorDepth::Rgba), redecoded));
        },
    }
}

/// Stores the encoder's answer in the blob of a compressed cel. A failed
/// encoding leaves the bytes that are there in place.
pub fn store_encoded(data: &mut Vec<u8>, outcome: Result<Vec<u8>, CodecError>)
    ensures
        *final(data) == stored_blob(*old(data), outcome),
{
    match outcome {
        Ok(bytes) => {
            *data = bytes;
        },
        Err(_) => {},
    }
}

/// Applies `func` to the pixels of the cel in `chunk`.
///
/// A raw buffer is handed to `func` directly. A compressed blob is decoded
/// as RGBA, handed to `func`, and encoded again; if the encoder fails, the
/// blob stays as it was. A linked cel is not touched. The placement of the
/// chunk and the geometry of the cel never change.
pub fn transform_pixels<D, E, F>(chunk: &mut CelChunk, decode: &D, encode: &E, func: F)
    where
        D: Fn(&Vec<u8>, ColorDepth) -> Pixels,
        E: Fn(&Pixels) -> Result<Vec<u8>, CodecError>,
        F: FnOnce(Pixels) -> Pixels,
    requires
        forall|data: &Vec<u8>| call_requires(*decode, (data, ColorDepth::Rgba)),
        forall|pixels: &Pixels| call_requires(*encode, (pixels,)),
        forall|pixels: Pixels| call_requires(func, (pixels,)),
    ensures
        final(chunk).layer_index == old(chunk).layer_index,
        final(chunk).x_position == old(chunk).x_position,
        final(chunk).y_position == old(chunk).y_position,
        final(chunk).opacity_level == old(chunk).opacity_level,
        transformed(old(chunk).cel, final(chunk).cel, *decode, *encode, func),
{
    match &mut chunk.cel {
        Cel::RawPixels { pixels, .. } => {
            let mut taken = Pixels::Indexed(Vec::new());
            core::mem::swap(pixels, &mut taken);
            *pixels = func(taken);
        },
        Cel::CompressedPixels { data, .. } => {
            let decoded = decode(data, ColorDepth::Rgba);
            let changed = func(decoded);
            let outcome = encode(&changed);
            store_encoded(data, outcome);
        },
        Cel::LinkedCel { .. } => {},
    }
}

} // verus!
