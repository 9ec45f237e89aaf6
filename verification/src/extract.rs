//! Building a color map from a reference document whose cels hold the
//! source colors in their top row and the destination colors in the row
//! below.

use vstd::prelude::*;
use crate::color::{Color, ColorDepth};
use crate::color_map::ColorMap;
use crate::document::{Cel, Chunk, Document, Frame, Pixels, PixelsView};

verus! {

/// `map` after the pairs of the first `n` columns have been inserted, left
/// to right. Column `x` pairs the pixel at `x` with the pixel one row
/// below it, at `x + width`.
pub open spec fn absorb_columns(
    map: Map<Color, Color>,
    pixels: Seq<Color>,
    width: int,
    n: nat,
) -> Map<Color, Color>
    decreases n,
{
    if n == 0 {
        map
    } else {
        absorb_columns(map, pixels, width, (n - 1) as nat).insert(
            pixels[n - 1],
            pixels[n - 1 + width],
        )
    }
}

/// Whether a buffer of the declared geometry yields any pair: it needs a
/// column, two rows, RGBA pixels, and both rows present in the buffer.
pub open spec fn usable(width: u16, height: u16, pixels: PixelsView) -> bool {
    &&& width >= 1
    &&& height >= 2
    &&& pixels matches PixelsView::Rgba(p)
    &&& p.len() >= 2 * width
}

/// `map` after one pixel buffer has been read: every column of a usable
/// buffer adds its pair, and a buffer that is not usable adds nothing.
pub open spec fn absorb_buffer(
    map: Map<Color, Color>,
    width: u16,
    height: u16,
    pixels: PixelsView,
) -> Map<Color, Color> {
    if usable(width, height, pixels) {
        absorb_columns(map, pixels->Rgba_0, width as int, width as nat)
    } else {
        map
    }
}

/// Whether reading `chunk` takes a decoding: only a compressed cel with at
/// least one column and two rows is decoded.
pub open spec fn is_decoded(chunk: Chunk) -> bool {
    &&& chunk matches Chunk::Cel(cel_chunk)
    &&& cel_chunk.cel matches Cel::CompressedPixels { width, height, .. }
    &&& width >= 1
    &&& height >= 2
}

/// `map` after `chunk` has been read, where `decoded` is what the blob of
/// a compressed cel decoded to.
///
/// Only a cel chunk is read. A raw cel offers its buffer, a compressed cel
/// its decoding, a linked cel nothing.
pub open spec fn absorb_chunk_with(
    map: Map<Color, Color>,
    chunk: Chunk,
    decoded: PixelsView,
) -> Map<Color, Color> {
    match chunk {
        Chunk::Cel(cel_chunk) => match cel_chunk.cel {
            Cel::RawPixels { width, height, pixels } => absorb_buffer(map, width, height, pixels@),
            Cel::CompressedPixels { width, height, .. } => absorb_buffer(
                map,
                width,
                height,
                decoded,
            ),
            Cel::LinkedCel { .. } => map,
        },
        _ => map,
    }
}

/// `map` after the first `n` of `chunks` have been read in order, chunk
/// `j` with the decoding `decoded[j]`.
pub open spec fn absorb_chunks_with(
    map: Map<Color, Color>,
    chunks: Seq<Chunk>,
    decoded: Seq<PixelsView>,
    n: nat,
) -> Map<Color, Color>
    decreases n,
{
    if n == 0 {
        map
    } else {
        absorb_chunk_with(
            absorb_chunks_with(map, chunks, decoded, (n - 1) as nat),
            chunks[n - 1],
            decoded[n - 1],
        )
    }
}

/// `map` after the first `n` of `frames` have been read in order, each of
/// them whole, chunk `j` of frame `i` with the decoding `decoded[i][j]`.
pub open spec fn absorb_frames_with(
    map: Map<Color, Color>,
    frames: Seq<Frame>,
    decoded: Seq<Seq<PixelsView>>,
    n: nat,
) -> Map<Color, Color>
    decreases n,
{
    if n == 0 {
        map
    } else {
        absorb_chunks_with(
            absorb_frames_with(map, frames, decoded, (n - 1) as nat),
            frames[n - 1].chunks@,
            decoded[n - 1],
            frames[n - 1].chunks@.len(),
        )
    }
}

/// The color map that the frames encode, given what each blob decoded to:
/// all frames read in order into the empty map.
pub open spec fn extracted(frames: Seq<Frame>, decoded: Seq<Seq<PixelsView>>) -> Map<Color, Color> {
    absorb_frames_with(Map::<Color, Color>::empty(), frames, decoded, frames.len())
}

/// Whether `decoded` may stand for `chunk`: where the chunk is decoded, it
/// holds a decoding of the blob as RGBA.
pub open spec fn chunk_decoding<D>(chunk: Chunk, decoded: PixelsView, decode: D) -> bool where
    D: Fn(&Vec<u8>, ColorDepth) -> Pixels,
 {
    is_decoded(chunk) ==> exists|pixels: Pixels| #[trigger]
        call_ensures(
            decode,
            (&chunk->Cel_0.cel->CompressedPixels_data, ColorDepth::Rgba),
            pixels,
        ) && pixels@ == decoded
}

/// Whether `decoded` has the shape of `frames` and holds, at the place of
/// every chunk that is decoded, a decoding of its blob.
pub open spec fn decodings<D>(frames: Seq<Frame>, decoded: Seq<Seq<PixelsView>>, decode: D) -> bool where
    D: Fn(&Vec<u8>, ColorDepth) -> Pixels,
 {
    &&& decoded.len() == frames.len()
    &&& forall|i: int|
        0 <= i < frames.len() ==> (#[trigger] decoded[i]).len() == frames[i].chunks@.len()
    &&& forall|i: int, j: int|
        0 <= i < frames.len() && 0 <= j < frames[i].chunks@.len() ==> chunk_decoding(
            #[trigger] frames[i].chunks@[j],
            decoded[i][j],
            decode,
        )
}

/// The last of the first `n` columns whose top pixel is `c`, or -1 where
/// none of them has `c` on top.
pub open spec fn last_column(pixels: Seq<Color>, n: nat, c: Color) -> int
    decreases n,
{
    if n == 0 {
        -1
    } else if pixels[n - 1] == c {
        n - 1
    } else {
        last_column(pixels, (n - 1) as nat, c)
    }
}

/// [`last_column`] is the greatest column below `n` with `c` on top.
pub proof fn lemma_last_column(pixels: Seq<Color>, n: nat, c: Color)
    ensures
        -1 <= last_column(pixels, n, c) < n,
        last_column(pixels, n, c) >= 0 ==> pixels[last_column(pixels, n, c)] == c,
        forall|y: int| last_column(pixels, n, c) < y < n ==> pixels[y] != c,
    decreases n,
{
    if n > 0 {
        lemma_last_column(pixels, (n - 1) as nat, c);
    }
}

/// What a row of columns binds: a color on top of some column is bound to
/// the pixel below the last such column, and every other color keeps the
/// binding it had before, or none.
pub proof fn lemma_absorb_columns(
    map: Map<Color, Color>,
    pixels: Seq<Color>,
    width: int,
    n: nat,
    c: Color,
)
    ensures
        last_column(pixels, n, c) >= 0 ==> {
            &&& absorb_columns(map, pixels, width, n).contains_key(c)
            &&& absorb_columns(map, pixels, width, n)[c] == pixels[last_column(pixels, n, c)
                + width]
        },
        last_column(pixels, n, c) < 0 ==> {
            &&& absorb_columns(map, pixels, width, n).contains_key(c) <==> map.contains_key(c)
            &&& map.contains_key(c) ==> absorb_columns(map, pixels, width, n)[c] == map[c]
        },
    decreases n,
{
    if n > 0 {
        lemma_absorb_columns(map, pixels, width, (n - 1) as nat, c);
    }
}

/// Reading the first `n` chunks looks at the first `n` decodings only.
pub proof fn lemma_absorb_chunks_prefix(
    map: Map<Color, Color>,
    chunks: Seq<Chunk>,
    first: Seq<PixelsView>,
    second: Seq<PixelsView>,
    n: nat,
)
    requires
        n <= first.len(),
        n <= second.len(),
        forall|k: int| 0 <= k < n ==> first[k] == second[k],
    ensures
        absorb_chunks_with(map, chunks, first, n) == absorb_chunks_with(map, chunks, second, n),
    decreases n,
{
    if n > 0 {
        lemma_absorb_chunks_prefix(map, chunks, first, second, (n - 1) as nat);
    }
}

/// Reading the first `n` frames looks at the decodings of those frames
/// only.
pub proof fn lemma_absorb_frames_prefix(
    map: Map<Color, Color>,
    frames: Seq<Frame>,
    first: Seq<Seq<PixelsView>>,
    second: Seq<Seq<PixelsView>>,
    n: nat,
)
    requires
        n <= first.len(),
        n <= second.len(),
        forall|k: int| 0 <= k < n ==> first[k] == second[k],
    ensures
        absorb_frames_with(map, frames, first, n) == absorb_frames_with(map, frames, second, n),
    decreases n,
{
    if n > 0 {
        lemma_absorb_frames_prefix(map, frames, first, second, (n - 1) as nat);
    }
}

/// Whether the decoder is a function of the blob: two decodings of one
/// blob hold the same pixels.
pub open spec fn decoder_is_function<D>(decode: D) -> bool where
    D: Fn(&Vec<u8>, ColorDepth) -> Pixels,
 {
    forall|data: Vec<u8>, first: Pixels, second: Pixels|
        #![trigger call_ensures(decode, (&data, ColorDepth::Rgba), first), call_ensures(decode, (&data, ColorDepth::Rgba), second)]
        call_ensures(decode, (&data, ColorDepth::Rgba), first) && call_ensures(
            decode,
            (&data, ColorDepth::Rgba),
            second,
        ) ==> first@ == second@
}

/// Two readings of the same chunks from the same map end in the same map,
/// if their decodings agree wherever a chunk is decoded.
pub proof fn lemma_absorb_chunks_unique(
    map: Map<Color, Color>,
    chunks: Seq<Chunk>,
    first: Seq<PixelsView>,
    second: Seq<PixelsView>,
    n: nat,
)
    requires
        n <= chunks.len(),
        forall|j: int| 0 <= j < n && is_decoded(#[trigger] chunks[j]) ==> first[j] == second[j],
    ensures
        absorb_chunks_with(map, chunks, first, n) == absorb_chunks_with(map, chunks, second, n),
    decreases n,
{
    if n > 0 {
        lemma_absorb_chunks_unique(map, chunks, first, second, (n - 1) as nat);
        assert(is_decoded(chunks[n - 1]) ==> first[n - 1] == second[n - 1]);
    }
}

/// Extraction is determined by the document: under a decoder that is a
/// function, whatever decodings two readings of the same frames took, they
/// end in the same map.
pub proof fn lemma_extraction_unique<D>(
    map: Map<Color, Color>,
    frames: Seq<Frame>,
    first: Seq<Seq<PixelsView>>,
    second: Seq<Seq<PixelsView>>,
    n: nat,
    decode: D,
) where D: Fn(&Vec<u8>, ColorDepth) -> Pixels
    requires
        n <= frames.len(),
        decoder_is_function(decode),
        decodings(frames, first, decode),
        decodings(frames, second, decode),
    ensures
        absorb_frames_with(map, frames, first, n) == absorb_frames_with(map, frames, second, n),
    decreases n,
{
    if n > 0 {
        lemma_extraction_unique(map, frames, first, second, (n - 1) as nat, decode);
        let chunks = frames[n - 1].chunks@;
        assert forall|j: int| 0 <= j < chunks.len() && is_decoded(#[trigger] chunks[j]) implies first[n
            - 1][j] == second[n - 1][j] by {
            assert(chunk_decoding(frames[n - 1].chunks@[j], first[n - 1][j], decode));
            assert(chunk_decoding(frames[n - 1].chunks@[j], second[n - 1][j], decode));
        }
        lemma_absorb_chunks_unique(
            absorb_frames_with(map, frames, first, (n - 1) as nat),
            chunks,
            first[n - 1],
            second[n - 1],
            chunks.len(),
        );
    }
}

/// Reads one pixel buffer into `palette`: where the buffer is usable, each
/// column binds its top pixel to the pixel below it.
pub fn absorb_pixels(palette: &mut ColorMap, width: u16, height: u16, pixels: &Pixels)
    ensures
        final(palette)@ == absorb_buffer(old(palette)@, width, height, pixels@),
{
    if width < 1 || height < 2 {
        return ;
    }
    match pixels {
        Pixels::Rgba(p) => {
            let w: usize = width as usize;
            if p.len() < 2 * w {
                return ;
            }
            let mut x: usize = 0;
            while x < w
                invariant
                    x <= w,
                    w == width,
                    p@.len() >= 2 * w,
                    palette@ == absorb_columns(old(palette)@, p@, w as int, x as nat),
                decreases w - x,
            {
                let from: Color = p[x];
                let to: Color = p[x + w];
                palette.insert(from, to);
                x += 1;
            }
        },
        Pixels::Grayscale(_) => {},
        Pixels::Indexed(_) => {},
    }
}

/// Reads one chunk into `palette`. A compressed cel with at least one
/// column and two rows is decoded as RGBA; no other chunk is decoded.
pub fn absorb_chunk<D>(palette: &mut ColorMap, chunk: &Chunk, decode: &D) where
    D: Fn(&Vec<u8>, ColorDepth) -> Pixels,

    requires
        forall|data: &Vec<u8>| call_requires(*decode, (data, ColorDepth::Rgba)),
    ensures
        exists|decoded: PixelsView|
            #![trigger chunk_decoding(*chunk, decoded, *decode)]
            chunk_decoding(*chunk, decoded, *decode) && final(palette)@ == absorb_chunk_with(
                old(palette)@,
                *chunk,
                decoded,
            ),
{
    let ghost nothing = PixelsView::Indexed(Seq::<u8>::empty());
    match chunk {
        Chunk::Cel(cel_chunk) => match &cel_chunk.cel {
            Cel::RawPixels { width, height, pixels } => {
                absorb_pixels(palette, *width, *height, pixels);
                assert(chunk_decoding(*chunk, nothing, *decode));
            },
            Cel::CompressedPixels { width, height, data } => {
                if *width < 1 || *height < 2 {
                    assert(chunk_decoding(*chunk, nothing, *decode));
                    return ;
                }
                let decoded = decode(data, ColorDepth::Rgba);
                absorb_pixels(palette, *width, *height, &decoded);
                assert(chunk_decoding(*chunk, decoded@, *decode));
            },
            Cel::LinkedCel { .. } => {
                assert(chunk_decoding(*chunk, nothing, *decode));
            },
        },
        _ => {
            assert(chunk_decoding(*chunk, nothing, *decode));
        },
    }
}

/// Builds the color map that a reference document encodes.
///
/// Every cel chunk of every frame is read, frames in document order and
/// chunks in frame order. A cel that stores pixels of its own, at least
/// one column wide and two rows tall, binds each pixel of its top row to
/// the pixel below it. A later binding of a color replaces an earlier one.
/// A document without such a cel gives the empty map.
///
/// The result is [`extracted`] for the decodings that `decode` returned.
pub fn ase_to_palettemap<D>(ase: &Document, decode: &D) -> (palette: ColorMap) where
    D: Fn(&Vec<u8>, ColorDepth) -> Pixels,

    requires
        forall|data: &Vec<u8>| call_requires(*decode, (data, ColorDepth::Rgba)),
    ensures
        exists|decoded: Seq<Seq<PixelsView>>|
            #![trigger decodings(ase.frames@, decoded, *decode)]
            decodings(ase.frames@, decoded, *decode) && palette@ == extracted(ase.frames@, decoded),
{
    let mut palette = ColorMap::new();
    let ghost mut decoded: Seq<Seq<PixelsView>> = Seq::empty();
    let frame_count: usize = ase.frames.len();
    let mut i: usize = 0;
    while i < frame_count
        invariant
            i <= frame_count,
            frame_count == ase.frames@.len(),
            forall|data: &Vec<u8>| call_requires(*decode, (data, ColorDepth::Rgba)),
            decoded.len() == i,
            forall|k: int|
                0 <= k < i ==> (#[trigger] decoded[k]).len() == ase.frames@[k].chunks@.len(),
            forall|k: int, j: int|
                0 <= k < i && 0 <= j < ase.frames@[k].chunks@.len() ==> chunk_decoding(
                    #[trigger] ase.frames@[k].chunks@[j],
                    decoded[k][j],
                    *decode,
                ),
            palette@ == absorb_frames_with(
                Map::<Color, Color>::empty(),
                ase.frames@,
                decoded,
                i as nat,
            ),
        decreases frame_count - i,
    {
        let frame = &ase.frames[i];
        let ghost at_frame_start = palette@;
        let ghost mut row: Seq<PixelsView> = Seq::empty();
        let chunk_count: usize = frame.chunks.len();
        let mut j: usize = 0;
        while j < chunk_count
            invariant
                j <= chunk_count,
                chunk_count == frame.chunks@.len(),
                forall|data: &Vec<u8>| call_requires(*decode, (data, ColorDepth::Rgba)),
                row.len() == j,
                forall|k: int|
                    0 <= k < j ==> chunk_decoding(#[trigger] frame.chunks@[k], row[k], *decode),
                palette@ == absorb_chunks_with(at_frame_start, frame.chunks@, row, j as nat),
            decreases chunk_count - j,
        {
            let ghost before_chunk = palette@;
            absorb_chunk(&mut palette, &frame.chunks[j], decode);
            proof {
                let taken = choose|taken: PixelsView|
                    #![trigger chunk_decoding(frame.chunks@[j as int], taken, *decode)]
                    chunk_decoding(frame.chunks@[j as int], taken, *decode) && palette@
                        == absorb_chunk_with(before_chunk, frame.chunks@[j as int], taken);
                lemma_absorb_chunks_prefix(
                    at_frame_start,
                    frame.chunks@,
                    row,
                    row.push(taken),
                    j as nat,
                );
                row = row.push(taken);
            }
            j += 1;
        }
        proof {
            lemma_absorb_frames_prefix(
                Map::<Color, Color>::empty(),
                ase.frames@,
                decoded,
                decoded.push(row),
                i as nat,
            );
            decoded = decoded.push(row);
        }
        i += 1;
    }
    assert(decodings(ase.frames@, decoded, *decode));
    palette
}

} // verus!
