//! Applying a color map to palette tables, pixel buffers and whole
//! documents.

use vstd::prelude::*;
use crate::color::{Color, ColorDepth};
use crate::color_map::{remap_color, ColorMap};
use crate::document::{
    Cel, CelChunk, Chunk, Document, Frame, PaletteChunk, PaletteEntry, Pixels, PixelsView,
};
use crate::transform::{stored_blob, transform_pixels, CodecError};

verus! {

/// A sequence of colors with every color replaced by what it becomes under
/// `map`.
pub open spec fn remap_colors(map: Map<Color, Color>, colors: Seq<Color>) -> Seq<Color> {
    colors.map_values(|c: Color| remap_color(map, c))
}

/// A pixel buffer after remapping: an RGBA buffer has each pixel remapped;
/// a buffer of another depth is left as it is.
pub open spec fn remap_pixels(map: Map<Color, Color>, pixels: PixelsView) -> PixelsView {
    match pixels {
        PixelsView::Rgba(p) => PixelsView::Rgba(remap_colors(map, p)),
        PixelsView::Grayscale(p) => PixelsView::Grayscale(p),
        PixelsView::Indexed(p) => PixelsView::Indexed(p),
    }
}

/// A palette table with the color of every entry remapped.
pub open spec fn remap_entries(map: Map<Color, Color>, entries: Seq<PaletteEntry>) -> Seq<
    PaletteEntry,
> {
    entries.map_values(|e: PaletteEntry| PaletteEntry { color: remap_color(map, e.color) })
}

/// Remaps every color of `colors` in place.
pub fn swap_colors(colors: &mut Vec<Color>, palette: &ColorMap)
    ensures
        final(colors)@ == remap_colors(palette@, old(colors)@),
{
    let n: usize = colors.len();
    let mut i: usize = 0;
    while i < n
        invariant
            i <= n,
            colors@.len() == n,
            old(colors)@.len() == n,
            forall|k: int| 0 <= k < i ==> colors@[k] == remap_color(palette@, old(colors)@[k]),
            forall|k: int| i <= k < n ==> colors@[k] == old(colors)@[k],
        decreases n - i,
    {
        let c: Color = colors[i];
        colors[i] = palette.apply(c);
        i += 1;
    }
}

/// Remaps a pixel buffer in place. Only an RGBA buffer holds colors; the
/// other depths pass through untouched.
pub fn swap_pixels(pixels: &mut Pixels, palette: &ColorMap)
    ensures
        final(pixels)@ == remap_pixels(palette@, old(pixels)@),
{
    match pixels {
        Pixels::Rgba(p) => {
            swap_colors(p, palette);
        },
        Pixels::Grayscale(_) => {},
        Pixels::Indexed(_) => {},
    }
}

/// Remaps the color of every entry of a palette table in place.
pub fn swap_palette(chunk: &mut PaletteChunk, palette: &ColorMap)
    ensures
        final(chunk)@ == remap_entries(palette@, old(chunk)@),
{
    let n: usize = chunk.palette_entries.len();
    let mut i: usize = 0;
    while i < n
        invariant
            i <= n,
            chunk@.len() == n,
            old(chunk)@.len() == n,
            forall|k: int|
                0 <= k < i ==> chunk@[k] == (PaletteEntry {
                    color: remap_color(palette@, old(chunk)@[k].color),
                }),
            forall|k: int| i <= k < n ==> chunk@[k] == old(chunk)@[k],
        decreases n - i,
    {
        let c: Color = chunk.palette_entries[i].color;
        chunk.palette_entries[i].color = palette.apply(c);
        i += 1;
    }
}

/// Whether `after` is a possible result of remapping the cel `before`.
///
/// A raw buffer is remapped in place. A linked cel stays as it is. A
/// compressed blob is replaced by what the encoder made of the remapped
/// decoding, or kept where the encoder failed. Width and height never
/// change.
pub open spec fn cel_swapped<D, E>(
    before: Cel,
    after: Cel,
    map: Map<Color, Color>,
    decode: D,
    encode: E,
) -> bool where
    D: Fn(&Vec<u8>, ColorDepth) -> Pixels,
    E: Fn(&Pixels) -> Result<Vec<u8>, CodecError>,
 {
    match before {
        Cel::RawPixels { width, height, pixels } => {
            &&& after matches Cel::RawPixels { width: w, height: h, pixels: changed }
            &&& w == width
            &&& h == height
            &&& changed@ == remap_pixels(map, pixels@)
        },
        Cel::LinkedCel { .. } => after == before,
        Cel::CompressedPixels { width, height, data } => {
            &&& after matches Cel::CompressedPixels { width: w, height: h, data: blob }
            &&& w == width
            &&& h == height
            &&& exists|decoded: Pixels, changed: Pixels, outcome: Result<Vec<u8>, CodecError>|
                #![trigger call_ensures(decode, (&data, ColorDepth::Rgba), decoded), call_ensures(encode, (&changed,), outcome)]
                {
                    &&& call_ensures(decode, (&data, ColorDepth::Rgba), decoded)
                    &&& changed@ == remap_pixels(map, decoded@)
                    &&& call_ensures(encode, (&changed,), outcome)
                    &&& blob == stored_blob(data, outcome)
                }
        },
    }
}

/// Whether `after` is a possible result of remapping the chunk `before`.
///
/// A palette table has every entry remapped. A cel chunk keeps its
/// placement and has its cel remapped. The deprecated palette tables and
/// every other kind of chunk stay as they are.
pub open spec fn chunk_swapped<D, E>(
    before: Chunk,
    after: Chunk,
    map: Map<Color, Color>,
    decode: D,
    encode: E,
) -> bool where
    D: Fn(&Vec<u8>, ColorDepth) -> Pixels,
    E: Fn(&Pixels) -> Result<Vec<u8>, CodecError>,
 {
    match before {
        Chunk::Palette(table) => {
            &&& after matches Chunk::Palette(changed)
            &&& changed@ == remap_entries(map, table@)
        },
        Chunk::Cel(chunk) => {
            &&& after matches Chunk::Cel(changed)
            &&& changed.layer_index == chunk.layer_index
            &&& changed.x_position == chunk.x_position
            &&& changed.y_position == chunk.y_position
            &&& changed.opacity_level == chunk.opacity_level
            &&& cel_swapped(chunk.cel, changed.cel, map, decode, encode)
        },
        Chunk::LegacyPaletteV4(_) => after == before,
        Chunk::LegacyPaletteV11(_) => after == before,
        Chunk::Other => after == before,
    }
}

/// Whether `after` holds, chunk for chunk, a possible result of remapping
/// the chunks of `before`.
pub open spec fn frame_swapped<D, E>(
    before: Frame,
    after: Frame,
    map: Map<Color, Color>,
    decode: D,
    encode: E,
) -> bool where
    D: Fn(&Vec<u8>, ColorDepth) -> Pixels,
    E: Fn(&Pixels) -> Result<Vec<u8>, CodecError>,
 {
    &&& after.chunks@.len() == before.chunks@.len()
    &&& forall|j: int|
        0 <= j < before.chunks@.len() ==> chunk_swapped(
            #[trigger] before.chunks@[j],
            after.chunks@[j],
            map,
            decode,
            encode,
        )
}

/// Whether `after` holds, frame for frame, a possible result of remapping
/// the frames of `before`.
pub open spec fn document_swapped<D, E>(
    before: Document,
    after: Document,
    map: Map<Color, Color>,
    decode: D,
    encode: E,
) -> bool where
    D: Fn(&Vec<u8>, ColorDepth) -> Pixels,
    E: Fn(&Pixels) -> Result<Vec<u8>, CodecError>,
 {
    &&& after.frames@.len() == before.frames@.len()
    &&& forall|i: int|
        0 <= i < before.frames@.len() ==> frame_swapped(
            #[trigger] before.frames@[i],
            after.frames@[i],
            map,
            decode,
            encode,
        )
}

/// Whether no color of the buffer is a key of `map`.
pub open spec fn pixels_avoid(map: Map<Color, Color>, pixels: PixelsView) -> bool {
    pixels matches PixelsView::Rgba(p) ==> forall|i: int|
        0 <= i < p.len() ==> !map.contains_key(#[trigger] p[i])
}

/// Whether no color that `chunk` holds is a key of `map`. The colors of a
/// compressed cel are those of every decoding of its blob.
pub open spec fn chunk_avoids<D>(map: Map<Color, Color>, chunk: Chunk, decode: D) -> bool where
    D: Fn(&Vec<u8>, ColorDepth) -> Pixels,
 {
    match chunk {
        Chunk::Palette(table) => forall|i: int|
            0 <= i < table@.len() ==> !map.contains_key((#[trigger] table@[i]).color),
        Chunk::Cel(cel_chunk) => match cel_chunk.cel {
            Cel::RawPixels { pixels, .. } => pixels_avoid(map, pixels@),
            Cel::LinkedCel { .. } => true,
            Cel::CompressedPixels { data, .. } => forall|decoded: Pixels| #[trigger]
                call_ensures(decode, (&data, ColorDepth::Rgba), decoded) ==> pixels_avoid(
                    map,
                    decoded@,
                ),
        },
        _ => true,
    }
}

/// Whether no color that the document holds is a key of `map`.
pub open spec fn document_avoids<D>(map: Map<Color, Color>, document: Document, decode: D) -> bool where
    D: Fn(&Vec<u8>, ColorDepth) -> Pixels,
 {
    forall|i: int, j: int|
        0 <= i < document.frames@.len() && 0 <= j < document.frames@[i].chunks@.len()
            ==> chunk_avoids(map, #[trigger] document.frames@[i].chunks@[j], decode)
}

/// Whether `after` holds what `before` held. Every chunk has the same
/// contents, with one allowance: the blob of a compressed cel may have been
/// replaced by an encoding of pixels equal to a decoding of it.
pub open spec fn chunk_kept<D, E>(before: Chunk, after: Chunk, decode: D, encode: E) -> bool where
    D: Fn(&Vec<u8>, ColorDepth) -> Pixels,
    E: Fn(&Pixels) -> Result<Vec<u8>, CodecError>,
 {
    match before {
        Chunk::Cel(
            CelChunk {
                layer_index,
                x_position,
                y_position,
                opacity_level,
                cel: Cel::CompressedPixels { width, height, data },
            },
        ) => {
            &&& after matches Chunk::Cel(kept)
            &&& kept.layer_index == layer_index
            &&& kept.x_position == x_position
            &&& kept.y_position == y_position
            &&& kept.opacity_level == opacity_level
            &&& kept.cel matches Cel::CompressedPixels { width: w, height: h, data: blob }
            &&& w == width
            &&& h == height
            &&& exists|decoded: Pixels, same: Pixels, outcome: Result<Vec<u8>, CodecError>|
                #![trigger call_ensures(decode, (&data, ColorDepth::Rgba), decoded), call_ensures(encode, (&same,), outcome)]
                {
                    &&& call_ensures(decode, (&data, ColorDepth::Rgba), decoded)
                    &&& same@ == decoded@
                    &&& call_ensures(encode, (&same,), outcome)
                    &&& blob == stored_blob(data, outcome)
                }
        },
        _ => after@ == before@,
    }
}

/// Whether `after` holds, chunk for chunk, what `before` held.
pub open spec fn document_kept<D, E>(before: Document, after: Document, decode: D, encode: E) -> bool where
    D: Fn(&Vec<u8>, ColorDepth) -> Pixels,
    E: Fn(&Pixels) -> Result<Vec<u8>, CodecError>,
 {
    &&& after.frames@.len() == before.frames@.len()
    &&& forall|i: int|
        0 <= i < before.frames@.len() ==> (#[trigger] after.frames@[i]).chunks@.len()
            == before.frames@[i].chunks@.len()
    &&& forall|i: int, j: int|
        0 <= i < before.frames@.len() && 0 <= j < before.frames@[i].chunks@.len() ==> chunk_kept(
            #[trigger] before.frames@[i].chunks@[j],
            after.frames@[i].chunks@[j],
            decode,
            encode,
        )
}

/// Whether some cel of the document is stored as a compressed blob.
pub open spec fn has_blob(document: Document) -> bool {
    exists|i: int, j: int|
        0 <= i < document.frames@.len() && 0 <= j < document.frames@[i].chunks@.len() && (
        #[trigger] document.frames@[i].chunks@[j] matches Chunk::Cel(cel_chunk)
            && cel_chunk.cel is CompressedPixels)
}

/// A document without a compressed cel that kept what it held is the same
/// document, chunk for chunk and pixel for pixel.
pub proof fn lemma_kept_without_blob<D, E>(before: Document, after: Document, decode: D, encode: E) where
    D: Fn(&Vec<u8>, ColorDepth) -> Pixels,
    E: Fn(&Pixels) -> Result<Vec<u8>, CodecError>,

    requires
        document_kept(before, after, decode, encode),
        !has_blob(before),
    ensures
        after@ == before@,
{
    assert forall|i: int| 0 <= i < before.frames@.len() implies after.frames@[i]@
        == before.frames@[i]@ by {
        assert(after.frames@[i].chunks@.len() == before.frames@[i].chunks@.len());
        assert forall|j: int| 0 <= j < before.frames@[i].chunks@.len() implies after.frames@[i]@[j]
            == before.frames@[i]@[j] by {
            assert(chunk_kept(
                before.frames@[i].chunks@[j],
                after.frames@[i].chunks@[j],
                decode,
                encode,
            ));
        }
        assert(after.frames@[i]@ =~= before.frames@[i]@);
    }
    assert(after@ =~= before@);
}

/// Remapping goes pixel by pixel: the buffer keeps its length and its
/// depth, each RGBA pixel becomes what the map makes of it, and a color
/// that is no key stays as it is.
pub proof fn lemma_remap_pixels_pointwise(map: Map<Color, Color>, pixels: PixelsView)
    ensures
        remap_pixels(map, pixels).len() == pixels.len(),
        pixels is Rgba <==> remap_pixels(map, pixels) is Rgba,
        !(pixels is Rgba) ==> remap_pixels(map, pixels) == pixels,
        pixels matches PixelsView::Rgba(p) ==> forall|i: int|
            0 <= i < p.len() ==> {
                let c = #[trigger] p[i];
                let out = remap_pixels(map, pixels)->Rgba_0[i];
                &&& map.contains_key(c) ==> out == map[c]
                &&& !map.contains_key(c) ==> out == c
            },
{
}

/// A buffer none of whose colors is a key is left as it is.
pub proof fn lemma_remap_pixels_avoiding(map: Map<Color, Color>, pixels: PixelsView)
    requires
        pixels_avoid(map, pixels),
    ensures
        remap_pixels(map, pixels) == pixels,
{
    match pixels {
        PixelsView::Rgba(p) => {
            assert(remap_colors(map, p) =~= p);
        },
        _ => {},
    }
}

/// A palette table none of whose colors is a key is left as it is.
pub proof fn lemma_remap_entries_avoiding(map: Map<Color, Color>, entries: Seq<PaletteEntry>)
    requires
        forall|i: int| 0 <= i < entries.len() ==> !map.contains_key((#[trigger] entries[i]).color),
    ensures
        remap_entries(map, entries) == entries,
{
    assert(remap_entries(map, entries) =~= entries);
}

/// The empty map changes neither a pixel buffer nor a palette table.
pub proof fn lemma_remap_with_empty_map(pixels: PixelsView, entries: Seq<PaletteEntry>)
    ensures
        remap_pixels(Map::<Color, Color>::empty(), pixels) == pixels,
        remap_entries(Map::<Color, Color>::empty(), entries) == entries,
{
    lemma_remap_pixels_avoiding(Map::<Color, Color>::empty(), pixels);
    lemma_remap_entries_avoiding(Map::<Color, Color>::empty(), entries);
}

/// Remapping a raw cel changes its pixels by the map and nothing else:
/// width, height, depth and the number of pixels stay.
pub proof fn lemma_raw_cel_swapped<D, E>(
    before: Cel,
    after: Cel,
    map: Map<Color, Color>,
    decode: D,
    encode: E,
) where D: Fn(&Vec<u8>, ColorDepth) -> Pixels, E: Fn(&Pixels) -> Result<Vec<u8>, CodecError>
    requires
        before is RawPixels,
        cel_swapped(before, after, map, decode, encode),
    ensures
        after is RawPixels,
        after@.geometry() == before@.geometry(),
        after->RawPixels_pixels@ == remap_pixels(map, before->RawPixels_pixels@),
        after->RawPixels_pixels@.len() == before->RawPixels_pixels@.len(),
{
    lemma_remap_pixels_pointwise(map, before->RawPixels_pixels@);
}

/// A linked cel comes out of a remap exactly as it went in, whatever the
/// map holds.
pub proof fn lemma_linked_cel_swapped<D, E>(
    before: Chunk,
    after: Chunk,
    map: Map<Color, Color>,
    decode: D,
    encode: E,
) where D: Fn(&Vec<u8>, ColorDepth) -> Pixels, E: Fn(&Pixels) -> Result<Vec<u8>, CodecError>
    requires
        before matches Chunk::Cel(c) && c.cel is LinkedCel,
        chunk_swapped(before, after, map, decode, encode),
    ensures
        after@ == before@,
{
}

/// Remapping never changes where a cel is placed, how it is stored, or its
/// width and height.
pub proof fn lemma_cel_geometry_kept<D, E>(
    before: Chunk,
    after: Chunk,
    map: Map<Color, Color>,
    decode: D,
    encode: E,
) where D: Fn(&Vec<u8>, ColorDepth) -> Pixels, E: Fn(&Pixels) -> Result<Vec<u8>, CodecError>
    requires
        before is Cel,
        chunk_swapped(before, after, map, decode, encode),
    ensures
        after is Cel,
        after->Cel_0.layer_index == before->Cel_0.layer_index,
        after->Cel_0.x_position == before->Cel_0.x_position,
        after->Cel_0.y_position == before->Cel_0.y_position,
        after->Cel_0.opacity_level == before->Cel_0.opacity_level,
        after->Cel_0.cel@.geometry() == before->Cel_0.cel@.geometry(),
        before->Cel_0.cel is RawPixels <==> after->Cel_0.cel is RawPixels,
        before->Cel_0.cel is LinkedCel <==> after->Cel_0.cel is LinkedCel,
        before->Cel_0.cel is CompressedPixels <==> after->Cel_0.cel is CompressedPixels,
{
}

/// A chunk none of whose colors is a key keeps what it held.
pub proof fn lemma_chunk_swapped_avoiding<D, E>(
    before: Chunk,
    after: Chunk,
    map: Map<Color, Color>,
    decode: D,
    encode: E,
) where D: Fn(&Vec<u8>, ColorDepth) -> Pixels, E: Fn(&Pixels) -> Result<Vec<u8>, CodecError>
    requires
        chunk_swapped(before, after, map, decode, encode),
        chunk_avoids(map, before, decode),
    ensures
        chunk_kept(before, after, decode, encode),
{
    match before {
        Chunk::Palette(table) => {
            lemma_remap_entries_avoiding(map, table@);
        },
        Chunk::Cel(cel_chunk) => {
            match cel_chunk.cel {
                Cel::RawPixels { width, height, pixels } => {
                    lemma_remap_pixels_avoiding(map, pixels@);
                },
                Cel::LinkedCel { .. } => {},
                Cel::CompressedPixels { width, height, data } => {
                    let (decoded, changed, outcome) = choose|
                        decoded: Pixels,
                        changed: Pixels,
                        outcome: Result<Vec<u8>, CodecError>,
                    |
                        #![trigger call_ensures(decode, (&data, ColorDepth::Rgba), decoded), call_ensures(encode, (&changed,), outcome)]
                        {
                            &&& call_ensures(decode, (&data, ColorDepth::Rgba), decoded)
                            &&& changed@ == remap_pixels(map, decoded@)
                            &&& call_ensures(encode, (&changed,), outcome)
                            &&& after->Cel_0.cel->CompressedPixels_data == stored_blob(
                                data,
                                outcome,
                            )
                        };
                    lemma_remap_pixels_avoiding(map, decoded@);
                },
            }
        },
        _ => {},
    }
}

/// If no color of a document is a key of the map, remapping it changes
/// nothing that it holds.
pub proof fn lemma_swap_avoiding<D, E>(
    before: Document,
    after: Document,
    map: Map<Color, Color>,
    decode: D,
    encode: E,
) where D: Fn(&Vec<u8>, ColorDepth) -> Pixels, E: Fn(&Pixels) -> Result<Vec<u8>, CodecError>
    requires
        document_swapped(before, after, map, decode, encode),
        document_avoids(map, before, decode),
    ensures
        document_kept(before, after, decode, encode),
{
    assert forall|i: int, j: int|
        0 <= i < before.frames@.len() && 0 <= j < before.frames@[i].chunks@.len() implies chunk_kept(
        #[trigger] before.frames@[i].chunks@[j],
        after.frames@[i].chunks@[j],
        decode,
        encode,
    ) by {
        assert(frame_swapped(before.frames@[i], after.frames@[i], map, decode, encode));
        lemma_chunk_swapped_avoiding(
            before.frames@[i].chunks@[j],
            after.frames@[i].chunks@[j],
            map,
            decode,
            encode,
        );
    }
    assert forall|i: int| 0 <= i < before.frames@.len() implies (#[trigger] after.frames@[i]).chunks@.len()
        == before.frames@[i].chunks@.len() by {
        assert(frame_swapped(before.frames@[i], after.frames@[i], map, decode, encode));
    }
}

/// Remapping a document with the empty map changes nothing that it holds.
pub proof fn lemma_swap_with_empty_map<D, E>(before: Document, after: Document, decode: D, encode: E) where
    D: Fn(&Vec<u8>, ColorDepth) -> Pixels,
    E: Fn(&Pixels) -> Result<Vec<u8>, CodecError>,

    requires
        document_swapped(before, after, Map::<Color, Color>::empty(), decode, encode),
    ensures
        document_kept(before, after, decode, encode),
{
    lemma_swap_avoiding(before, after, Map::<Color, Color>::empty(), decode, encode);
}

/// Remaps one chunk in place, by its kind.
pub fn swap_chunk<D, E>(chunk: &mut Chunk, palette: &ColorMap, decode: &D, encode: &E) where
    D: Fn(&Vec<u8>, ColorDepth) -> Pixels,
    E: Fn(&Pixels) -> Result<Vec<u8>, CodecError>,

    requires
        forall|data: &Vec<u8>| call_requires(*decode, (data, ColorDepth::Rgba)),
        forall|pixels: &Pixels| call_requires(*encode, (pixels,)),
    ensures
        chunk_swapped(*old(chunk), *final(chunk), palette@, *decode, *encode),
{
    match chunk {
        Chunk::LegacyPaletteV4(_) => {},
        Chunk::LegacyPaletteV11(_) => {},
        Chunk::Palette(table) => {
            swap_palette(table, palette);
        },
        Chunk::Cel(cel_chunk) => {
            let swap = |pixels: Pixels| -> (changed: Pixels)
                ensures
                    changed@ == remap_pixels(palette@, pixels@),
                {
                    let mut pixels = pixels;
                    swap_pixels(&mut pixels, palette);
                    pixels
                };
            transform_pixels(cel_chunk, decode, encode, swap);
        },
        Chunk::Other => {},
    }
}

/// Remaps every chunk of one frame in place, in frame order.
pub fn swap_frame<D, E>(frame: &mut Frame, palette: &ColorMap, decode: &D, encode: &E) where
    D: Fn(&Vec<u8>, ColorDepth) -> Pixels,
    E: Fn(&Pixels) -> Result<Vec<u8>, CodecError>,

    requires
        forall|data: &Vec<u8>| call_requires(*decode, (data, ColorDepth::Rgba)),
        forall|pixels: &Pixels| call_requires(*encode, (pixels,)),
    ensures
        frame_swapped(*old(frame), *final(frame), palette@, *decode, *encode),
{
    let n: usize = frame.chunks.len();
    let mut j: usize = 0;
    while j < n
        invariant
            j <= n,
            frame.chunks@.len() == n,
            old(frame).chunks@.len() == n,
            forall|data: &Vec<u8>| call_requires(*decode, (data, ColorDepth::Rgba)),
            forall|pixels: &Pixels| call_requires(*encode, (pixels,)),
            forall|k: int|
                0 <= k < j ==> chunk_swapped(
                    #[trigger] old(frame).chunks@[k],
                    frame.chunks@[k],
                    palette@,
                    *decode,
                    *encode,
                ),
            forall|k: int| j <= k < n ==> frame.chunks@[k] == old(frame).chunks@[k],
        decreases n - j,
    {
        swap_chunk(&mut frame.chunks[j], palette, decode, encode);
        j += 1;
    }
}

/// Remaps every color of `ase` that is a key of `palette`, in place.
///
/// Frames are taken in document order and chunks in frame order. Palette
/// tables and the pixels of raw and compressed cels are remapped; linked
/// cels, the deprecated palette tables and all other chunks are left as
/// they are. A compressed cel whose remapped pixels the encoder fails to
/// compress keeps the blob it had, and the walk goes on.
pub fn palette_swap_ase<D, E>(ase: &mut Document, palette: &ColorMap, decode: &D, encode: &E) where
    D: Fn(&Vec<u8>, ColorDepth) -> Pixels,
    E: Fn(&Pixels) -> Result<Vec<u8>, CodecError>,

    requires
        forall|data: &Vec<u8>| call_requires(*decode, (data, ColorDepth::Rgba)),
        forall|pixels: &Pixels| call_requires(*encode, (pixels,)),
    ensures
        document_swapped(*old(ase), *final(ase), palette@, *decode, *encode),
{
    let n: usize = ase.frames.len();
    let mut i: usize = 0;
    while i < n
        invariant
            i <= n,
            ase.frames@.len() == n,
            old(ase).frames@.len() == n,
            forall|data: &Vec<u8>| call_requires(*decode, (data, ColorDepth::Rgba)),
            forall|pixels: &Pixels| call_requires(*encode, (pixels,)),
            forall|k: int|
                0 <= k < i ==> frame_swapped(
                    #[trigger] old(ase).frames@[k],
                    ase.frames@[k],
                    palette@,
                    *decode,
                    *encode,
                ),
            forall|k: int| i <= k < n ==> ase.frames@[k] == old(ase).frames@[k],
        decreases n - i,
    {
        swap_frame(&mut ase.frames[i], palette, decode, encode);
        i += 1;
    }
}

} // verus!
