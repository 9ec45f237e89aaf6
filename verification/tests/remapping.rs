use palette_swap::{
    ase_to_palettemap, palette_swap_ase, store_encoded, swap_colors, swap_palette, swap_pixels, transform_pixels,
    Cel, CelChunk, Chunk, CodecError, Color, ColorDepth, ColorMap, Document, Frame, Gray,
    LegacyPalette, PaletteChunk, PaletteEntry, Pixels, Rgb,
};

const RED: Color = Color { r: 255, g: 0, b: 0, a: 255 };
const GREEN: Color = Color { r: 0, g: 255, b: 0, a: 255 };
const BLUE: Color = Color { r: 0, g: 0, b: 255, a: 255 };
const BLACK: Color = Color { r: 0, g: 0, b: 0, a: 255 };
const WHITE: Color = Color { r: 255, g: 255, b: 255, a: 255 };
const YELLOW: Color = Color { r: 255, g: 255, b: 0, a: 255 };
const MAGENTA: Color = Color { r: 255, g: 0, b: 255, a: 255 };

fn three_color_map() -> ColorMap {
    let mut map = ColorMap::new();
    map.insert(RED, BLACK);
    map.insert(GREEN, WHITE);
    map.insert(BLUE, YELLOW);
    map
}

fn placed(cel: Cel) -> CelChunk {
    CelChunk { layer_index: 3, x_position: -7, y_position: 12, opacity_level: 200, cel }
}

fn raw(width: u16, height: u16, pixels: Vec<Color>) -> Chunk {
    Chunk::Cel(placed(Cel::RawPixels { width, height, pixels: Pixels::Rgba(pixels) }))
}

fn compressed(width: u16, height: u16, pixels: &[Color]) -> Chunk {
    Chunk::Cel(placed(Cel::CompressedPixels { width, height, data: toy_bytes(pixels) }))
}

fn palette(colors: &[Color]) -> Chunk {
    Chunk::Palette(PaletteChunk {
        palette_entries: colors.iter().map(|c| PaletteEntry { color: *c }).collect(),
    })
}

fn document(frames: Vec<Vec<Chunk>>) -> Document {
    Document { frames: frames.into_iter().map(|chunks| Frame { chunks }).collect() }
}

/// A stand-in for the real codec: a marker byte, then four bytes a pixel.
fn toy_bytes(pixels: &[Color]) -> Vec<u8> {
    let mut bytes = vec![0xC0];
    for c in pixels {
        bytes.extend_from_slice(&[c.r, c.g, c.b, c.a]);
    }
    bytes
}

fn toy_decode(data: &Vec<u8>, depth: ColorDepth) -> Pixels {
    assert_eq!(depth, ColorDepth::Rgba);
    assert_eq!(data[0], 0xC0);
    Pixels::Rgba(data[1..].chunks(4).map(|c| Color::new(c[0], c[1], c[2], c[3])).collect())
}

fn toy_encode(pixels: &Pixels) -> Result<Vec<u8>, CodecError> {
    match pixels {
        Pixels::Rgba(p) => Ok(toy_bytes(p)),
        _ => Err(CodecError {}),
    }
}

fn no_decode(_: &Vec<u8>, _: ColorDepth) -> Pixels {
    panic!("no blob is to be decoded here")
}

fn no_encode(_: &Pixels) -> Result<Vec<u8>, CodecError> {
    panic!("no buffer is to be encoded here")
}

fn failing_encode(_: &Pixels) -> Result<Vec<u8>, CodecError> {
    Err(CodecError {})
}

#[test]
fn raw_cel_is_remapped_and_other_colors_stay() {
    let mut target = document(vec![vec![raw(3, 1, vec![RED, BLUE, MAGENTA])]]);
    palette_swap_ase(&mut target, &three_color_map(), &no_decode, &no_encode);
    assert_eq!(target, document(vec![vec![raw(3, 1, vec![BLACK, YELLOW, MAGENTA])]]));
}

#[test]
fn reference_image_recolors_the_target_document() {
    let reference = document(vec![vec![raw(3, 2, vec![RED, GREEN, BLUE, BLACK, WHITE, YELLOW])]]);
    let map = ase_to_palettemap(&reference, &no_decode);
    let mut target = document(vec![vec![raw(3, 1, vec![RED, BLUE, MAGENTA])]]);
    palette_swap_ase(&mut target, &map, &no_decode, &no_encode);
    assert_eq!(target, document(vec![vec![raw(3, 1, vec![BLACK, YELLOW, MAGENTA])]]));
}

#[test]
fn empty_map_leaves_the_document_identical() {
    let build = || {
        document(vec![
            vec![
                palette(&[RED, GREEN, MAGENTA]),
                raw(2, 2, vec![RED, GREEN, BLUE, BLACK]),
                Chunk::Cel(placed(Cel::LinkedCel { frame_position: 4 })),
                Chunk::LegacyPaletteV4(LegacyPalette { colors: vec![Rgb { r: 255, g: 0, b: 0 }] }),
                Chunk::Other,
            ],
            vec![compressed(2, 1, &[RED, BLUE])],
        ])
    };
    let mut target = build();
    palette_swap_ase(&mut target, &ColorMap::new(), &toy_decode, &toy_encode);
    assert_eq!(target, build());
}

#[test]
fn map_without_a_key_in_the_document_changes_nothing() {
    let build = || {
        document(vec![vec![
            palette(&[BLACK, WHITE]),
            raw(2, 1, vec![YELLOW, MAGENTA]),
            compressed(1, 2, &[WHITE, BLACK]),
        ]])
    };
    let mut target = build();
    palette_swap_ase(&mut target, &three_color_map(), &toy_decode, &toy_encode);
    assert_eq!(target, build());
}

#[test]
fn remapping_twice_applies_the_map_twice() {
    let mut map = ColorMap::new();
    map.insert(RED, GREEN);
    map.insert(GREEN, BLUE);
    let mut target = document(vec![vec![raw(3, 1, vec![RED, GREEN, BLUE])]]);
    palette_swap_ase(&mut target, &map, &no_decode, &no_encode);
    assert_eq!(target, document(vec![vec![raw(3, 1, vec![GREEN, BLUE, BLUE])]]));
    palette_swap_ase(&mut target, &map, &no_decode, &no_encode);
    assert_eq!(target, document(vec![vec![raw(3, 1, vec![BLUE, BLUE, BLUE])]]));
}

#[test]
fn raw_buffer_keeps_its_geometry_and_length() {
    let mut target = document(vec![vec![raw(2, 3, vec![RED, RED, GREEN, GREEN, BLUE, MAGENTA])]]);
    palette_swap_ase(&mut target, &three_color_map(), &no_decode, &no_encode);
    match &target.frames[0].chunks[0] {
        Chunk::Cel(chunk) => {
            assert_eq!(chunk.cel.w(), Some(2));
            assert_eq!(chunk.cel.h(), Some(3));
            match &chunk.cel {
                Cel::RawPixels { pixels: Pixels::Rgba(p), .. } => {
                    assert_eq!(p, &vec![BLACK, BLACK, WHITE, WHITE, YELLOW, MAGENTA]);
                },
                other => panic!("the cel changed its encoding: {:?}", other),
            }
        },
        other => panic!("the chunk changed its kind: {:?}", other),
    }
}

#[test]
fn palette_table_is_remapped_entry_by_entry() {
    let mut target = document(vec![vec![palette(&[RED, MAGENTA, BLUE, RED])]]);
    palette_swap_ase(&mut target, &three_color_map(), &no_decode, &no_encode);
    assert_eq!(target, document(vec![vec![palette(&[BLACK, MAGENTA, YELLOW, BLACK])]]));
}

#[test]
fn legacy_palettes_and_other_chunks_are_left_alone() {
    let build = || {
        document(vec![vec![
            Chunk::LegacyPaletteV4(LegacyPalette { colors: vec![Rgb { r: 255, g: 0, b: 0 }] }),
            Chunk::LegacyPaletteV11(LegacyPalette { colors: vec![Rgb { r: 0, g: 255, b: 0 }] }),
            Chunk::Other,
        ]])
    };
    let mut target = build();
    palette_swap_ase(&mut target, &three_color_map(), &no_decode, &no_encode);
    assert_eq!(target, build());
}

#[test]
fn linked_cel_is_identical_after_any_remap() {
    let build = || document(vec![vec![Chunk::Cel(placed(Cel::LinkedCel { frame_position: 9 }))]]);
    let mut target = build();
    palette_swap_ase(&mut target, &three_color_map(), &no_decode, &no_encode);
    assert_eq!(target, build());
    palette_swap_ase(&mut target, &ColorMap::new(), &no_decode, &no_encode);
    assert_eq!(target, build());
}

#[test]
fn buffers_of_other_depths_pass_through() {
    let build = || {
        document(vec![vec![
            Chunk::Cel(placed(Cel::RawPixels {
                width: 2,
                height: 1,
                pixels: Pixels::Indexed(vec![255, 0]),
            })),
            Chunk::Cel(placed(Cel::RawPixels {
                width: 1,
                height: 1,
                pixels: Pixels::Grayscale(vec![Gray { v: 255, a: 255 }]),
            })),
        ]])
    };
    let mut target = build();
    palette_swap_ase(&mut target, &three_color_map(), &no_decode, &no_encode);
    assert_eq!(target, build());
}

#[test]
fn compressed_cel_is_decoded_remapped_and_encoded() {
    let mut target = document(vec![vec![compressed(3, 1, &[RED, BLUE, MAGENTA])]]);
    palette_swap_ase(&mut target, &three_color_map(), &toy_decode, &toy_encode);
    assert_eq!(target, document(vec![vec![compressed(3, 1, &[BLACK, YELLOW, MAGENTA])]]));
}

#[test]
fn failed_encoding_keeps_the_blob_and_the_walk_goes_on() {
    let mut target = document(vec![
        vec![compressed(1, 1, &[RED]), raw(1, 1, vec![RED])],
        vec![palette(&[GREEN])],
    ]);
    palette_swap_ase(&mut target, &three_color_map(), &toy_decode, &failing_encode);
    assert_eq!(
        target,
        document(vec![
            vec![compressed(1, 1, &[RED]), raw(1, 1, vec![BLACK])],
            vec![palette(&[WHITE])],
        ])
    );
}

#[test]
fn every_frame_and_every_chunk_is_visited() {
    let mut target = document(vec![
        vec![raw(1, 1, vec![RED]), palette(&[RED])],
        vec![],
        vec![Chunk::Other, raw(1, 1, vec![GREEN])],
        vec![palette(&[BLUE]), compressed(1, 1, &[BLUE])],
    ]);
    palette_swap_ase(&mut target, &three_color_map(), &toy_decode, &toy_encode);
    assert_eq!(
        target,
        document(vec![
            vec![raw(1, 1, vec![BLACK]), palette(&[BLACK])],
            vec![],
            vec![Chunk::Other, raw(1, 1, vec![WHITE])],
            vec![palette(&[YELLOW]), compressed(1, 1, &[YELLOW])],
        ])
    );
}

#[test]
fn empty_document_stays_empty() {
    let mut target = document(vec![]);
    palette_swap_ase(&mut target, &three_color_map(), &no_decode, &no_encode);
    assert_eq!(target, document(vec![]));
}

#[test]
fn swap_colors_remaps_in_place() {
    let mut colors = vec![RED, MAGENTA, GREEN];
    swap_colors(&mut colors, &three_color_map());
    assert_eq!(colors, vec![BLACK, MAGENTA, WHITE]);
    let mut none: Vec<Color> = vec![];
    swap_colors(&mut none, &three_color_map());
    assert!(none.is_empty());
}

#[test]
fn swap_pixels_touches_only_rgba() {
    let mut rgba = Pixels::Rgba(vec![BLUE, BLACK]);
    swap_pixels(&mut rgba, &three_color_map());
    assert_eq!(rgba, Pixels::Rgba(vec![YELLOW, BLACK]));
    let mut indexed = Pixels::Indexed(vec![1, 2, 3]);
    swap_pixels(&mut indexed, &three_color_map());
    assert_eq!(indexed, Pixels::Indexed(vec![1, 2, 3]));
}

#[test]
fn swap_palette_remaps_each_entry() {
    let mut table = PaletteChunk {
        palette_entries: vec![PaletteEntry { color: GREEN }, PaletteEntry { color: BLACK }],
    };
    swap_palette(&mut table, &three_color_map());
    assert_eq!(
        table.palette_entries,
        vec![PaletteEntry { color: WHITE }, PaletteEntry { color: BLACK }]
    );
}

#[test]
fn transform_hands_a_raw_buffer_to_the_function() {
    let mut chunk = placed(Cel::RawPixels { width: 2, height: 1, pixels: Pixels::Rgba(vec![RED, GREEN]) });
    transform_pixels(&mut chunk, &no_decode, &no_encode, |pixels| {
        assert_eq!(pixels, Pixels::Rgba(vec![RED, GREEN]));
        Pixels::Rgba(vec![BLUE, BLUE])
    });
    assert_eq!(
        chunk,
        placed(Cel::RawPixels { width: 2, height: 1, pixels: Pixels::Rgba(vec![BLUE, BLUE]) })
    );
}

#[test]
fn transform_leaves_a_linked_cel_alone() {
    let mut chunk = placed(Cel::LinkedCel { frame_position: 2 });
    transform_pixels(&mut chunk, &no_decode, &no_encode, |_| -> Pixels {
        panic!("a linked cel has no pixels to hand out")
    });
    assert_eq!(chunk, placed(Cel::LinkedCel { frame_position: 2 }));
}

#[test]
fn transform_decodes_as_rgba_and_encodes_what_the_function_returns() {
    let mut chunk = placed(Cel::CompressedPixels { width: 2, height: 1, data: toy_bytes(&[RED, GREEN]) });
    let encode = |pixels: &Pixels| {
        assert_eq!(pixels, &Pixels::Rgba(vec![WHITE]));
        Ok(vec![1, 2, 3])
    };
    transform_pixels(&mut chunk, &toy_decode, &encode, |pixels| {
        assert_eq!(pixels, Pixels::Rgba(vec![RED, GREEN]));
        Pixels::Rgba(vec![WHITE])
    });
    assert_eq!(chunk, placed(Cel::CompressedPixels { width: 2, height: 1, data: vec![1, 2, 3] }));
}

#[test]
fn transform_keeps_the_blob_when_the_encoder_fails() {
    let mut chunk = placed(Cel::CompressedPixels { width: 1, height: 1, data: toy_bytes(&[RED]) });
    transform_pixels(&mut chunk, &toy_decode, &failing_encode, |_| Pixels::Rgba(vec![WHITE]));
    assert_eq!(
        chunk,
        placed(Cel::CompressedPixels { width: 1, height: 1, data: toy_bytes(&[RED]) })
    );
}

#[test]
fn identity_transform_keeps_the_decoded_pixels() {
    let pixels = [RED, GREEN, BLUE, MAGENTA];
    let mut chunk = placed(Cel::CompressedPixels { width: 2, height: 2, data: toy_bytes(&pixels) });
    transform_pixels(&mut chunk, &toy_decode, &toy_encode, |p| p);
    match &chunk.cel {
        Cel::CompressedPixels { width, height, data } => {
            assert_eq!((*width, *height), (2, 2));
            assert_eq!(toy_decode(data, ColorDepth::Rgba), Pixels::Rgba(pixels.to_vec()));
        },
        other => panic!("the cel changed its encoding: {:?}", other),
    }
}

#[test]
fn store_encoded_takes_new_bytes_and_keeps_old_ones_on_failure() {
    let mut blob = vec![1, 2, 3];
    store_encoded(&mut blob, Ok(vec![9, 9]));
    assert_eq!(blob, vec![9, 9]);
    store_encoded(&mut blob, Err(CodecError {}));
    assert_eq!(blob, vec![9, 9]);
    store_encoded(&mut blob, Ok(vec![]));
    assert!(blob.is_empty());
}

#[test]
fn cel_reports_its_declared_geometry() {
    let raw = Cel::RawPixels { width: 4, height: 5, pixels: Pixels::Indexed(vec![]) };
    let blob = Cel::CompressedPixels { width: 6, height: 7, data: vec![] };
    let linked = Cel::LinkedCel { frame_position: 1 };
    assert_eq!((raw.w(), raw.h()), (Some(4), Some(5)));
    assert_eq!((blob.w(), blob.h()), (Some(6), Some(7)));
    assert_eq!((linked.w(), linked.h()), (None, None));
}
