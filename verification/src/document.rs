//! The decoded sprite document: frames of typed chunks, and the
//! mathematical view of each level.

use vstd::prelude::*;
use crate::color::{Color, Gray, Rgb};

verus! {

/// A pixel buffer in one of the three physical encodings.
#[derive(Clone, Debug, PartialEq, Eq)]
pub enum Pixels {
    Rgba(Vec<Color>),
    Grayscale(Vec<Gray>),
    Indexed(Vec<u8>),
}

/// The contents of a [`Pixels`] buffer.
pub enum PixelsView {
    Rgba(Seq<Color>),
    Grayscale(Seq<Gray>),
    Indexed(Seq<u8>),
}

impl View for Pixels {
    type V = PixelsView;

    open spec fn view(&self) -> PixelsView {
        match self {
            Pixels::Rgba(p) => PixelsView::Rgba(p@),
            Pixels::Grayscale(p) => PixelsView::Grayscale(p@),
            Pixels::Indexed(p) => PixelsView::Indexed(p@),
        }
    }
}

impl PixelsView {
    /// The number of pixels in the buffer.
    pub open spec fn len(self) -> nat {
        match self {
            PixelsView::Rgba(p) => p.len(),
            PixelsView::Grayscale(p) => p.len(),
            PixelsView::Indexed(p) => p.len(),
        }
    }
}

/// The pixel content of one cel chunk, in one of three storage encodings.
#[derive(Clone, Debug, PartialEq, Eq)]
pub enum Cel {
    /// An explicit, decoded pixel buffer.
    RawPixels { width: u16, height: u16, pixels: Pixels },
    /// A reference to the pixel data of an earlier frame.
    LinkedCel { frame_position: u16 },
    /// A compressed byte blob with its declared geometry.
    CompressedPixels { width: u16, height: u16, data: Vec<u8> },
}

/// The contents of a [`Cel`].
pub enum CelView {
    RawPixels { width: u16, height: u16, pixels: PixelsView },
    LinkedCel { frame_position: u16 },
    CompressedPixels { width: u16, height: u16, data: Seq<u8> },
}

impl View for Cel {
    type V = CelView;

    open spec fn view(&self) -> CelView {
        match self {
            Cel::RawPixels { width, height, pixels } => CelView::RawPixels {
                width: *width,
                height: *height,
                pixels: pixels@,
            },
            Cel::LinkedCel { frame_position } => CelView::LinkedCel {
                frame_position: *frame_position,
            },
            Cel::CompressedPixels { width, height, data } => CelView::CompressedPixels {
                width: *width,
                height: *height,
                data: data@,
            },
        }
    }
}

impl CelView {
    /// The declared width and height; a linked cel declares none.
    pub open spec fn geometry(self) -> Option<(u16, u16)> {
        match self {
            CelView::RawPixels { width, height, .. } => Some((width, height)),
            CelView::LinkedCel { .. } => None,
            CelView::CompressedPixels { width, height, .. } => Some((width, height)),
        }
    }
}

impl Cel {
    /// The declared width, where the cel stores pixel data of its own.
    pub fn w(&self) -> (width: Option<u16>)
        ensures
            width == (match self@.geometry() {
                Some(g) => Some(g.0),
                None => None,
            }),
    {
        match self {
            Cel::RawPixels { width, .. } => Some(*width),
            Cel::LinkedCel { .. } => None,
            Cel::CompressedPixels { width, .. } => Some(*width),
        }
    }

    /// The declared height, where the cel stores pixel data of its own.
    pub fn h(&self) -> (height: Option<u16>)
        ensures
            height == (match self@.geometry() {
                Some(g) => Some(g.1),
                None => None,
            }),
    {
        match self {
            Cel::RawPixels { height, .. } => Some(*height),
            Cel::LinkedCel { .. } => None,
            Cel::CompressedPixels { height, .. } => Some(*height),
        }
    }
}

/// A cel together with its placement in the sprite.
#[derive(Clone, Debug, PartialEq, Eq)]
pub struct CelChunk {
    pub layer_index: u16,
    pub x_position: i16,
    pub y_position: i16,
    pub opacity_level: u8,
    pub cel: Cel,
}

/// The contents of a [`CelChunk`].
pub struct CelChunkView {
    pub layer_index: u16,
    pub x_position: i16,
    pub y_position: i16,
    pub opacity_level: u8,
    pub cel: CelView,
}

impl View for CelChunk {
    type V = CelChunkView;

    open spec fn view(&self) -> CelChunkView {
        CelChunkView {
            layer_index: self.layer_index,
            x_position: self.x_position,
            y_position: self.y_position,
            opacity_level: self.opacity_level,
            cel: self.cel@,
        }
    }
}

/// One entry of a palette table.
#[derive(Clone, Copy, Debug, PartialEq, Eq, Structural)]
pub struct PaletteEntry {
    pub color: Color,
}

/// A palette table: an ordered list of entries.
#[derive(Clone, Debug, PartialEq, Eq)]
pub struct PaletteChunk {
    pub palette_entries: Vec<PaletteEntry>,
}

impl View for PaletteChunk {
    type V = Seq<PaletteEntry>;

    open spec fn view(&self) -> Seq<PaletteEntry> {
        self.palette_entries@
    }
}

/// A palette table in one of the two deprecated encodings.
#[derive(Clone, Debug, PartialEq, Eq)]
pub struct LegacyPalette {
    pub colors: Vec<Rgb>,
}

impl View for LegacyPalette {
    type V = Seq<Rgb>;

    open spec fn view(&self) -> Seq<Rgb> {
        self.colors@
    }
}

/// One typed record within a frame.
#[derive(Clone, Debug, PartialEq, Eq)]
pub enum Chunk {
    LegacyPaletteV4(LegacyPalette),
    LegacyPaletteV11(LegacyPalette),
    Palette(PaletteChunk),
    Cel(CelChunk),
    /// Any other kind of chunk. It carries nothing that holds a color.
    Other,
}

/// The contents of a [`Chunk`].
pub enum ChunkView {
    LegacyPaletteV4(Seq<Rgb>),
    LegacyPaletteV11(Seq<Rgb>),
    Palette(Seq<PaletteEntry>),
    Cel(CelChunkView),
    Other,
}

impl View for Chunk {
    type V = ChunkView;

    open spec fn view(&self) -> ChunkView {
        match self {
            Chunk::LegacyPaletteV4(p) => ChunkView::LegacyPaletteV4(p@),
            Chunk::LegacyPaletteV11(p) => ChunkView::LegacyPaletteV11(p@),
            Chunk::Palette(p) => ChunkView::Palette(p@),
            Chunk::Cel(c) => ChunkView::Cel(c@),
            Chunk::Other => ChunkView::Other,
        }
    }
}

/// An ordered sequence of chunks.
#[derive(Clone, Debug, PartialEq, Eq)]
pub struct Frame {
    pub chunks: Vec<Chunk>,
}

impl View for Frame {
    type V = Seq<ChunkView>;

    open spec fn view(&self) -> Seq<ChunkView> {
        self.chunks@.map_values(|c: Chunk| c@)
    }
}

/// A decoded sprite file: an ordered sequence of frames.
#[derive(Clone, Debug, PartialEq, Eq)]
pub struct Document {
    pub frames: Vec<Frame>,
}

impl View for Document {
    type V = Seq<Seq<ChunkView>>;

    open spec fn view(&self) -> Seq<Seq<ChunkView>> {
        self.frames@.map_values(|f: Frame| f@)
    }
}

} // verus!
