//! Palette remapping for decoded sprite documents.
//!
//! A two-row reference image yields a [`ColorMap`] from source colors to
//! destination colors. The map is then applied to every palette table and
//! every pixel buffer of a [`Document`], and a batch of files is driven
//! through this by a small state machine.
//!
//! The pixel codec and all file handling stay outside: the codec comes in
//! as two functions, and the state machine only names the next action.

pub mod batch;
pub mod color;
pub mod color_map;
pub mod document;
pub mod extract;
pub mod plan;
pub mod remap;
pub mod transform;

pub use crate::batch::{AbortReason, BatchAction, BatchEvent, BatchState, Stage, Step};
pub use crate::color::{Color, ColorDepth, Gray, Rgb};
pub use crate::color_map::ColorMap;
pub use crate::document::{
    Cel, CelChunk, Chunk, Document, Frame, LegacyPalette, PaletteChunk, PaletteEntry, Pixels,
};
pub use crate::extract::{absorb_pixels, ase_to_palettemap};
pub use crate::plan::{
    file_extension, is_ase_extension, is_sprite_path, mirror_path, plan_batch, PlannedFile,
};
pub use crate::remap::{palette_swap_ase, swap_colors, swap_palette, swap_pixels};
pub use crate::transform::{store_encoded, transform_pixels, CodecError};
