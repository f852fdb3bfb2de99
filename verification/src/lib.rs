//! Composition core for rendering a small version certificate: source-over
//! pixel blending, paragraph layout of glyphs, text blocks painted from glyph
//! coverage, and stacking of independently sized images into one canvas.

pub mod bitmap;
pub mod buffer;
pub mod canvas;
pub mod error;
pub mod font;
pub mod layout;
pub mod nft;
pub mod pixel;
pub mod qr;
pub mod text;

pub use bitmap::Bitmap;
pub use buffer::RgbaImage;
pub use canvas::{blend_onto, fill, stack_images, stack_size, try_stack_images};
pub use error::RenderError;
pub use font::{FontGlyph, KernPair, Outline, ScaledFont};
pub use layout::{layout_paragraph, Glyph, Point};
pub use pixel::{merge_rgba, paint};
pub use text::{draw_glyphs, ImageMargin};
