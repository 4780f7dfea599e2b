//! Text rendering onto a raw pixel buffer: a pixel codec, a bounded
//! double-buffered framebuffer, glyph sources and a terminal engine that
//! lays text out line by line.

pub mod fb;
pub mod font;
pub mod num;
pub mod pixel;
pub mod term;

pub use fb::{Framebuffer, Rect};
pub use font::cache::GlyphCache;
pub use font::vga::{VGAFont, VGAFontConfig};
pub use font::{Cow, Font, Glyph, GlyphView, Point};
pub use num::Saturating;
pub use pixel::{Pixel, RGBA8888, XRGB8888, RGB565};
pub use term::Fbterm;
