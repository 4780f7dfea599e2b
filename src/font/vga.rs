use vstd::prelude::*;
use vstd::slice::slice_subrange;
use crate::font::{Cow, Font, Glyph, GlyphView, Point};

verus! {

/// The cell sizes of the fixed bitmap fonts: eight pixels wide, 8, 14 or
/// 16 rows high.
#[derive(Copy, Clone, Debug, PartialEq, Eq)]
pub enum VGAFontConfig {
    VGA8x8,
    VGA8x14,
    VGA8x16,
}

impl VGAFontConfig {
    pub open spec fn height_spec(&self) -> nat {
        match self {
            VGAFontConfig::VGA8x8 => 8,
            VGAFontConfig::VGA8x14 => 14,
            VGAFontConfig::VGA8x16 => 16,
        }
    }

    pub fn height(&self) -> (h: usize)
        ensures
            h == self.height_spec(),
    {
        match self {
            VGAFontConfig::VGA8x8 => 8,
            VGAFontConfig::VGA8x14 => 14,
            VGAFontConfig::VGA8x16 => 16,
        }
    }
}

/// A monospaced bitmap font of 256 glyphs, one per byte value. Each glyph
/// is one byte per row, the leftmost pixel in the top bit.
pub struct VGAFont {
    config: VGAFontConfig,
    table: &'static [u8],
}

/// Number of glyphs in a bitmap font table.
pub const GLYPH_COUNT: usize = 256;

impl VGAFont {
    pub closed spec fn config_spec(&self) -> VGAFontConfig {
        self.config
    }

    pub closed spec fn table_spec(&self) -> Seq<u8> {
        self.table@
    }

    /// The font whose glyphs are the consecutive `config.height()`-byte
    /// cells of `table`.
    pub fn new(config: VGAFontConfig, table: &'static [u8]) -> (f: VGAFont)
        requires
            table@.len() == GLYPH_COUNT * config.height_spec(),
        ensures
            f.wf(),
            f.config_spec() == config,
            f.table_spec() == table@,
    {
        VGAFont { config, table }
    }
}

impl Font for VGAFont {
    open spec fn wf(&self) -> bool {
        self.table_spec().len() == GLYPH_COUNT * self.config_spec().height_spec()
    }

    open spec fn height_spec(&self) -> nat {
        self.config_spec().height_spec()
    }

    open spec fn glyph_spec(&self, c: char) -> Option<GlyphView> {
        let h = self.config_spec().height_spec();
        let code = c as u32 as nat;
        if code < GLYPH_COUNT {
            Some(
                GlyphView {
                    width: 8,
                    height: h,
                    advance: 8,
                    x: 0,
                    y: 0,
                    data: self.table_spec().subrange((code * h) as int, ((code + 1) * h) as int),
                },
            )
        } else {
            None
        }
    }

    open spec fn glyph_ok(g: GlyphView) -> bool {
        g.width == 8 && g.data.len() == g.height
    }

    open spec fn sample_spec(g: GlyphView, x: nat, y: nat) -> Point {
        Point::Bit(g.data[y as int] & (0x80u8 >> (x as u8)) != 0)
    }

    fn height(&self) -> (h: usize) {
        self.config.height()
    }

    fn get_glyph(&mut self, c: char) -> (g: Option<Glyph>) {
        let code = c as u32;
        if code < 256 {
            let h = self.config.height();
            let start = code as usize * h;
            assert((code + 1) * h == code * h + h) by (nonlinear_arith);
            assert((code + 1) * h <= GLYPH_COUNT * h) by (nonlinear_arith)
                requires
                    code < GLYPH_COUNT,
            ;
            let cell = slice_subrange(self.table, start, start + h);
            Some(Glyph { width: 8, height: h, advance: 8, x: 0, y: 0, data: Cow::Borrowed(cell) })
        } else {
            None
        }
    }

    fn get_pixel(&self, glyph: &Glyph, x: usize, y: usize) -> (p: Point) {
        let row = glyph.data.bytes()[y];
        Point::Bit(row & (0x80u8 >> (x as u8)) != 0)
    }
}

} // verus!
