use vstd::prelude::*;
use std::sync::Arc;

pub mod cache;
pub mod vga;

verus! {

/// One sample of a glyph: a set or clear bit, or a coverage from 0 to 255.
#[derive(Copy, Clone, Debug, PartialEq, Eq)]
pub enum Point {
    Bit(bool),
    Coverage(u8),
}

/// Glyph data, either borrowed from a table that lives for the whole
/// program or shared between the glyphs that a cache hands out.
#[derive(Clone, Debug)]
pub enum Cow {
    Borrowed(&'static [u8]),
    Arc(Arc<Vec<u8>>),
}

impl Cow {
    pub open spec fn bytes_spec(&self) -> Seq<u8> {
        match self {
            Cow::Borrowed(s) => s@,
            Cow::Arc(a) => a@,
        }
    }

    pub fn bytes(&self) -> (b: &[u8])
        ensures
            b@ == self.bytes_spec(),
    {
        match self {
            Cow::Borrowed(s) => s,
            Cow::Arc(a) => a.as_slice(),
        }
    }
}

/// One character's pixels with its metrics: the cursor moves `advance` to
/// the right past it, and its pixels start `x` to the right of the cursor
/// and `y` below the top of the line.
#[derive(Clone, Debug)]
pub struct Glyph {
    pub width: usize,
    pub height: usize,
    pub advance: usize,
    pub x: usize,
    pub y: isize,
    pub data: Cow,
}

/// What a glyph is to the contracts: its metrics and its bytes.
pub struct GlyphView {
    pub width: nat,
    pub height: nat,
    pub advance: nat,
    pub x: nat,
    pub y: int,
    pub data: Seq<u8>,
}

impl View for Glyph {
    type V = GlyphView;

    open spec fn view(&self) -> GlyphView {
        GlyphView {
            width: self.width as nat,
            height: self.height as nat,
            advance: self.advance as nat,
            x: self.x as nat,
            y: self.y as int,
            data: self.data.bytes_spec(),
        }
    }
}

/// A source of glyphs.
///
/// `glyph_spec` says which glyph each character has; it and the line height
/// do not change while the font is used, though looking a glyph up may
/// change the font's state (a cache).
///
/// A font that leaves the specification functions as they are promises
/// nothing: it is never well formed, so verified code cannot use it.
pub trait Font {
    open spec fn wf(&self) -> bool {
        false
    }

    open spec fn height_spec(&self) -> nat {
        0
    }

    open spec fn glyph_spec(&self, c: char) -> Option<GlyphView> {
        None
    }

    /// The glyph's data holds every sample that `get_pixel` reads.
    open spec fn glyph_ok(g: GlyphView) -> bool {
        false
    }

    open spec fn sample_spec(g: GlyphView, x: nat, y: nat) -> Point {
        Point::Bit(false)
    }

    /// Distance from the top of one line to the top of the next.
    fn height(&self) -> (h: usize)
        requires
            self.wf(),
        ensures
            h == self.height_spec(),
    ;

    /// The glyph of `c`, or `None` where the font has none.
    fn get_glyph(&mut self, c: char) -> (g: Option<Glyph>)
        requires
            old(self).wf(),
        ensures
            final(self).wf(),
            match g {
                Some(gl) => old(self).glyph_spec(c) == Some(gl@),
                None => old(self).glyph_spec(c) is None,
            },
            g matches Some(gl) ==> Self::glyph_ok(gl@),
            final(self).height_spec() == old(self).height_spec(),
            forall|d: char| #[trigger] final(self).glyph_spec(d) == old(self).glyph_spec(d),
    ;

    /// The sample of `glyph` in its column `x` and row `y`.
    fn get_pixel(&self, glyph: &Glyph, x: usize, y: usize) -> (p: Point)
        requires
            Self::glyph_ok(glyph@),
            x < glyph.width,
            y < glyph.height,
        ensures
            p == Self::sample_spec(glyph@, x as nat, y as nat),
    ;
}

} // verus!
