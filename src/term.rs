use vstd::prelude::*;
use std::collections::VecDeque;
use crate::fb::{blend, lemma_idx_bound, Framebuffer, Rect};
use crate::font::{Font, Glyph, GlyphView, Point};
use crate::num::Saturating;
use crate::pixel::Pixel;

verus! {

/// The font can be laid out on a screen `height` pixels high: its lines are
/// at least one pixel and at most the screen high.
pub open spec fn font_fits<F: Font>(font: F, height: nat) -> bool {
    &&& font.wf()
    &&& 0 < font.height_spec() <= height
}

/// `font` has a glyph for `c`, or one for a space to show instead.
pub open spec fn drawable_in<F: Font>(font: F, c: char) -> bool {
    font.glyph_spec(c) is Some || font.glyph_spec(' ') is Some
}

/// `d` is a rectangle with left edge `l`, top edge `t`, width `w` and
/// height `h`.
pub open spec fn rect_is(d: Option<Rect>, l: int, t: int, w: int, h: int) -> bool {
    &&& d matches Some(r)
    &&& r.left_spec() == l
    &&& r.top_spec() == t
    &&& r.width_spec() == w
    &&& r.height_spec() == h
}

pub open spec fn min(a: int, b: int) -> int {
    if a <= b {
        a
    } else {
        b
    }
}

pub open spec fn max(a: int, b: int) -> int {
    if a >= b {
        a
    } else {
        b
    }
}

/// `new` is the smallest rectangle that covers `old`, if any, and the box
/// at `(l, t)` of `w` by `h` pixels.
pub open spec fn extended(new: Option<Rect>, old: Option<Rect>, l: int, t: int, w: int, h: int) -> bool {
    match old {
        None => rect_is(new, l, t, w, h),
        Some(o) => {
            let l2 = min(o.left_spec() as int, l);
            let t2 = min(o.top_spec() as int, t);
            let r2 = max(o.right_spec(), l + w - 1);
            let b2 = max(o.bottom_spec(), t + h - 1);
            rect_is(new, l2, t2, r2 - l2 + 1, b2 - t2 + 1)
        },
    }
}

/// The part of the box at `(l, t)` of `w` by `h` pixels that lies on a
/// `width` by `height` screen: its left, top, right and bottom edges, the
/// last two just past the part.
pub open spec fn on_screen(l: int, t: int, w: int, h: int, width: int, height: int) -> (int, int, int, int) {
    (max(l, 0), max(t, 0), min(l + w, width), min(t + h, height))
}

pub open spec fn nonempty(p: (int, int, int, int)) -> bool {
    p.0 < p.2 && p.1 < p.3
}

/// `new` is `old` grown to cover what of the box at `(l, t)` of `w` by `h`
/// pixels lies on a `width` by `height` screen, and `old` itself where none
/// of it does.
pub open spec fn marked(new: Option<Rect>, old: Option<Rect>, l: int, t: int, w: int, h: int, width: int, height: int) -> bool {
    let p = on_screen(l, t, w, h, width, height);
    if nonempty(p) {
        extended(new, old, p.0, p.1, p.2 - p.0, p.3 - p.1)
    } else {
        new == old
    }
}

/// The colour that a glyph sample is drawn in.
pub open spec fn shade<P: Pixel>(fb: Framebuffer<P>, p: Point) -> P {
    match p {
        Point::Bit(b) => if b {
            fb.foreground_spec()
        } else {
            fb.background_spec()
        },
        Point::Coverage(c) => blend(fb.foreground_spec(), fb.background_spec(), c),
    }
}

/// `new` is `old` with every visible row moved up by `d` rows and the `d`
/// rows left at the bottom filled with the background.
pub open spec fn scrolled<P: Pixel>(new: Framebuffer<P>, old: Framebuffer<P>, d: nat) -> bool {
    &&& new.wf()
    &&& new.same_setup(&old)
    &&& forall|x: nat, y: nat|
        x < old.stride_spec() && y < old.height_spec() ==> #[trigger] new.at(x, y) == if x
            < old.width_spec() {
            if y + d < old.height_spec() {
                old.at(x, y + d)
            } else {
                old.background_spec()
            }
        } else {
            old.at(x, y)
        }
}

/// `new` is `old` with what lies on screen of the box at `(l, t)` of `w` by
/// `h` pixels painted `p`.
pub open spec fn painted<P: Pixel>(new: Framebuffer<P>, old: Framebuffer<P>, l: int, t: int, w: nat, h: nat, p: P) -> bool {
    &&& new.wf()
    &&& new.same_setup(&old)
    &&& forall|x: nat, y: nat|
        x < old.stride_spec() && y < old.height_spec() ==> #[trigger] new.at(x, y) == if x
            < old.width_spec() && l <= x < l + w && t <= y < t + h {
            p
        } else {
            old.at(x, y)
        }
}

/// A terminal that lays text out on a framebuffer with a font.
///
/// It keeps a cursor, the rectangle drawn since the last flush, and the
/// text of the lines on screen, the newest last.
///
/// A glyph is drawn where its metrics put it. What of it would fall off
/// the screen is left out rather than treated as a fatal breach of
/// contract: drawing a glyph never fails, and on a glyph that lies wholly
/// on screen the two agree.
pub struct Fbterm<P: Pixel, F: Font> {
    pub framebuffer: Framebuffer<P>,
    font: F,
    x: Saturating,
    y: Saturating,
    dirty: Option<Rect>,
    lines: VecDeque<Vec<char>>,
}

impl<P: Pixel, F: Font> Fbterm<P, F> {
    pub closed spec fn fb(&self) -> Framebuffer<P> {
        self.framebuffer
    }

    pub closed spec fn font_spec(&self) -> F {
        self.font
    }

    pub closed spec fn cursor_x(&self) -> nat {
        self.x.value_spec()
    }

    pub closed spec fn cursor_y(&self) -> nat {
        self.y.value_spec()
    }

    /// What was drawn since the last flush, if anything.
    pub closed spec fn dirty_spec(&self) -> Option<Rect> {
        self.dirty
    }

    pub closed spec fn lines_spec(&self) -> Seq<Seq<char>> {
        self.lines@.map_values(|l: Vec<char>| l@)
    }

    pub closed spec fn counters_ok(&self) -> bool {
        &&& self.x.wf()
        &&& self.y.wf()
        &&& self.x.max_spec() + 1 == self.fb().width_spec()
        &&& self.y.max_spec() + 1 == self.fb().height_spec()
    }

    pub open spec fn width_spec(&self) -> nat {
        self.fb().width_spec()
    }

    pub open spec fn height_spec(&self) -> nat {
        self.fb().height_spec()
    }

    pub open spec fn line_height(&self) -> nat {
        self.font_spec().height_spec()
    }

    pub open spec fn glyph_of(&self, c: char) -> GlyphView {
        self.font_spec().glyph_spec(c).unwrap()
    }

    /// The character whose glyph is shown for `c`: itself where the font
    /// has a glyph for it, else a space.
    pub open spec fn shown(&self, c: char) -> char {
        if self.font_spec().glyph_spec(c) is Some {
            c
        } else {
            ' '
        }
    }

    /// The font has a glyph to show for `c`.
    pub open spec fn drawable(&self, c: char) -> bool {
        drawable_in(self.font_spec(), c)
    }

    /// Horizontal step of the glyph shown for `c`; nothing is shown, and
    /// the cursor does not move, where the font has no glyph to show.
    pub open spec fn advance_of(&self, c: char) -> nat {
        if self.drawable(c) {
            self.glyph_of(self.shown(c)).advance
        } else {
            0
        }
    }

    pub open spec fn wf(&self) -> bool {
        &&& self.counters_ok()
        &&& self.fb().wf()
        &&& font_fits(self.font_spec(), self.height_spec())
        &&& self.cursor_x() < self.width_spec()
        &&& self.cursor_y() + self.line_height() <= self.height_spec()
        &&& self.dirty_spec() matches Some(r) ==> r.within(self.width_spec(), self.height_spec())
        &&& self.lines_spec().len() >= 1
        &&& forall|i: int, j: int|
            0 <= i < self.lines_spec().len() && 0 <= j < self.lines_spec()[i].len()
                ==> #[trigger] drawable_in(self.font_spec(), self.lines_spec()[i][j])
    }

    /// The font of `self` has the glyphs and line height of that of `other`.
    pub open spec fn font_kept(&self, other: &Self) -> bool {
        &&& self.line_height() == other.line_height()
        &&& forall|c: char| #[trigger]
            self.font_spec().glyph_spec(c) == other.font_spec().glyph_spec(c)
    }

    /// Every part of the state but the font's is as in `other`, and the
    /// font has the same glyphs.
    pub open spec fn same_state(&self, other: &Self) -> bool {
        &&& self.font_kept(other)
        &&& self.fb() == other.fb()
        &&& self.cursor_x() == other.cursor_x()
        &&& self.cursor_y() == other.cursor_y()
        &&& self.dirty_spec() == other.dirty_spec()
        &&& self.lines_spec() == other.lines_spec()
    }

    /// `self` is `old` after a line feed: the cursor at the start of the
    /// next line, the screen first scrolled up by as many rows as that line
    /// would reach below the bottom edge, and a new empty line of text.
    pub open spec fn line_fed(&self, old: &Self) -> bool {
        let lh = old.line_height();
        let h = old.height_spec();
        let y1 = old.cursor_y() + lh;
        &&& self.font_kept(old)
        &&& self.cursor_x() == 0
        &&& if y1 + lh > h {
            let d = (y1 + lh - h) as nat;
            &&& self.cursor_y() == y1 - d
            &&& self.lines_spec() == old.lines_spec().drop_first().push(Seq::empty())
            &&& rect_is(self.dirty_spec(), 0, 0, old.width_spec() as int, h as int)
            &&& scrolled(self.fb(), old.fb(), d)
        } else {
            &&& self.cursor_y() == y1
            &&& self.lines_spec() == old.lines_spec().push(Seq::empty())
            &&& self.dirty_spec() == old.dirty_spec()
            &&& self.fb() == old.fb()
        }
    }

    /// `new` is `old` with what lies on screen of glyph `g` drawn with its
    /// top left corner at `(gx, gy)`.
    pub open spec fn glyph_drawn(new: Framebuffer<P>, old: Framebuffer<P>, g: GlyphView, gx: int, gy: int) -> bool {
        &&& new.wf()
        &&& new.same_setup(&old)
        &&& forall|x: nat, y: nat|
            x < old.stride_spec() && y < old.height_spec() ==> #[trigger] new.at(x, y) == if x
                < old.width_spec() && gx <= x < gx + g.width && gy <= y < gy + g.height {
                shade(old, F::sample_spec(g, (x - gx) as nat, (y - gy) as nat))
            } else {
                old.at(x, y)
            }
    }

    /// `self` is `mid` with `c`, drawn as glyph `g`, laid out at the
    /// cursor: drawn, recorded in the last line of text, added to the
    /// pending rectangle, and stepped over.
    pub open spec fn stamped_from(&self, mid: &Self, c: char, g: GlyphView) -> bool {
        let gx = (mid.cursor_x() + g.x) as int;
        let gy = mid.cursor_y() + g.y;
        let n = mid.lines_spec().len();
        &&& self.font_kept(mid)
        &&& self.cursor_x() == min((mid.cursor_x() + g.advance) as int, mid.width_spec() - 1)
        &&& self.cursor_y() == mid.cursor_y()
        &&& self.lines_spec() == mid.lines_spec().update(n - 1, mid.lines_spec()[n - 1].push(c))
        &&& Self::glyph_drawn(self.fb(), mid.fb(), g, gx, gy)
        &&& marked(
            self.dirty_spec(),
            mid.dirty_spec(),
            gx,
            gy,
            g.width as int,
            g.height as int,
            mid.width_spec() as int,
            mid.height_spec() as int,
        )
    }

    /// `self` is `old` after printing `c`, or a space where the font has no
    /// glyph for `c`: where the glyph would run past the end of the line, a
    /// line feed comes first; then the character shown is laid out at the
    /// cursor and recorded. Where the font has neither glyph, nothing
    /// changes.
    pub open spec fn printed(&self, old: &Self, c: char) -> bool {
        if !old.drawable(c) {
            self.same_state(old)
        } else {
            let g = old.glyph_of(old.shown(c));
            exists|mid: Self|
                #[trigger] self.stamped_from(&mid, old.shown(c), g) && mid.wf() && if old.cursor_x()
                    + g.advance > old.width_spec() - 1 {
                    mid.line_fed(old)
                } else {
                    mid.same_state(old)
                }
        }
    }

    /// `self` is `old` after a backspace: the last character of the last
    /// line of text is forgotten, the cursor steps back over its glyph and
    /// the glyph's box is painted with the background. With an empty last
    /// line nothing changes.
    pub open spec fn backspaced(&self, old: &Self) -> bool {
        let lines = old.lines_spec();
        let last = lines[lines.len() - 1];
        if last.len() == 0 {
            self.same_state(old)
        } else {
            let g = old.glyph_of(old.shown(last[last.len() - 1]));
            let x1 = if g.advance <= old.cursor_x() {
                (old.cursor_x() - g.advance) as nat
            } else {
                0
            };
            let gx = (x1 + g.x) as int;
            let gy = old.cursor_y() + g.y;
            &&& self.font_kept(old)
            &&& self.cursor_x() == x1
            &&& self.cursor_y() == old.cursor_y()
            &&& self.lines_spec() == lines.update(lines.len() - 1, last.drop_last())
            &&& painted(self.fb(), old.fb(), gx, gy, g.width, g.height, old.fb().background_spec())
            &&& marked(
                self.dirty_spec(),
                old.dirty_spec(),
                gx,
                gy,
                g.width as int,
                g.height as int,
                old.width_spec() as int,
                old.height_spec() as int,
            )
        }
    }

    /// `self` is `old` after a carriage return: the cursor at the start of
    /// its line and that line's text forgotten. Its pixels stay as they are.
    pub open spec fn returned(&self, old: &Self) -> bool {
        let n = old.lines_spec().len();
        &&& self.font_kept(old)
        &&& self.fb() == old.fb()
        &&& self.cursor_x() == 0
        &&& self.cursor_y() == old.cursor_y()
        &&& self.dirty_spec() == old.dirty_spec()
        &&& self.lines_spec() == old.lines_spec().update(n - 1, Seq::empty())
    }

    /// `self` is `old` after its pending rectangle, if any, was copied to
    /// the visible buffer.
    pub open spec fn flushed(&self, old: &Self) -> bool {
        &&& self.font_spec() == old.font_spec()
        &&& self.cursor_x() == old.cursor_x()
        &&& self.cursor_y() == old.cursor_y()
        &&& self.lines_spec() == old.lines_spec()
        &&& self.dirty_spec() is None
        &&& self.fb().pixels() == old.fb().pixels()
        &&& self.fb().width_spec() == old.fb().width_spec()
        &&& self.fb().height_spec() == old.fb().height_spec()
        &&& self.fb().stride_spec() == old.fb().stride_spec()
        &&& self.fb().background_spec() == old.fb().background_spec()
        &&& self.fb().foreground_spec() == old.fb().foreground_spec()
        &&& self.fb().front_spec() is Some == old.fb().front_spec() is Some
        &&& forall|x: nat, y: nat|
            x < old.fb().stride_spec() && y < old.height_spec() ==> #[trigger] self.fb().visible_at(x, y)
                == if old.dirty_spec() matches Some(r) && r.contains(x as int, y as int) {
                old.fb().at(x, y)
            } else {
                old.fb().visible_at(x, y)
            }
    }

    /// `t` runs from `old` through four printed spaces to a state that
    /// `new` is the flush of.
    pub open spec fn tab_trace(t: Seq<Self>, old: &Self, new: &Self) -> bool {
        &&& t.len() == 5
        &&& t[0] == *old
        &&& forall|i: int| 0 <= i < 4 ==> #[trigger] t[i + 1].printed(&t[i], ' ') && t[i + 1].wf()
        &&& new.flushed(&t[4])
    }

    /// `t` runs from `old` through `putc` of each character of `text` to a
    /// state that `new` is the flush of.
    pub open spec fn print_trace(t: Seq<Self>, old: &Self, new: &Self, text: Seq<char>) -> bool {
        &&& t.len() == text.len() + 1
        &&& t[0] == *old
        &&& forall|i: int|
            0 <= i < text.len() ==> #[trigger] t[i + 1].put(&t[i], text[i]) && t[i + 1].wf()
        &&& new.flushed(&t[text.len() as int])
    }

    /// `self` is `old` after `print` of `text`.
    pub open spec fn printed_text(&self, old: &Self, text: Seq<char>) -> bool {
        exists|t: Seq<Self>| #[trigger] Self::print_trace(t, old, self, text)
    }

    /// `self` is `old` after `print` of `line` and a line feed.
    pub open spec fn line_replayed(&self, old: &Self, line: Seq<char>) -> bool {
        exists|mid: Self| #[trigger] mid.printed_text(old, line) && mid.wf() && self.line_fed(&mid)
    }

    /// `t` runs from `t[0]` through the replay of each of `text`'s lines.
    pub open spec fn replay_trace(t: Seq<Self>, text: Seq<Seq<char>>) -> bool {
        &&& t.len() == text.len() + 1
        &&& forall|i: int|
            0 <= i < text.len() ==> #[trigger] t[i + 1].line_replayed(&t[i], text[i]) && t[i + 1].wf()
    }

    /// `self` is `old` after `putc(c)`.
    pub open spec fn put(&self, old: &Self, c: char) -> bool {
        if c == '\n' {
            self.line_fed(old)
        } else if c == '\r' {
            self.returned(old)
        } else if c == '\t' {
            exists|t: Seq<Self>| #[trigger] Self::tab_trace(t, old, self)
        } else if c == '\u{8}' {
            self.backspaced(old)
        } else {
            self.printed(old, c)
        }
    }

    pub fn new(framebuffer: Framebuffer<P>, font: F) -> (t: Fbterm<P, F>)
        requires
            framebuffer.wf(),
            font_fits(font, framebuffer.height_spec()),
        ensures
            t.wf(),
            t.fb() == framebuffer,
            t.font_spec() == font,
            t.cursor_x() == 0,
            t.cursor_y() == 0,
            t.dirty_spec() is None,
            t.lines_spec() == seq![Seq::<char>::empty()],
    {
        let width = framebuffer.width();
        let height = framebuffer.height();
        let mut lines: VecDeque<Vec<char>> = VecDeque::new();
        lines.push_back(Vec::new());
        let t = Fbterm {
            framebuffer,
            font,
            x: Saturating::new(width - 1),
            y: Saturating::new(height - 1),
            dirty: None,
            lines,
        };
        assert(t.lines_spec() =~= seq![Seq::<char>::empty()]);
        t
    }

    /// Grows the pending rectangle to cover `new` too.
    fn add_dirty(&mut self, new: Rect)
        requires
            old(self).wf(),
            new.within(old(self).width_spec(), old(self).height_spec()),
        ensures
            final(self).wf(),
            final(self).font_spec() == old(self).font_spec(),
            final(self).fb() == old(self).fb(),
            final(self).cursor_x() == old(self).cursor_x(),
            final(self).cursor_y() == old(self).cursor_y(),
            final(self).lines_spec() == old(self).lines_spec(),
            extended(
                final(self).dirty_spec(),
                old(self).dirty_spec(),
                new.left_spec() as int,
                new.top_spec() as int,
                new.width_spec() as int,
                new.height_spec() as int,
            ),
    {
        match self.dirty {
            None => {
                self.dirty = Some(new);
            },
            Some(prev) => {
                let x = if prev.left() <= new.left() {
                    prev.left()
                } else {
                    new.left()
                };
                let y = if prev.top() <= new.top() {
                    prev.top()
                } else {
                    new.top()
                };
                let right = if prev.right() >= new.right() {
                    prev.right()
                } else {
                    new.right()
                };
                let bottom = if prev.bottom() >= new.bottom() {
                    prev.bottom()
                } else {
                    new.bottom()
                };
                assert(prev.within(self.width_spec(), self.height_spec()));
                self.dirty = Some(Rect::new(x, y, right - x + 1, bottom - y + 1));
            },
        }
    }

    /// Moves the screen up by as many rows as the line below the cursor's
    /// would reach below the bottom edge, puts the cursor on that line, and
    /// forgets the oldest line of text.
    fn scroll(&mut self)
        requires
            old(self).wf(),
            old(self).cursor_y() + 2 * old(self).line_height() > old(self).height_spec(),
        ensures
            final(self).counters_ok(),
            final(self).font_spec() == old(self).font_spec(),
            final(self).cursor_x() == old(self).cursor_x(),
            final(self).cursor_y() + old(self).line_height() == old(self).height_spec(),
            final(self).lines_spec() == old(self).lines_spec().drop_first(),
            rect_is(final(self).dirty_spec(), 0, 0, old(self).width_spec() as int, old(self).height_spec() as int),
            scrolled(
                final(self).fb(),
                old(self).fb(),
                (old(self).cursor_y() + 2 * old(self).line_height() - old(self).height_spec()) as nat,
            ),
    {
        let lh = self.font.height();
        let width = self.framebuffer.width();
        let height = self.framebuffer.height();
        let next = self.y.get() + lh;
        let diff = next - (height - lh);
        let ghost before = self.framebuffer;
        if diff < height {
            self.framebuffer.copy_rect(
                Rect::new(0, diff, width, height - diff),
                Rect::new(0, 0, width, height - diff),
            );
        }
        let ghost copied = self.framebuffer;
        let bg = self.framebuffer.get_background();
        self.framebuffer.draw_rect(Rect::new(0, height - diff, width, diff), bg);
        assert forall|x: nat, y: nat|
            x < before.stride_spec() && y < before.height_spec() implies #[trigger] self.framebuffer.at(x, y) == if x < before.width_spec() {
                if y + diff < before.height_spec() {
                    before.at(x, (y + diff) as nat)
                } else {
                    before.background_spec()
                }
            } else {
                before.at(x, y)
            } by {
            assert(copied.at(x, y) == self.framebuffer.at(x, y) || y + diff >= height);
        }
        self.y.set(next - diff);
        self.dirty = Some(Rect::new(0, 0, width, height));
        let _ = self.lines.pop_front();
        assert(self.lines_spec() =~= old(self).lines_spec().drop_first());
    }

    fn line_feed(&mut self)
        requires
            old(self).wf(),
        ensures
            final(self).wf(),
            final(self).line_fed(old(self)),
            final(self).font_spec() == old(self).font_spec(),
    {
        let lh = self.font.height();
        let height = self.framebuffer.height();
        self.x.set(0);
        let next = self.y.get() + lh;
        let overflow = next > height - lh;
        if overflow {
            self.scroll();
        } else {
            self.y.set(next);
        }
        let ghost mid = self.lines_spec();
        self.lines.push_back(Vec::new());
        assert(self.lines_spec() =~= mid.push(Seq::empty()));
        assert forall|i: int, j: int|
            0 <= i < self.lines_spec().len() && 0 <= j < self.lines_spec()[i].len() implies #[trigger] drawable_in(self.font_spec(), self.lines_spec()[i][j]) by {
            if overflow {
                assert(self.lines_spec()[i][j] == old(self).lines_spec()[i + 1][j]);
            } else {
                assert(self.lines_spec()[i][j] == old(self).lines_spec()[i][j]);
            }
        }
    }

    /// What of `glyph`'s box, put at the cursor, lies on screen: its left,
    /// top, right and bottom edges, the last two just past it; `None` where
    /// nothing does.
    fn clip(&self, glyph: &Glyph) -> (r: Option<(usize, usize, usize, usize)>)
        requires
            self.wf(),
        ensures
            ({
                let p = on_screen(
                    (self.cursor_x() + glyph@.x) as int,
                    self.cursor_y() + glyph@.y,
                    glyph@.width as int,
                    glyph@.height as int,
                    self.width_spec() as int,
                    self.height_spec() as int,
                );
                match r {
                    Some((l, t, rr, b)) => nonempty(p) && l == p.0 && t == p.1 && rr == p.2 && b == p.3,
                    None => !nonempty(p),
                }
            }),
    {
        let width = self.framebuffer.width() as i128;
        let height = self.framebuffer.height() as i128;
        let gl: i128 = self.x.get() as i128 + glyph.x as i128;
        let gt: i128 = self.y.get() as i128 + glyph.y as i128;
        let l = if gl >= 0 {
            gl
        } else {
            0
        };
        let t = if gt >= 0 {
            gt
        } else {
            0
        };
        let r = if gl + (glyph.width as i128) <= width {
            gl + glyph.width as i128
        } else {
            width
        };
        let b = if gt + (glyph.height as i128) <= height {
            gt + glyph.height as i128
        } else {
            height
        };
        if l < r && t < b {
            Some((l as usize, t as usize, r as usize, b as usize))
        } else {
            None
        }
    }

    /// Draws what lies on screen of `glyph` at the cursor and adds it to
    /// the pending rectangle.
    fn draw_glyph(&mut self, glyph: &Glyph)
        requires
            old(self).wf(),
            F::glyph_ok(glyph@),
        ensures
            final(self).wf(),
            final(self).font_spec() == old(self).font_spec(),
            final(self).cursor_x() == old(self).cursor_x(),
            final(self).cursor_y() == old(self).cursor_y(),
            final(self).lines_spec() == old(self).lines_spec(),
            Self::glyph_drawn(
                final(self).fb(),
                old(self).fb(),
                glyph@,
                (old(self).cursor_x() + glyph@.x) as int,
                old(self).cursor_y() + glyph@.y,
            ),
            marked(
                final(self).dirty_spec(),
                old(self).dirty_spec(),
                (old(self).cursor_x() + glyph@.x) as int,
                old(self).cursor_y() + glyph@.y,
                glyph.width as int,
                glyph.height as int,
                old(self).width_spec() as int,
                old(self).height_spec() as int,
            ),
    {
        let ghost gx: int = (self.cursor_x() + glyph@.x) as int;
        let ghost gy: int = self.cursor_y() + glyph@.y;
        let area = self.clip(glyph);
        match area {
            None => {
                assert forall|x: nat, y: nat|
                    x < self.fb().stride_spec() && y < self.height_spec() implies #[trigger] self.fb().at(x, y) == if x
                        < self.width_spec() && gx <= x < gx + glyph.width && gy <= y < gy + glyph.height {
                        shade(old(self).fb(), F::sample_spec(glyph@, (x - gx) as nat, (y - gy) as nat))
                    } else {
                        old(self).fb().at(x, y)
                    } by {
                }
            },
            Some((l, t, r, b)) => {
                let gl: i128 = self.x.get() as i128 + glyph.x as i128;
                let gt: i128 = self.y.get() as i128 + glyph.y as i128;
                let mut j: usize = t;
                while j < b
                    invariant
                        self.wf(),
                        self.font_spec() == old(self).font_spec(),
                        self.cursor_x() == old(self).cursor_x(),
                        self.cursor_y() == old(self).cursor_y(),
                        self.lines_spec() == old(self).lines_spec(),
                        self.dirty_spec() == old(self).dirty_spec(),
                        self.fb().same_setup(&old(self).fb()),
                        F::glyph_ok(glyph@),
                        gl == gx,
                        gt == gy,
                        gx <= l,
                        gy <= t,
                        r <= gx + glyph.width,
                        b <= gy + glyph.height,
                        l < r <= self.width_spec(),
                        t <= j <= b <= self.height_spec(),
                        forall|x: nat, y: nat|
                            x < self.fb().stride_spec() && y < self.height_spec() ==> #[trigger] self.fb().at(x, y) == if l <= x < r && t <= y < j {
                                shade(old(self).fb(), F::sample_spec(glyph@, (x - gx) as nat, (y - gy) as nat))
                            } else {
                                old(self).fb().at(x, y)
                            },
                    decreases b - j,
                {
                    let mut i: usize = l;
                    while i < r
                        invariant
                            self.wf(),
                            self.font_spec() == old(self).font_spec(),
                            self.cursor_x() == old(self).cursor_x(),
                            self.cursor_y() == old(self).cursor_y(),
                            self.lines_spec() == old(self).lines_spec(),
                            self.dirty_spec() == old(self).dirty_spec(),
                            self.fb().same_setup(&old(self).fb()),
                            F::glyph_ok(glyph@),
                            gl == gx,
                            gt == gy,
                            gx <= l,
                            gy <= t,
                            r <= gx + glyph.width,
                            b <= gy + glyph.height,
                            l <= i <= r <= self.width_spec(),
                            t <= j < b <= self.height_spec(),
                            forall|x: nat, y: nat|
                                x < self.fb().stride_spec() && y < self.height_spec() ==> #[trigger] self.fb().at(x, y) == if (l <= x < r && t <= y < j) || (l <= x < i && y == j) {
                                    shade(old(self).fb(), F::sample_spec(glyph@, (x - gx) as nat, (y - gy) as nat))
                                } else {
                                    old(self).fb().at(x, y)
                                },
                        decreases r - i,
                    {
                        let lx = (i as i128 - gl) as usize;
                        let ly = (j as i128 - gt) as usize;
                        let p = self.font.get_pixel(glyph, lx, ly);
                        let ghost before = self.fb();
                        match p {
                            Point::Bit(bit) => self.framebuffer.draw_bit(i, j, bit),
                            Point::Coverage(cov) => self.framebuffer.draw_alpha(i, j, cov),
                        }
                        assert(self.fb().at(i as nat, j as nat) == shade(old(self).fb(), p));
                        assert forall|x: nat, y: nat|
                            x < self.fb().stride_spec() && y < self.height_spec() implies #[trigger] self.fb().at(x, y) == if (l <= x < r && t <= y < j) || (l <= x < i + 1 && y == j) {
                                shade(old(self).fb(), F::sample_spec(glyph@, (x - gx) as nat, (y - gy) as nat))
                            } else {
                                old(self).fb().at(x, y)
                            } by {
                            if x == i && y == j {
                                assert((x - gx) as nat == lx && (y - gy) as nat == ly);
                            } else {
                                assert(self.framebuffer.at(x, y) == before.at(x, y));
                            }
                        }
                        i += 1;
                    }
                    j += 1;
                }
                self.add_dirty(Rect::new(l, t, r - l, b - t));
            },
        }
    }

    proof fn lemma_lines_drawable(t: &Self, font: F)
        requires
            forall|i: int, j: int|
                0 <= i < t.lines_spec().len() && 0 <= j < t.lines_spec()[i].len()
                    ==> #[trigger] drawable_in(font, t.lines_spec()[i][j]),
            forall|c: char| #[trigger] t.font_spec().glyph_spec(c) == font.glyph_spec(c),
        ensures
            forall|i: int, j: int|
                0 <= i < t.lines_spec().len() && 0 <= j < t.lines_spec()[i].len()
                    ==> #[trigger] drawable_in(t.font_spec(), t.lines_spec()[i][j]),
    {
        assert forall|i: int, j: int|
            0 <= i < t.lines_spec().len() && 0 <= j < t.lines_spec()[i].len() implies #[trigger] drawable_in(t.font_spec(), t.lines_spec()[i][j]) by {
            assert(drawable_in(font, t.lines_spec()[i][j]));
            assert(t.font_spec().glyph_spec(t.lines_spec()[i][j]) == font.glyph_spec(t.lines_spec()[i][j]));
            assert(t.font_spec().glyph_spec(' ') == font.glyph_spec(' '));
        }
    }

    /// Lays out `c` with its glyph, or as a space where the font has none.
    fn put_printable(&mut self, c: char)
        requires
            old(self).wf(),
        ensures
            final(self).wf(),
            final(self).printed(old(self), c),
    {
        let (shown, glyph) = match self.font.get_glyph(c) {
            Some(g) => (c, g),
            None => match self.font.get_glyph(' ') {
                Some(g) => (' ', g),
                None => {
                    proof {
                        Self::lemma_lines_drawable(self, old(self).font_spec());
                    }
                    return ;
                },
            },
        };
        proof {
            Self::lemma_lines_drawable(self, old(self).font_spec());
        }
        let width = self.framebuffer.width();
        let overflow = glyph.advance > width - 1 - self.x.get();
        let mut next_x = glyph.advance;
        if overflow {
            self.line_feed();
        } else {
            next_x = self.x.get() + glyph.advance;
        }
        let ghost mid = *self;
        let mut last = self.lines.pop_back().unwrap();
        last.push(shown);
        self.lines.push_back(last);
        let ghost n = mid.lines_spec().len();
        assert(self.lines_spec() =~= mid.lines_spec().update(n - 1, mid.lines_spec()[n - 1].push(shown)));
        assert forall|i: int, j: int|
            0 <= i < self.lines_spec().len() && 0 <= j < self.lines_spec()[i].len() implies #[trigger] drawable_in(self.font_spec(), self.lines_spec()[i][j]) by {
            if i < n - 1 || j < mid.lines_spec()[i].len() {
                assert(self.lines_spec()[i][j] == mid.lines_spec()[i][j]);
            }
        }
        self.draw_glyph(&glyph);
        self.x.set(next_x);
        assert(self.stamped_from(&mid, shown, glyph@));
        assert(shown == old(self).shown(c));
        assert(glyph@ == old(self).glyph_of(old(self).shown(c)));
        assert(mid.wf());
        if overflow {
            assert(mid.line_fed(old(self)));
        } else {
            assert(mid.same_state(old(self)));
        }
    }

    /// Paints what lies on screen of `glyph`'s box, put at the cursor, with
    /// the background and adds it to the pending rectangle.
    fn erase_glyph(&mut self, glyph: &Glyph)
        requires
            old(self).wf(),
        ensures
            final(self).wf(),
            final(self).font_spec() == old(self).font_spec(),
            final(self).cursor_x() == old(self).cursor_x(),
            final(self).cursor_y() == old(self).cursor_y(),
            final(self).lines_spec() == old(self).lines_spec(),
            painted(
                final(self).fb(),
                old(self).fb(),
                (old(self).cursor_x() + glyph@.x) as int,
                old(self).cursor_y() + glyph@.y,
                glyph@.width,
                glyph@.height,
                old(self).fb().background_spec(),
            ),
            marked(
                final(self).dirty_spec(),
                old(self).dirty_spec(),
                (old(self).cursor_x() + glyph@.x) as int,
                old(self).cursor_y() + glyph@.y,
                glyph.width as int,
                glyph.height as int,
                old(self).width_spec() as int,
                old(self).height_spec() as int,
            ),
    {
        match self.clip(glyph) {
            Some((l, t, r, b)) => {
                let clean = Rect::new(l, t, r - l, b - t);
                let bg = self.framebuffer.get_background();
                self.framebuffer.draw_rect(clean, bg);
                self.add_dirty(clean);
            },
            None => {},
        }
    }

    /// Forgets the last character of the last line of text and erases its
    /// glyph.
    fn backspace(&mut self)
        requires
            old(self).wf(),
        ensures
            final(self).wf(),
            final(self).backspaced(old(self)),
    {
        let ghost lines0 = self.lines_spec();
        let mut last = self.lines.pop_back().unwrap();
        match last.pop() {
            Some(c) => {
                self.lines.push_back(last);
                let ghost n = lines0.len();
                assert(self.lines_spec() =~= lines0.update(n - 1, lines0[n - 1].drop_last()));
                assert(lines0[n - 1][lines0[n - 1].len() - 1] == c);
                assert forall|i: int, j: int|
                    0 <= i < self.lines_spec().len() && 0 <= j < self.lines_spec()[i].len() implies #[trigger] drawable_in(self.font_spec(), self.lines_spec()[i][j]) by {
                    assert(self.lines_spec()[i][j] == lines0[i][j]);
                }
                assert(self.drawable(lines0[n - 1][lines0[n - 1].len() - 1]));
                let ghost font0 = self.font_spec();
                let glyph = match self.font.get_glyph(c) {
                    Some(g) => g,
                    None => self.font.get_glyph(' ').unwrap(),
                };
                proof {
                    Self::lemma_lines_drawable(self, font0);
                }
                let ghost looked_up = *self;
                self.x.sub_assign(glyph.advance);
                assert forall|i: int, j: int|
                    0 <= i < self.lines_spec().len() && 0 <= j < self.lines_spec()[i].len() implies #[trigger] drawable_in(self.font_spec(), self.lines_spec()[i][j]) by {
                    assert(self.lines_spec()[i][j] == looked_up.lines_spec()[i][j]);
                    assert(drawable_in(looked_up.font_spec(), looked_up.lines_spec()[i][j]));
                }
                self.erase_glyph(&glyph);
            },
            None => {
                self.lines.push_back(last);
                assert(self.lines_spec() =~= lines0);
            },
        }
    }

    /// Copies what was drawn since the last flush to the visible buffer.
    pub fn flush(&mut self)
        requires
            old(self).wf(),
        ensures
            final(self).wf(),
            final(self).flushed(old(self)),
    {
        match self.dirty {
            None => {},
            Some(r) => {
                self.framebuffer.flush(Some(r));
                self.dirty = None;
            },
        }
    }

    /// Handles one character: a line feed, a carriage return, a tab (four
    /// spaces, then a flush), a backspace, or any other character, which is
    /// printed.
    pub fn putc(&mut self, c: char)
        requires
            old(self).wf(),
        ensures
            final(self).wf(),
            final(self).put(old(self), c),
    {
        if c == '\n' {
            self.line_feed();
        } else if c == '\r' {
            self.x.set(0);
            let ghost lines0 = self.lines_spec();
            let _ = self.lines.pop_back();
            self.lines.push_back(Vec::new());
            assert(self.lines_spec() =~= lines0.update(lines0.len() - 1, Seq::empty()));
            assert forall|i: int, j: int|
                0 <= i < self.lines_spec().len() && 0 <= j < self.lines_spec()[i].len() implies (#[trigger] drawable_in(self.font_spec(), self.lines_spec()[i][j])) by {
                assert(self.lines_spec()[i][j] == lines0[i][j]);
            }
        } else if c == '\t' {
            let ghost s0 = *self;
            self.put_printable(' ');
            let ghost s1 = *self;
            self.put_printable(' ');
            let ghost s2 = *self;
            self.put_printable(' ');
            let ghost s3 = *self;
            self.put_printable(' ');
            let ghost s4 = *self;
            self.flush();
            assert(Self::tab_trace(seq![s0, s1, s2, s3, s4], old(self), self));
        } else if c == '\u{8}' {
            self.backspace();
        } else {
            self.put_printable(c);
        }
    }

    /// Handles each character of `text` in turn, then flushes once.
    pub fn print(&mut self, text: &str)
        requires
            old(self).wf(),
        ensures
            final(self).wf(),
            final(self).printed_text(old(self), text@),
    {
        let mut chars: Vec<char> = Vec::new();
        for c in it: text.chars()
            invariant
                chars@ == it.seq().take(it.index() as int),
                it.seq() == text@,
        {
            chars.push(c);
        }
        assert(chars@ =~= text@);
        self.print_chars(&chars);
    }

    /// Handles each character of `text` in turn, then flushes once.
    fn print_chars(&mut self, text: &Vec<char>)
        requires
            old(self).wf(),
        ensures
            final(self).wf(),
            final(self).printed_text(old(self), text@),
    {
        let ghost mut t: Seq<Self> = seq![*self];
        let mut i: usize = 0;
        while i < text.len()
            invariant
                self.wf(),
                i <= text@.len(),
                t.len() == i + 1,
                t[0] == *old(self),
                t[i as int] == *self,
                forall|k: int| 0 <= k < i ==> #[trigger] t[k + 1].put(&t[k], text@[k]) && t[k + 1].wf(),
            decreases text.len() - i,
        {
            let ghost before = *self;
            self.putc(text[i]);
            proof {
                let t0 = t;
                t = t.push(*self);
                assert forall|k: int| 0 <= k < i + 1 implies #[trigger] t[k + 1].put(&t[k], text@[k]) && t[k + 1].wf() by {
                    if k < i {
                        assert(t[k + 1] == t0[k + 1] && t[k] == t0[k]);
                    }
                }
            }
            i += 1;
        }
        self.flush();
        assert(Self::print_trace(t, old(self), self, text@));
    }

    /// Puts the cursor at the top left, forgets all text, fills the
    /// framebuffer with the background and shows all of it.
    pub fn clear(&mut self)
        requires
            old(self).wf(),
        ensures
            final(self).wf(),
            final(self).font_spec() == old(self).font_spec(),
            final(self).cursor_x() == 0,
            final(self).cursor_y() == 0,
            final(self).dirty_spec() is None,
            final(self).lines_spec() == seq![Seq::<char>::empty()],
            final(self).fb().width_spec() == old(self).fb().width_spec(),
            final(self).fb().height_spec() == old(self).fb().height_spec(),
            final(self).fb().stride_spec() == old(self).fb().stride_spec(),
            final(self).fb().background_spec() == old(self).fb().background_spec(),
            final(self).fb().foreground_spec() == old(self).fb().foreground_spec(),
            final(self).fb().front_spec() is Some == old(self).fb().front_spec() is Some,
            forall|i: int|
                0 <= i < final(self).fb().pixels().len() ==> #[trigger] final(self).fb().pixels()[i]
                    == old(self).fb().background_spec(),
            forall|x: nat, y: nat|
                x < old(self).width_spec() && y < old(self).height_spec() ==> #[trigger] final(self).fb().visible_at(x, y)
                    == old(self).fb().background_spec(),
    {
        self.x.set(0);
        self.y.set(0);
        self.framebuffer.clear();
        self.framebuffer.flush(None);
        self.dirty = None;
        let mut lines: VecDeque<Vec<char>> = VecDeque::new();
        lines.push_back(Vec::new());
        self.lines = lines;
        assert(self.lines_spec() =~= seq![Seq::<char>::empty()]);
        assert forall|x: nat, y: nat|
            x < old(self).width_spec() && y < old(self).height_spec() implies #[trigger] self.fb().visible_at(x, y)
                == old(self).fb().background_spec() by {
            lemma_idx_bound(self.fb().stride_spec(), self.height_spec(), x, y);
        }
    }

    pub fn get_font(&self) -> (f: &F)
        ensures
            *f == self.font_spec(),
    {
        &self.font
    }

    /// The font, to change; the terminal's invariant then has to be shown
    /// again before it is used.
    pub fn get_font_mut(&mut self) -> (f: &mut F)
        ensures
            *f == old(self).font_spec(),
            final(self).font_spec() == *final(f),
            final(self).fb() == old(self).fb(),
            final(self).counters_ok() == old(self).counters_ok(),
            final(self).cursor_x() == old(self).cursor_x(),
            final(self).cursor_y() == old(self).cursor_y(),
            final(self).dirty_spec() == old(self).dirty_spec(),
            final(self).lines_spec() == old(self).lines_spec(),
    {
        &mut self.font
    }

    /// Sets the colour that glyphs are drawn in.
    pub fn set_foreground(&mut self, pixel: P)
        requires
            old(self).wf(),
        ensures
            final(self).wf(),
            final(self).fb().foreground_spec() == pixel,
            final(self).fb().background_spec() == old(self).fb().background_spec(),
            final(self).fb().pixels() == old(self).fb().pixels(),
            final(self).fb().front_spec() == old(self).fb().front_spec(),
            final(self).font_spec() == old(self).font_spec(),
            final(self).cursor_x() == old(self).cursor_x(),
            final(self).cursor_y() == old(self).cursor_y(),
            final(self).dirty_spec() == old(self).dirty_spec(),
            final(self).lines_spec() == old(self).lines_spec(),
    {
        self.framebuffer.set_foreground(pixel);
    }

    /// Sets the colour that glyphs are drawn on and the screen is cleared
    /// to.
    pub fn set_background(&mut self, pixel: P)
        requires
            old(self).wf(),
        ensures
            final(self).wf(),
            final(self).fb().background_spec() == pixel,
            final(self).fb().foreground_spec() == old(self).fb().foreground_spec(),
            final(self).fb().pixels() == old(self).fb().pixels(),
            final(self).fb().front_spec() == old(self).fb().front_spec(),
            final(self).font_spec() == old(self).font_spec(),
            final(self).cursor_x() == old(self).cursor_x(),
            final(self).cursor_y() == old(self).cursor_y(),
            final(self).dirty_spec() == old(self).dirty_spec(),
            final(self).lines_spec() == old(self).lines_spec(),
    {
        self.framebuffer.set_background(pixel);
    }

    /// Draws into `work` from now on; what was drawn until now becomes the
    /// visible buffer, which `flush` copies to.
    pub fn set_double_buffer(&mut self, work: Vec<P>)
        requires
            old(self).wf(),
            work@.len() == old(self).fb().pixels().len(),
        ensures
            final(self).wf(),
            final(self).fb().pixels() == work@,
            final(self).fb().front_spec() == Some(old(self).fb().pixels()),
            final(self).fb().background_spec() == old(self).fb().background_spec(),
            final(self).fb().foreground_spec() == old(self).fb().foreground_spec(),
            final(self).font_spec() == old(self).font_spec(),
            final(self).cursor_x() == old(self).cursor_x(),
            final(self).cursor_y() == old(self).cursor_y(),
            final(self).dirty_spec() == old(self).dirty_spec(),
            final(self).lines_spec() == old(self).lines_spec(),
    {
        self.framebuffer.set_double_buffer(work);
    }

    pub fn width(&self) -> (w: usize)
        ensures
            w == self.width_spec(),
    {
        self.framebuffer.width()
    }

    pub fn height(&self) -> (h: usize)
        ensures
            h == self.height_spec(),
    {
        self.framebuffer.height()
    }

    /// The cursor: the column and the row of the top of its line.
    pub fn cursor(&self) -> (c: (usize, usize))
        ensures
            c.0 == self.cursor_x(),
            c.1 == self.cursor_y(),
    {
        (self.x.get(), self.y.get())
    }

    /// The text of the lines on screen, the newest last.
    pub fn lines(&self) -> (l: &VecDeque<Vec<char>>)
        ensures
            l@.map_values(|v: Vec<char>| v@) == self.lines_spec(),
    {
        &self.lines
    }

    /// Clears the screen and lays the text of the lines on screen out again
    /// with `font`, each line printed and followed by a line feed. What is
    /// on screen but not in the text of the lines is lost.
    pub fn change_font<T: Font>(self, font: T) -> (t: Fbterm<P, T>)
        requires
            self.wf(),
            font_fits(font, self.height_spec()),
        ensures
            t.wf(),
            exists|trace: Seq<Fbterm<P, T>>|
                #[trigger] Fbterm::<P, T>::replay_trace(trace, self.lines_spec()) && trace.last() == t
                    && trace[0].font_spec() == font && trace[0].cursor_x() == 0
                    && trace[0].cursor_y() == 0 && trace[0].dirty_spec() is None
                    && trace[0].lines_spec() == seq![Seq::<char>::empty()]
                    && trace[0].wf()
                    && trace[0].fb().width_spec() == self.fb().width_spec()
                    && trace[0].fb().height_spec() == self.fb().height_spec()
                    && trace[0].fb().stride_spec() == self.fb().stride_spec()
                    && trace[0].fb().background_spec() == self.fb().background_spec()
                    && trace[0].fb().foreground_spec() == self.fb().foreground_spec()
                    && (trace[0].fb().front_spec() is Some == self.fb().front_spec() is Some)
                    && (forall|i: int|
                    0 <= i < trace[0].fb().pixels().len() ==> #[trigger] trace[0].fb().pixels()[i]
                        == self.fb().background_spec())
                    && (forall|x: nat, y: nat|
                    x < self.width_spec() && y < self.height_spec() ==> #[trigger] trace[0].fb().visible_at(x, y)
                        == self.fb().background_spec()),
    {
        let mut this = self;
        let mut lines: VecDeque<Vec<char>> = VecDeque::new();
        lines.push_back(Vec::new());
        core::mem::swap(&mut this.lines, &mut lines);
        assert(this.lines_spec() =~= seq![Seq::<char>::empty()]);
        let ghost text = self.lines_spec();
        this.clear();
        let mut term = Fbterm::new(this.framebuffer, font);
        let ghost start = term;
        let ghost mut trace: Seq<Fbterm<P, T>> = seq![term];
        let n = lines.len();
        let mut k: usize = 0;
        while k < n
            invariant
                term.wf(),
                n == text.len(),
                k <= n,
                lines@.len() == n - k,
                forall|i: int| 0 <= i < n - k ==> #[trigger] lines@[i]@ == text[i + k],
                trace.len() == k + 1,
                trace[0] == start,
                trace[k as int] == term,
                forall|i: int|
                    0 <= i < k ==> #[trigger] trace[i + 1].line_replayed(&trace[i], text[i]) && trace[i + 1].wf(),
            decreases n - k,
        {
            let line = lines.pop_front().unwrap();
            assert(line@ == text[k as int]);
            let ghost before = term;
            term.print_chars(&line);
            term.putc('\n');
            proof {
                let t0 = trace;
                trace = trace.push(term);
                assert(term.line_replayed(&before, text[k as int]));
                assert forall|i: int| 0 <= i < k + 1 implies #[trigger] trace[i + 1].line_replayed(&trace[i], text[i]) && trace[i + 1].wf() by {
                    if i < k {
                        assert(trace[i + 1] == t0[i + 1] && trace[i] == t0[i]);
                    }
                }
                assert forall|i: int| 0 <= i < n - (k + 1) implies #[trigger] lines@[i]@ == text[i + k + 1] by {
                }
            }
            k += 1;
        }
        assert(Fbterm::<P, T>::replay_trace(trace, text));
        term
    }

    /// The characters that `putc` prints rather than treats as a control.
    pub open spec fn printable(c: char) -> bool {
        c != '\n' && c != '\r' && c != '\t' && c != '\u{8}'
    }

    /// A glyph that would run past the end of the line is drawn at the start
    /// of the next line, exactly one line height lower, when that line fits;
    /// the character starts a new line of text.
    pub proof fn lemma_wrap_before_glyph(old: &Self, new: &Self, c: char)
        requires
            old.wf(),
            new.printed(old, c),
            old.drawable(c),
            old.cursor_x() + old.glyph_of(old.shown(c)).advance > old.width_spec() - 1,
            old.cursor_y() + 2 * old.line_height() <= old.height_spec(),
        ensures
            ({
                let g = old.glyph_of(old.shown(c));
                &&& new.cursor_y() == old.cursor_y() + old.line_height()
                &&& new.cursor_x() == min(g.advance as int, old.width_spec() - 1)
                &&& new.lines_spec() == old.lines_spec().push(seq![old.shown(c)])
                &&& Self::glyph_drawn(
                    new.fb(),
                    old.fb(),
                    g,
                    g.x as int,
                    old.cursor_y() + old.line_height() + g.y,
                )
            }),
    {
        let g = old.glyph_of(old.shown(c));
        let mid = choose|mid: Self|
            #[trigger] new.stamped_from(&mid, old.shown(c), g) && mid.wf() && if old.cursor_x() + g.advance
                > old.width_spec() - 1 {
                mid.line_fed(old)
            } else {
                mid.same_state(old)
            };
        assert(mid.line_fed(old));
        let n = mid.lines_spec().len();
        assert(mid.lines_spec()[n - 1].push(old.shown(c)) =~= seq![old.shown(c)]);
        assert(new.lines_spec() =~= old.lines_spec().push(seq![old.shown(c)]));
    }

    /// A line feed whose new line would reach below the bottom edge
    /// scrolls once, by the rows it would reach below: each row moves up by
    /// that many, the rows freed at the bottom hold the background, the
    /// oldest line of text is forgotten, and the new line ends on the last
    /// row.
    pub proof fn lemma_line_feed_scrolls(old: &Self, new: &Self)
        requires
            old.wf(),
            new.put(old, '\n'),
            old.cursor_y() + 2 * old.line_height() > old.height_spec(),
        ensures
            ({
                let d = (old.cursor_y() + 2 * old.line_height() - old.height_spec()) as nat;
                &&& new.cursor_y() == old.cursor_y() + old.line_height() - d
                &&& new.cursor_y() + old.line_height() == old.height_spec()
                &&& new.lines_spec() == old.lines_spec().drop_first().push(Seq::empty())
                &&& forall|x: nat, y: nat|
                    x < old.width_spec() && y + d < old.height_spec() ==> #[trigger] new.fb().at(x, y)
                        == old.fb().at(x, y + d)
                &&& forall|x: nat, y: nat|
                    x < old.width_spec() && y < old.height_spec() && y + d >= old.height_spec()
                        ==> #[trigger] new.fb().at(x, y) == old.fb().background_spec()
            }),
    {
        let d = (old.cursor_y() + 2 * old.line_height() - old.height_spec()) as nat;
        assert forall|x: nat, y: nat|
            x < old.width_spec() && y + d < old.height_spec() implies #[trigger] new.fb().at(x, y)
                == old.fb().at(x, y + d) by {
            assert(x < old.fb().stride_spec());
        }
        assert forall|x: nat, y: nat|
            x < old.width_spec() && y < old.height_spec() && y + d >= old.height_spec() implies #[trigger] new.fb().at(x, y)
                == old.fb().background_spec() by {
            assert(x < old.fb().stride_spec());
        }
    }

    /// After one glyph that lies wholly on screen is printed on a terminal
    /// with nothing pending and then flushed, the visible buffer shows the
    /// glyph's box as drawn and everything else as before.
    pub proof fn lemma_flush_after_glyph(t0: &Self, t1: &Self, t2: &Self, c: char)
        requires
            t0.wf(),
            t0.dirty_spec() is None,
            t0.drawable(c),
            t1.printed(t0, c),
            t2.flushed(t1),
            ({
                let g = t0.glyph_of(t0.shown(c));
                &&& t0.cursor_x() + g.advance <= t0.width_spec() - 1
                &&& g.width > 0
                &&& g.height > 0
                &&& t0.cursor_x() + g.x + g.width <= t0.width_spec()
                &&& 0 <= t0.cursor_y() + g.y
                &&& t0.cursor_y() + g.y + g.height <= t0.height_spec()
            }),
        ensures
            ({
                let g = t0.glyph_of(t0.shown(c));
                let gx = t0.cursor_x() + g.x;
                let gy = t0.cursor_y() + g.y;
                forall|x: nat, y: nat|
                    x < t0.fb().stride_spec() && y < t0.height_spec() ==> #[trigger] t2.fb().visible_at(x, y)
                        == if gx <= x < gx + g.width && gy <= y < gy + g.height {
                        t1.fb().at(x, y)
                    } else {
                        t0.fb().visible_at(x, y)
                    }
            }),
    {
        let g = t0.glyph_of(t0.shown(c));
        let mid = choose|mid: Self|
            #[trigger] t1.stamped_from(&mid, t0.shown(c), g) && mid.wf() && if t0.cursor_x() + g.advance
                > t0.width_spec() - 1 {
                mid.line_fed(t0)
            } else {
                mid.same_state(t0)
            };
        assert(mid.same_state(t0));
        let gx = t0.cursor_x() + g.x;
        let gy = t0.cursor_y() + g.y;
        assert forall|x: nat, y: nat|
            x < t0.fb().stride_spec() && y < t0.height_spec() implies #[trigger] t2.fb().visible_at(x, y)
                == if gx <= x < gx + g.width && gy <= y < gy + g.height {
                t1.fb().at(x, y)
            } else {
                t0.fb().visible_at(x, y)
            } by {
            if !(gx <= x < gx + g.width && gy <= y < gy + g.height) {
                assert(t1.fb().at(x, y) == mid.fb().at(x, y));
            }
        }
    }

    /// A backspace right after a character printed without a line feed
    /// brings the cursor back to where it was and paints the glyph's box
    /// with the background.
    pub proof fn lemma_backspace_undoes_print(t0: &Self, t1: &Self, t2: &Self, c: char)
        requires
            t0.wf(),
            t1.wf(),
            t0.drawable(c),
            t1.printed(t0, c),
            t2.put(t1, '\u{8}'),
            t0.cursor_x() + t0.glyph_of(t0.shown(c)).advance <= t0.width_spec() - 1,
        ensures
            t2.cursor_x() == t0.cursor_x(),
            t2.cursor_y() == t0.cursor_y(),
            t2.lines_spec() == t0.lines_spec(),
            ({
                let g = t0.glyph_of(t0.shown(c));
                painted(
                    t2.fb(),
                    t1.fb(),
                    (t0.cursor_x() + g.x) as int,
                    t0.cursor_y() + g.y,
                    g.width,
                    g.height,
                    t0.fb().background_spec(),
                )
            }),
    {
        let g = t0.glyph_of(t0.shown(c));
        let mid = choose|mid: Self|
            #[trigger] t1.stamped_from(&mid, t0.shown(c), g) && mid.wf() && if t0.cursor_x() + g.advance
                > t0.width_spec() - 1 {
                mid.line_fed(t0)
            } else {
                mid.same_state(t0)
            };
        assert(mid.same_state(t0));
        let n = mid.lines_spec().len();
        let last = t1.lines_spec()[n - 1];
        assert(last == mid.lines_spec()[n - 1].push(t0.shown(c)));
        assert(last[last.len() - 1] == t0.shown(c));
        assert(t1.glyph_of(t1.shown(t0.shown(c))) == g);
        assert(last.drop_last() =~= mid.lines_spec()[n - 1]);
        assert(t2.lines_spec() =~= t0.lines_spec());
    }

    /// `print` of one character that fits on the line, then a backspace:
    /// the cursor and the text are back where they were, the glyph's box is
    /// painted with the background, and that box is all that is pending.
    pub proof fn lemma_backspace_after_print(t0: &Self, t1: &Self, t2: &Self, c: char)
        requires
            t0.wf(),
            t1.wf(),
            Self::printable(c),
            t0.drawable(c),
            t1.printed_text(t0, seq![c]),
            t2.put(t1, '\u{8}'),
            t0.cursor_x() + t0.glyph_of(t0.shown(c)).advance <= t0.width_spec() - 1,
        ensures
            t2.cursor_x() == t0.cursor_x(),
            t2.cursor_y() == t0.cursor_y(),
            t2.lines_spec() == t0.lines_spec(),
            ({
                let g = t0.glyph_of(t0.shown(c));
                let gx = (t0.cursor_x() + g.x) as int;
                let gy = t0.cursor_y() + g.y;
                &&& painted(t2.fb(), t1.fb(), gx, gy, g.width, g.height, t0.fb().background_spec())
                &&& marked(
                    t2.dirty_spec(),
                    None,
                    gx,
                    gy,
                    g.width as int,
                    g.height as int,
                    t0.width_spec() as int,
                    t0.height_spec() as int,
                )
            }),
    {
        let text = seq![c];
        let t = choose|t: Seq<Self>| #[trigger] Self::print_trace(t, t0, t1, text);
        assert(t[1].put(&t[0], text[0]) && t[1].wf());
        assert(t[1].printed(t0, c));
        let g = t0.glyph_of(t0.shown(c));
        let mid = choose|mid: Self|
            #[trigger] t[1].stamped_from(&mid, t0.shown(c), g) && mid.wf() && if t0.cursor_x()
                + g.advance > t0.width_spec() - 1 {
                mid.line_fed(t0)
            } else {
                mid.same_state(t0)
            };
        assert(mid.same_state(t0));
        let n = mid.lines_spec().len();
        let last = t1.lines_spec()[n - 1];
        assert(last == mid.lines_spec()[n - 1].push(t0.shown(c)));
        assert(last[last.len() - 1] == t0.shown(c));
        assert(t1.glyph_of(t1.shown(t0.shown(c))) == g);
        assert(last.drop_last() =~= mid.lines_spec()[n - 1]);
        assert(t2.lines_spec() =~= t0.lines_spec());
    }

    /// Sum of the advances of the glyphs shown for `text`.
    pub open spec fn advance_sum(&self, text: Seq<char>) -> nat
        decreases text.len(),
    {
        if text.len() == 0 {
            0
        } else {
            self.advance_sum(text.drop_last()) + self.advance_of(text.last())
        }
    }

    proof fn lemma_advance_sum_prefix(&self, text: Seq<char>, k: int)
        requires
            0 <= k <= text.len(),
        ensures
            self.advance_sum(text.take(k)) <= self.advance_sum(text),
        decreases text.len(),
    {
        if k < text.len() {
            assert(text.drop_last().take(k) =~= text.take(k));
            self.lemma_advance_sum_prefix(text.drop_last(), k);
        } else {
            assert(text.take(k) =~= text);
        }
    }

    proof fn lemma_trace_within_line(t: Seq<Self>, old: &Self, new: &Self, text: Seq<char>, k: int)
        requires
            old.wf(),
            Self::print_trace(t, old, new, text),
            forall|i: int| 0 <= i < text.len() ==> Self::printable(#[trigger] text[i]),
            old.cursor_x() + old.advance_sum(text) <= old.width_spec() - 1,
            0 <= k <= text.len(),
        ensures
            t[k].wf(),
            t[k].font_kept(old),
            t[k].width_spec() == old.width_spec(),
            t[k].cursor_x() == old.cursor_x() + old.advance_sum(text.take(k)),
            t[k].cursor_y() == old.cursor_y(),
        decreases k,
    {
        if k == 0 {
            assert(text.take(0) =~= Seq::<char>::empty());
        } else {
            Self::lemma_trace_within_line(t, old, new, text, k - 1);
            let j = k - 1;
            let c = text[j];
            assert(0 <= j < text.len());
            assert(t[j + 1].put(&t[j], text[j]));
            assert(t[j + 1].wf());
            assert(Self::printable(c));
            assert(t[j + 1].printed(&t[j], c));
            assert(text.take(k).drop_last() =~= text.take(j));
            assert(text.take(k).last() == c);
            assert(old.advance_sum(text.take(k)) == old.advance_sum(text.take(j)) + old.advance_of(c));
            old.lemma_advance_sum_prefix(text, k);
            assert(t[j].shown(c) == old.shown(c));
            if t[j].drawable(c) {
                let g = t[j].glyph_of(t[j].shown(c));
                assert(g == old.glyph_of(old.shown(c)));
                let mid = choose|mid: Self|
                    #[trigger] t[j + 1].stamped_from(&mid, t[j].shown(c), g) && mid.wf() && if t[j].cursor_x()
                        + g.advance > t[j].width_spec() - 1 {
                        mid.line_fed(&t[j])
                    } else {
                        mid.same_state(&t[j])
                    };
                assert(mid.same_state(&t[j]));
            }
        }
    }

    /// Printing characters that are no controls and whose advances fit in
    /// what is left of the line moves the cursor right by the sum of the
    /// advances and leaves it on its line.
    pub proof fn lemma_print_within_line(old: &Self, new: &Self, text: Seq<char>)
        requires
            old.wf(),
            new.printed_text(old, text),
            forall|i: int| 0 <= i < text.len() ==> Self::printable(#[trigger] text[i]),
            old.cursor_x() + old.advance_sum(text) <= old.width_spec() - 1,
        ensures
            new.cursor_x() == old.cursor_x() + old.advance_sum(text),
            new.cursor_y() == old.cursor_y(),
    {
        let t = choose|t: Seq<Self>| #[trigger] Self::print_trace(t, old, new, text);
        Self::lemma_trace_within_line(t, old, new, text, text.len() as int);
        assert(text.take(text.len() as int) =~= text);
    }
}

} // verus!
