use vstd::prelude::*;
use crate::pixel::Pixel;

verus! {

/// Position of pixel `(x, y)` in a buffer whose rows are `stride` pixels apart.
pub open spec fn idx(stride: nat, x: nat, y: nat) -> nat {
    y * stride + x
}

/// A pixel inside the buffer has its index inside the buffer.
pub proof fn lemma_idx_bound(stride: nat, height: nat, x: nat, y: nat)
    requires
        x < stride,
        y < height,
    ensures
        idx(stride, x, y) < height * stride,
{
    assert(y * stride + x < height * stride) by (nonlinear_arith)
        requires
            x < stride,
            y < height,
    ;
}

/// Distinct pixels have distinct indices.
pub proof fn lemma_idx_distinct(stride: nat, x1: nat, y1: nat, x2: nat, y2: nat)
    requires
        x1 < stride,
        x2 < stride,
        x1 != x2 || y1 != y2,
    ensures
        idx(stride, x1, y1) != idx(stride, x2, y2),
{
    if y1 < y2 {
        assert(y1 * stride + x1 < y2 * stride + x2) by (nonlinear_arith)
            requires
                x1 < stride,
                y1 < y2,
        ;
    } else if y2 < y1 {
        assert(y2 * stride + x2 < y1 * stride + x1) by (nonlinear_arith)
            requires
                x2 < stride,
                y2 < y1,
        ;
    }
}

/// One channel a `coverage`/256 of the way from `b` to `f`, the offset
/// truncated towards zero.
pub open spec fn mix(f: u8, b: u8, coverage: u8) -> u8 {
    if f >= b {
        (b + (f - b) * coverage / 256) as u8
    } else {
        (b - (b - f) * coverage / 256) as u8
    }
}

/// The pixel that `draw_alpha` writes for `coverage`: the background at 0,
/// the foreground at 255, and each channel mixed in between.
pub open spec fn blend<P: Pixel>(fg: P, bg: P, coverage: u8) -> P {
    if coverage == 0 {
        bg
    } else if coverage == 255 {
        fg
    } else {
        let f = fg.decode_spec();
        let b = bg.decode_spec();
        P::encode_spec(
            mix(f.0, b.0, coverage),
            mix(f.1, b.1, coverage),
            mix(f.2, b.2, coverage),
            mix(f.3, b.3, coverage),
        )
    }
}

fn mix_channel(f: u8, b: u8, coverage: u8) -> (r: u8)
    ensures
        r == mix(f, b, coverage),
{
    if f >= b {
        let diff: u32 = (f - b) as u32;
        assert(diff * coverage <= 255 * 255) by (nonlinear_arith)
            requires
                diff <= 255,
                coverage <= 255,
        ;
        let d: u32 = diff * coverage as u32 / 256;
        assert(d <= f - b) by (nonlinear_arith)
            requires
                d == diff * coverage / 256,
                diff == (f - b),
                coverage <= 255,
                f >= b,
        ;
        b + d as u8
    } else {
        let diff: u32 = (b - f) as u32;
        assert(diff * coverage <= 255 * 255) by (nonlinear_arith)
            requires
                diff <= 255,
                coverage <= 255,
        ;
        let d: u32 = diff * coverage as u32 / 256;
        assert(d <= b - f) by (nonlinear_arith)
            requires
                d == diff * coverage / 256,
                diff == (b - f),
                coverage <= 255,
                b > f,
        ;
        b - d as u8
    }
}

/// Coverage 0 gives the background and 255 the foreground, whatever the
/// pixel format.
pub proof fn lemma_blend_ends<P: Pixel>(fg: P, bg: P)
    ensures
        blend(fg, bg, 0) == bg,
        blend(fg, bg, 255) == fg,
{
}

/// Half coverage lands each channel within one unit of the midpoint of
/// background and foreground.
pub proof fn lemma_mix_halfway(f: u8, b: u8)
    ensures
        -1 <= mix(f, b, 128) - (f + b) / 2 <= 1,
{
}

/// Whether `(x, y)` lies in what `flush(rect)` copies on a `width` by
/// `height` framebuffer.
pub open spec fn in_area(rect: Option<Rect>, width: nat, height: nat, x: nat, y: nat) -> bool {
    match rect {
        Some(r) => r.contains(x as int, y as int),
        None => x < width && y < height,
    }
}

/// Whether row `y` of a block of `h` rows that starts at row `top` is among
/// the first `k` copied, copying from the top down when `upward` and from the
/// bottom up otherwise.
pub open spec fn row_copied(upward: bool, top: nat, h: nat, k: nat, y: nat) -> bool {
    if upward {
        top <= y < top + k
    } else {
        top + h - k <= y < top + h
    }
}

/// A rectangle of pixels; `right` and `bottom` are the last column and row
/// inside it.
#[derive(Copy, Clone, Debug, PartialEq, Eq)]
pub struct Rect {
    x: usize,
    y: usize,
    width: usize,
    height: usize,
}

impl Rect {
    pub closed spec fn left_spec(&self) -> nat {
        self.x as nat
    }

    pub closed spec fn top_spec(&self) -> nat {
        self.y as nat
    }

    pub closed spec fn width_spec(&self) -> nat {
        self.width as nat
    }

    pub closed spec fn height_spec(&self) -> nat {
        self.height as nat
    }

    pub open spec fn right_spec(&self) -> int {
        self.left_spec() + self.width_spec() - 1
    }

    pub open spec fn bottom_spec(&self) -> int {
        self.top_spec() + self.height_spec() - 1
    }

    /// Not empty, and its last column and row are machine integers.
    pub open spec fn wf(&self) -> bool {
        &&& self.width_spec() > 0
        &&& self.height_spec() > 0
        &&& self.right_spec() <= usize::MAX
        &&& self.bottom_spec() <= usize::MAX
    }

    pub open spec fn contains(&self, x: int, y: int) -> bool {
        &&& self.left_spec() <= x <= self.right_spec()
        &&& self.top_spec() <= y <= self.bottom_spec()
    }

    /// Lies inside a `width` by `height` area.
    pub open spec fn within(&self, width: nat, height: nat) -> bool {
        self.wf() && self.right_spec() < width && self.bottom_spec() < height
    }

    pub fn new(x: usize, y: usize, width: usize, height: usize) -> (r: Rect)
        requires
            width > 0,
            height > 0,
            x + width - 1 <= usize::MAX,
            y + height - 1 <= usize::MAX,
        ensures
            r.wf(),
            r.left_spec() == x,
            r.top_spec() == y,
            r.width_spec() == width,
            r.height_spec() == height,
    {
        Rect { x, y, width, height }
    }

    pub fn right(&self) -> (r: usize)
        requires
            self.wf(),
        ensures
            r == self.right_spec(),
    {
        self.x + (self.width - 1)
    }

    pub fn left(&self) -> (r: usize)
        ensures
            r == self.left_spec(),
    {
        self.x
    }

    pub fn top(&self) -> (r: usize)
        ensures
            r == self.top_spec(),
    {
        self.y
    }

    pub fn bottom(&self) -> (r: usize)
        requires
            self.wf(),
        ensures
            r == self.bottom_spec(),
    {
        self.y + (self.height - 1)
    }

    pub fn width(&self) -> (r: usize)
        ensures
            r == self.width_spec(),
    {
        self.width
    }

    pub fn height(&self) -> (r: usize)
        ensures
            r == self.height_spec(),
    {
        self.height
    }
}


/// A rectangular view of pixel memory, `stride` pixels per row of which the
/// first `width` are visible, drawn with a foreground and a background
/// colour.
///
/// Drawing goes to the work buffer. Once a second buffer is set up with
/// `set_double_buffer`, the memory the framebuffer was made with becomes the
/// visible buffer, and `flush` copies rectangles from the work buffer into
/// it; until then the two are one.
pub struct Framebuffer<P: Pixel> {
    base: Vec<P>,
    front: Vec<P>,
    double_buffered: bool,
    width: usize,
    height: usize,
    stride: usize,
    background: P,
    foreground: P,
}

impl<P: Pixel> Framebuffer<P> {
    /// The work buffer, row after row.
    pub closed spec fn pixels(&self) -> Seq<P> {
        self.base@
    }

    /// The separate visible buffer, if double buffering is set up.
    pub closed spec fn front_spec(&self) -> Option<Seq<P>> {
        if self.double_buffered {
            Some(self.front@)
        } else {
            None
        }
    }

    pub closed spec fn width_spec(&self) -> nat {
        self.width as nat
    }

    pub closed spec fn height_spec(&self) -> nat {
        self.height as nat
    }

    pub closed spec fn stride_spec(&self) -> nat {
        self.stride as nat
    }

    pub closed spec fn background_spec(&self) -> P {
        self.background
    }

    pub closed spec fn foreground_spec(&self) -> P {
        self.foreground
    }

    pub open spec fn wf(&self) -> bool {
        &&& self.width_spec() > 0
        &&& self.height_spec() > 0
        &&& self.width_spec() <= self.stride_spec()
        &&& self.pixels().len() == self.height_spec() * self.stride_spec()
        &&& self.pixels().len() <= usize::MAX
        &&& self.stride_spec() <= usize::MAX
        &&& self.height_spec() <= usize::MAX
        &&& self.front_spec() is Some ==> self.front_spec().unwrap().len() == self.pixels().len()
    }

    /// The work buffer's pixel in column `x` of row `y`.
    pub open spec fn at(&self, x: nat, y: nat) -> P {
        self.pixels()[idx(self.stride_spec(), x, y) as int]
    }

    /// The pixel in column `x` of row `y` that the display shows.
    pub open spec fn visible_at(&self, x: nat, y: nat) -> P {
        match self.front_spec() {
            Some(f) => f[idx(self.stride_spec(), x, y) as int],
            None => self.at(x, y),
        }
    }

    /// Everything but the work buffer's pixels is as in `other`.
    pub open spec fn same_setup(&self, other: &Self) -> bool {
        &&& self.width_spec() == other.width_spec()
        &&& self.height_spec() == other.height_spec()
        &&& self.stride_spec() == other.stride_spec()
        &&& self.background_spec() == other.background_spec()
        &&& self.foreground_spec() == other.foreground_spec()
        &&& self.front_spec() == other.front_spec()
    }

    /// The work buffer holds `p` inside `r` and what `old` held elsewhere.
    pub open spec fn filled_from(&self, old: &Self, r: Rect, p: P) -> bool {
        forall|x: nat, y: nat|
            x < self.stride_spec() && y < self.height_spec() ==> #[trigger] self.at(x, y) == if r.contains(
                x as int,
                y as int,
            ) {
                p
            } else {
                old.at(x, y)
            }
    }

    /// Takes `memory` as the framebuffer's pixels: `height` rows of `stride`
    /// pixels, of which the first `width` are shown.
    pub fn new(memory: Vec<P>, width: usize, height: usize, stride: usize, background: P, foreground: P) -> (fb: Framebuffer<P>)
        requires
            width > 0,
            height > 0,
            width <= stride,
            memory@.len() == height * stride,
        ensures
            fb.wf(),
            fb.pixels() == memory@,
            fb.front_spec() is None,
            fb.width_spec() == width,
            fb.height_spec() == height,
            fb.stride_spec() == stride,
            fb.background_spec() == background,
            fb.foreground_spec() == foreground,
    {
        let len = memory.len();
        assert(len == height * stride);
        Framebuffer {
            base: memory,
            front: Vec::new(),
            double_buffered: false,
            width,
            height,
            stride,
            background,
            foreground,
        }
    }

    /// Makes `work` the buffer that drawing goes to; what was drawn to
    /// until now becomes the visible buffer.
    pub fn set_double_buffer(&mut self, work: Vec<P>)
        requires
            old(self).wf(),
            work@.len() == old(self).pixels().len(),
        ensures
            final(self).wf(),
            final(self).pixels() == work@,
            final(self).front_spec() == Some(old(self).pixels()),
            final(self).width_spec() == old(self).width_spec(),
            final(self).height_spec() == old(self).height_spec(),
            final(self).stride_spec() == old(self).stride_spec(),
            final(self).background_spec() == old(self).background_spec(),
            final(self).foreground_spec() == old(self).foreground_spec(),
    {
        let mut work = work;
        core::mem::swap(&mut self.base, &mut work);
        self.front = work;
        self.double_buffered = true;
    }

    /// The work buffer's pixel at index `index`.
    pub fn read(&self, index: usize) -> (p: P)
        requires
            index < self.pixels().len(),
        ensures
            p == self.pixels()[index as int],
    {
        self.base[index]
    }

    /// Writes `val` at index `index` of the work buffer.
    pub fn write(&mut self, index: usize, val: P)
        requires
            index < old(self).pixels().len(),
        ensures
            final(self).pixels() == old(self).pixels().update(index as int, val),
            final(self).same_setup(old(self)),
    {
        self.base.set(index, val);
    }

    pub fn get_pixel(&self, x: usize, y: usize) -> (p: P)
        requires
            self.wf(),
            x < self.width_spec(),
            y < self.height_spec(),
        ensures
            p == self.at(x as nat, y as nat),
    {
        proof {
            lemma_idx_bound(self.stride_spec(), self.height_spec(), x as nat, y as nat);
        }
        self.base[y * self.stride + x]
    }

    pub fn draw_pixel(&mut self, x: usize, y: usize, pixel: P)
        requires
            old(self).wf(),
            x < old(self).width_spec(),
            y < old(self).height_spec(),
        ensures
            final(self).wf(),
            final(self).same_setup(old(self)),
            forall|x2: nat, y2: nat|
                x2 < old(self).stride_spec() && y2 < old(self).height_spec() ==> #[trigger] final(self).at(x2, y2) == if x2 == x && y2 == y {
                    pixel
                } else {
                    old(self).at(x2, y2)
                },
    {
        proof {
            lemma_idx_bound(self.stride_spec(), self.height_spec(), x as nat, y as nat);
        }
        self.base.set(y * self.stride + x, pixel);
        proof {
            assert forall|x2: nat, y2: nat|
                x2 < old(self).stride_spec() && y2 < old(self).height_spec() implies #[trigger] self.at(x2, y2) == if x2 == x && y2 == y {
                    pixel
                } else {
                    old(self).at(x2, y2)
                } by {
                lemma_idx_bound(self.stride_spec(), self.height_spec(), x2, y2);
                if x2 != x || y2 != y {
                    lemma_idx_distinct(self.stride_spec(), x2, y2, x as nat, y as nat);
                }
            }
        }
    }

    /// Fills every pixel of the work buffer, padding included, with the
    /// background.
    pub fn clear(&mut self)
        requires
            old(self).wf(),
        ensures
            final(self).wf(),
            final(self).same_setup(old(self)),
            final(self).pixels().len() == old(self).pixels().len(),
            forall|i: int|
                0 <= i < final(self).pixels().len() ==> #[trigger] final(self).pixels()[i] == old(self).background_spec(),
    {
        let n = self.base.len();
        let mut i: usize = 0;
        while i < n
            invariant
                self.wf(),
                self.same_setup(old(self)),
                n == self.pixels().len(),
                i <= n,
                forall|k: int| 0 <= k < i ==> #[trigger] self.pixels()[k] == self.background_spec(),
            decreases n - i,
        {
            let bg = self.background;
            self.base.set(i, bg);
            i += 1;
        }
    }

    /// Fills `dst` with `pixel`.
    pub fn draw_rect(&mut self, dst: Rect, pixel: P)
        requires
            old(self).wf(),
            dst.within(old(self).width_spec(), old(self).height_spec()),
        ensures
            final(self).wf(),
            final(self).same_setup(old(self)),
            final(self).filled_from(old(self), dst, pixel),
    {
        let mut j: usize = 0;
        while j < dst.height
            invariant
                self.wf(),
                self.same_setup(old(self)),
                dst.within(self.width_spec(), self.height_spec()),
                j <= dst.height_spec(),
                forall|x: nat, y: nat|
                    x < self.stride_spec() && y < self.height_spec() ==> #[trigger] self.at(x, y) == if dst.left_spec() <= x <= dst.right_spec() && dst.top_spec() <= y < dst.top_spec() + j {
                        pixel
                    } else {
                        old(self).at(x, y)
                    },
            decreases dst.height - j,
        {
            let mut i: usize = 0;
            while i < dst.width
                invariant
                    self.wf(),
                    self.same_setup(old(self)),
                    dst.within(self.width_spec(), self.height_spec()),
                    j < dst.height_spec(),
                    i <= dst.width_spec(),
                    forall|x: nat, y: nat|
                        x < self.stride_spec() && y < self.height_spec() ==> #[trigger] self.at(x, y) == if (dst.left_spec() <= x <= dst.right_spec() && dst.top_spec() <= y < dst.top_spec() + j) || (dst.left_spec() <= x < dst.left_spec() + i && y == dst.top_spec() + j) {
                            pixel
                        } else {
                            old(self).at(x, y)
                        },
                decreases dst.width - i,
            {
                self.draw_pixel(dst.x + i, dst.y + j, pixel);
                i += 1;
            }
            j += 1;
        }
    }

    /// Copies the pixels of `src` into `dst`, as they were before the call
    /// even where the two overlap. The two may not start on the same row.
    pub fn copy_rect(&mut self, src: Rect, dst: Rect)
        requires
            old(self).wf(),
            src.top_spec() != dst.top_spec(),
            src.width_spec() == dst.width_spec(),
            src.height_spec() == dst.height_spec(),
            src.within(old(self).width_spec(), old(self).height_spec()),
            dst.within(old(self).width_spec(), old(self).height_spec()),
        ensures
            final(self).wf(),
            final(self).same_setup(old(self)),
            forall|x: nat, y: nat|
                x < old(self).stride_spec() && y < old(self).height_spec() ==> #[trigger] final(self).at(x, y) == if dst.contains(x as int, y as int) {
                    old(self).at(
                        (x - dst.left_spec() + src.left_spec()) as nat,
                        (y - dst.top_spec() + src.top_spec()) as nat,
                    )
                } else {
                    old(self).at(x, y)
                },
    {
        let upward = dst.y < src.y;
        let h = src.height;
        let mut k: usize = 0;
        while k < h
            invariant
                self.wf(),
                self.same_setup(old(self)),
                src.top_spec() != dst.top_spec(),
                upward == (dst.top_spec() < src.top_spec()),
                h == src.height_spec(),
                src.width_spec() == dst.width_spec(),
                src.height_spec() == dst.height_spec(),
                src.within(self.width_spec(), self.height_spec()),
                dst.within(self.width_spec(), self.height_spec()),
                k <= h,
                forall|x: nat, y: nat|
                    x < self.stride_spec() && y < self.height_spec() ==> #[trigger] self.at(x, y) == if dst.left_spec() <= x <= dst.right_spec() && row_copied(upward, dst.top_spec(), h as nat, k as nat, y) {
                        old(self).at(
                            (x - dst.left_spec() + src.left_spec()) as nat,
                            (y - dst.top_spec() + src.top_spec()) as nat,
                        )
                    } else {
                        old(self).at(x, y)
                    },
            decreases h - k,
        {
            let j = if upward {
                k
            } else {
                h - 1 - k
            };
            let ghost before = *self;
            let mut i: usize = 0;
            while i < src.width
                invariant
                    self.wf(),
                    self.same_setup(old(self)),
                    before.wf(),
                    before.same_setup(old(self)),
                    src.top_spec() != dst.top_spec(),
                    upward == (dst.top_spec() < src.top_spec()),
                    h == src.height_spec(),
                    j < h,
                    j == if upward { k as int } else { h - 1 - k },
                    src.width_spec() == dst.width_spec(),
                    src.height_spec() == dst.height_spec(),
                    src.within(self.width_spec(), self.height_spec()),
                    dst.within(self.width_spec(), self.height_spec()),
                    k < h,
                    i <= src.width_spec(),
                    forall|x: nat, y: nat|
                        x < self.stride_spec() && y < self.height_spec() ==> #[trigger] before.at(x, y) == if dst.left_spec() <= x <= dst.right_spec() && row_copied(upward, dst.top_spec(), h as nat, k as nat, y) {
                            old(self).at(
                                (x - dst.left_spec() + src.left_spec()) as nat,
                                (y - dst.top_spec() + src.top_spec()) as nat,
                            )
                        } else {
                            old(self).at(x, y)
                        },
                    forall|x: nat, y: nat|
                        x < self.stride_spec() && y < self.height_spec() ==> #[trigger] self.at(x, y) == if dst.left_spec() <= x < dst.left_spec() + i && y == dst.top_spec() + j {
                            old(self).at(
                                (x - dst.left_spec() + src.left_spec()) as nat,
                                (y - dst.top_spec() + src.top_spec()) as nat,
                            )
                        } else {
                            before.at(x, y)
                        },
                decreases src.width - i,
            {
                let p = self.get_pixel(src.x + i, src.y + j);
                self.draw_pixel(dst.x + i, dst.y + j, p);
                i += 1;
            }
            k += 1;
        }
    }

    /// Writes at `(x, y)` the background, the foreground, or for a
    /// coverage in between a mix of the two.
    pub fn draw_alpha(&mut self, x: usize, y: usize, alpha: u8)
        requires
            old(self).wf(),
            x < old(self).width_spec(),
            y < old(self).height_spec(),
        ensures
            final(self).wf(),
            final(self).same_setup(old(self)),
            forall|x2: nat, y2: nat|
                x2 < old(self).stride_spec() && y2 < old(self).height_spec() ==> #[trigger] final(self).at(x2, y2) == if x2 == x && y2 == y {
                    blend(old(self).foreground_spec(), old(self).background_spec(), alpha)
                } else {
                    old(self).at(x2, y2)
                },
    {
        let pixel = if alpha == 0 {
            self.background
        } else if alpha == 255 {
            self.foreground
        } else {
            let fg = self.foreground.get();
            let bg = self.background.get();
            P::new(
                mix_channel(fg.0, bg.0, alpha),
                mix_channel(fg.1, bg.1, alpha),
                mix_channel(fg.2, bg.2, alpha),
                mix_channel(fg.3, bg.3, alpha),
            )
        };
        self.draw_pixel(x, y, pixel)
    }

    fn put_front(&mut self, x: usize, y: usize, pixel: P)
        requires
            old(self).wf(),
            old(self).front_spec() is Some,
            x < old(self).width_spec(),
            y < old(self).height_spec(),
        ensures
            final(self).wf(),
            final(self).pixels() == old(self).pixels(),
            final(self).width_spec() == old(self).width_spec(),
            final(self).height_spec() == old(self).height_spec(),
            final(self).stride_spec() == old(self).stride_spec(),
            final(self).background_spec() == old(self).background_spec(),
            final(self).foreground_spec() == old(self).foreground_spec(),
            final(self).front_spec() is Some,
            forall|x2: nat, y2: nat|
                x2 < old(self).stride_spec() && y2 < old(self).height_spec() ==> #[trigger] final(self).visible_at(x2, y2) == if x2 == x && y2 == y {
                    pixel
                } else {
                    old(self).visible_at(x2, y2)
                },
    {
        proof {
            lemma_idx_bound(self.stride_spec(), self.height_spec(), x as nat, y as nat);
        }
        self.front.set(y * self.stride + x, pixel);
        proof {
            assert forall|x2: nat, y2: nat|
                x2 < old(self).stride_spec() && y2 < old(self).height_spec() implies #[trigger] self.visible_at(x2, y2) == if x2 == x && y2 == y {
                    pixel
                } else {
                    old(self).visible_at(x2, y2)
                } by {
                lemma_idx_bound(self.stride_spec(), self.height_spec(), x2, y2);
                if x2 != x || y2 != y {
                    lemma_idx_distinct(self.stride_spec(), x2, y2, x as nat, y as nat);
                }
            }
        }
    }

    /// Copies `rect`, or the whole visible area for `None`, from the work
    /// buffer to the visible buffer. Without double buffering the two are
    /// one and nothing is done.
    pub fn flush(&mut self, rect: Option<Rect>)
        requires
            old(self).wf(),
            old(self).front_spec() is Some ==> (rect matches Some(r) ==> r.within(
                old(self).width_spec(),
                old(self).height_spec(),
            )),
        ensures
            final(self).wf(),
            final(self).pixels() == old(self).pixels(),
            final(self).width_spec() == old(self).width_spec(),
            final(self).height_spec() == old(self).height_spec(),
            final(self).stride_spec() == old(self).stride_spec(),
            final(self).background_spec() == old(self).background_spec(),
            final(self).foreground_spec() == old(self).foreground_spec(),
            old(self).front_spec() is None ==> *final(self) == *old(self),
            final(self).front_spec() is Some == old(self).front_spec() is Some,
            forall|x: nat, y: nat|
                x < old(self).stride_spec() && y < old(self).height_spec() ==> #[trigger] final(self).visible_at(x, y) == if in_area(rect, old(self).width_spec(), old(self).height_spec(), x, y) {
                    old(self).at(x, y)
                } else {
                    old(self).visible_at(x, y)
                },
    {
        if !self.double_buffered {
            return;
        }
        let r = match rect {
            Some(r) => r,
            None => Rect::new(0, 0, self.width, self.height),
        };
        let mut j: usize = 0;
        while j < r.height
            invariant
                self.wf(),
                self.front_spec() is Some,
                self.pixels() == old(self).pixels(),
                self.width_spec() == old(self).width_spec(),
                self.height_spec() == old(self).height_spec(),
                self.stride_spec() == old(self).stride_spec(),
                self.background_spec() == old(self).background_spec(),
                self.foreground_spec() == old(self).foreground_spec(),
                r.within(self.width_spec(), self.height_spec()),
                forall|x: nat, y: nat| (#[trigger] r.contains(x as int, y as int)) == in_area(rect, old(self).width_spec(), old(self).height_spec(), x, y),
                j <= r.height_spec(),
                forall|x: nat, y: nat|
                    x < self.stride_spec() && y < self.height_spec() ==> #[trigger] self.visible_at(x, y) == if r.left_spec() <= x <= r.right_spec() && r.top_spec() <= y < r.top_spec() + j {
                        old(self).at(x, y)
                    } else {
                        old(self).visible_at(x, y)
                    },
            decreases r.height - j,
        {
            let mut i: usize = 0;
            while i < r.width
                invariant
                    self.wf(),
                    self.front_spec() is Some,
                    self.pixels() == old(self).pixels(),
                    self.width_spec() == old(self).width_spec(),
                    self.height_spec() == old(self).height_spec(),
                    self.stride_spec() == old(self).stride_spec(),
                    self.background_spec() == old(self).background_spec(),
                    self.foreground_spec() == old(self).foreground_spec(),
                    r.within(self.width_spec(), self.height_spec()),
                    j < r.height_spec(),
                    i <= r.width_spec(),
                    forall|x: nat, y: nat|
                        x < self.stride_spec() && y < self.height_spec() ==> #[trigger] self.visible_at(x, y) == if (r.left_spec() <= x <= r.right_spec() && r.top_spec() <= y < r.top_spec() + j) || (r.left_spec() <= x < r.left_spec() + i && y == r.top_spec() + j) {
                            old(self).at(x, y)
                        } else {
                            old(self).visible_at(x, y)
                        },
                decreases r.width - i,
            {
                let p = self.get_pixel(r.x + i, r.y + j);
                self.put_front(r.x + i, r.y + j, p);
                i += 1;
            }
            j += 1;
        }
    }

    pub fn get_foreground(&self) -> (p: P)
        ensures
            p == self.foreground_spec(),
    {
        self.foreground
    }

    pub fn set_foreground(&mut self, pixel: P)
        ensures
            final(self).foreground_spec() == pixel,
            final(self).pixels() == old(self).pixels(),
            final(self).front_spec() == old(self).front_spec(),
            final(self).width_spec() == old(self).width_spec(),
            final(self).height_spec() == old(self).height_spec(),
            final(self).stride_spec() == old(self).stride_spec(),
            final(self).background_spec() == old(self).background_spec(),
    {
        self.foreground = pixel
    }

    pub fn get_background(&self) -> (p: P)
        ensures
            p == self.background_spec(),
    {
        self.background
    }

    pub fn set_background(&mut self, pixel: P)
        ensures
            final(self).background_spec() == pixel,
            final(self).pixels() == old(self).pixels(),
            final(self).front_spec() == old(self).front_spec(),
            final(self).width_spec() == old(self).width_spec(),
            final(self).height_spec() == old(self).height_spec(),
            final(self).stride_spec() == old(self).stride_spec(),
            final(self).foreground_spec() == old(self).foreground_spec(),
    {
        self.background = pixel
    }

    pub fn width(&self) -> (w: usize)
        ensures
            w == self.width_spec(),
    {
        self.width
    }

    pub fn height(&self) -> (h: usize)
        ensures
            h == self.height_spec(),
    {
        self.height
    }

    /// Size in bytes of one buffer: `height` rows of `stride` pixels.
    pub fn buffer_size(&self) -> (n: usize)
        requires
            self.wf(),
            self.pixels().len() * P::size_spec() <= usize::MAX,
        ensures
            n == self.height_spec() * self.stride_spec() * P::size_spec(),
    {
        self.height * self.stride * P::size()
    }

    /// The work buffer, which drawing goes to.
    pub fn get_base(&self) -> (b: &Vec<P>)
        ensures
            b@ == self.pixels(),
    {
        &self.base
    }

    /// The buffer that the display shows: the separate visible buffer when
    /// double buffering is set up, else the work buffer.
    pub fn get_visible(&self) -> (b: &Vec<P>)
        ensures
            b@ == match self.front_spec() {
                Some(f) => f,
                None => self.pixels(),
            },
    {
        if self.double_buffered {
            &self.front
        } else {
            &self.base
        }
    }

    pub fn draw_bit(&mut self, x: usize, y: usize, bit: bool)
        requires
            old(self).wf(),
            x < old(self).width_spec(),
            y < old(self).height_spec(),
        ensures
            final(self).wf(),
            final(self).same_setup(old(self)),
            forall|x2: nat, y2: nat|
                x2 < old(self).stride_spec() && y2 < old(self).height_spec() ==> #[trigger] final(self).at(x2, y2) == if x2 == x && y2 == y {
                    if bit {
                        old(self).foreground_spec()
                    } else {
                        old(self).background_spec()
                    }
                } else {
                    old(self).at(x2, y2)
                },
    {
        if bit {
            let fg = self.foreground;
            self.draw_pixel(x, y, fg)
        } else {
            let bg = self.background;
            self.draw_pixel(x, y, bg)
        }
    }
}

} // verus!
