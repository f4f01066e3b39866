use vstd::prelude::*;
use crate::pixel::{swapped, to_wire};

verus! {

/// An axis-aligned rectangle of the display, in physical pixels.
#[derive(Clone, Copy, Debug, PartialEq, Eq, Structural)]
pub struct Rect {
    pub x: usize,
    pub y: usize,
    pub width: usize,
    pub height: usize,
}

impl Rect {
    /// Whether the pixel at column `px`, row `py` lies inside the rectangle.
    pub open spec fn contains(self, px: int, py: int) -> bool {
        &&& self.x <= px < self.x + self.width
        &&& self.y <= py < self.y + self.height
    }

    /// Whether the rectangle lies inside a surface of `w` by `h` pixels.
    pub open spec fn fits(self, w: int, h: int) -> bool {
        self.x + self.width <= w && self.y + self.height <= h
    }

    /// Whether the two rectangles share no pixel.
    pub open spec fn disjoint_from(self, o: Rect) -> bool {
        ||| self.width == 0
        ||| self.height == 0
        ||| o.width == 0
        ||| o.height == 0
        ||| self.x + self.width <= o.x
        ||| o.x + o.width <= self.x
        ||| self.y + self.height <= o.y
        ||| o.y + o.height <= self.y
    }
}

/// Whether some rectangle of `rs` holds the pixel at (`px`, `py`).
pub open spec fn covered(rs: Seq<Rect>, px: int, py: int) -> bool {
    exists|i: int| 0 <= i < rs.len() && (#[trigger] rs[i]).contains(px, py)
}

/// A dirty-region set as the renderer hands it over: every rectangle inside
/// the surface, and no two of them overlapping.
pub open spec fn regions_valid(rs: Seq<Rect>, w: int, h: int) -> bool {
    &&& forall|i: int| 0 <= i < rs.len() ==> (#[trigger] rs[i]).fits(w, h)
    &&& forall|i: int, j: int|
        0 <= i < rs.len() && 0 <= j < rs.len() && i != j ==> (#[trigger] rs[i]).disjoint_from(
            #[trigger] rs[j],
        )
}

/// One draw-bitmap call on the panel bus: the pixels of columns `x0..x1` of
/// rows `y0..y1`, read from the frame buffer from index `offset` on.
#[derive(Clone, Copy, Debug, PartialEq, Eq, Structural)]
pub struct RowBlit {
    pub x0: usize,
    pub y0: usize,
    pub x1: usize,
    pub y1: usize,
    pub offset: usize,
}

/// The blit of row `row` of rectangle `r` on a surface `w` pixels wide.
pub open spec fn row_blit(r: Rect, row: int, w: int) -> RowBlit {
    RowBlit {
        x0: r.x,
        y0: (r.y + row) as usize,
        x1: (r.x + r.width) as usize,
        y1: (r.y + row + 1) as usize,
        offset: ((r.y + row) * w + r.x) as usize,
    }
}

/// The blits of a rectangle: one per row, top to bottom.
pub open spec fn rect_blits(r: Rect, w: int) -> Seq<RowBlit> {
    Seq::new(r.height as nat, |k: int| row_blit(r, k, w))
}

/// The blits of a region set: those of each rectangle, in the order given.
pub open spec fn region_blits(rs: Seq<Rect>, w: int) -> Seq<RowBlit>
    decreases rs.len(),
{
    if rs.len() == 0 {
        Seq::empty()
    } else {
        region_blits(rs.drop_last(), w) + rect_blits(rs.last(), w)
    }
}

/// Whether the blit `b` sends the pixel at (`px`, `py`).
pub open spec fn blit_contains(b: RowBlit, px: int, py: int) -> bool {
    b.x0 <= px < b.x1 && b.y0 <= py < b.y1
}

/// Every pixel of a valid region set is sent by exactly one blit, and no
/// pixel outside the regions is sent at all.
pub proof fn lemma_blits_send_each_pixel_once(rs: Seq<Rect>, w: int, h: int, px: int, py: int)
    requires
        regions_valid(rs, w, h),
        0 <= w <= usize::MAX,
        0 <= h <= usize::MAX,
        0 <= px < w,
        0 <= py < h,
    ensures
        covered(rs, px, py) <==> exists|j: int|
            0 <= j < region_blits(rs, w).len() && blit_contains(
                #[trigger] region_blits(rs, w)[j],
                px,
                py,
            ),
        forall|j1: int, j2: int|
            0 <= j1 < region_blits(rs, w).len() && 0 <= j2 < region_blits(rs, w).len()
                && blit_contains(#[trigger] region_blits(rs, w)[j1], px, py) && blit_contains(
                #[trigger] region_blits(rs, w)[j2],
                px,
                py,
            ) ==> j1 == j2,
    decreases rs.len(),
{
    if rs.len() == 0 {
        return;
    }
    let pre = rs.drop_last();
    let r = rs.last();
    assert(r == rs[rs.len() - 1]);
    assert(regions_valid(pre, w, h)) by {
        assert forall|i: int, j: int|
            0 <= i < pre.len() && 0 <= j < pre.len() && i != j implies (#[trigger] pre[i]).disjoint_from(
            #[trigger] pre[j],
        ) by {
            assert(pre[i] == rs[i] && pre[j] == rs[j]);
        }
    }
    lemma_blits_send_each_pixel_once(pre, w, h, px, py);
    let bp = region_blits(pre, w);
    let br = rect_blits(r, w);
    let all = region_blits(rs, w);
    assert(all == bp + br);
    assert(r.fits(w, h));
    // A blit of the last rectangle sends the pixel exactly when its row is
    // the pixel's row and the rectangle holds the pixel.
    assert forall|k: int| 0 <= k < br.len() implies blit_contains(#[trigger] br[k], px, py) <==> (
    r.contains(px, py) && py == r.y + k) by {
        assert(br[k] == row_blit(r, k, w));
    }
    if covered(rs, px, py) {
        let i = choose|i: int| 0 <= i < rs.len() && (#[trigger] rs[i]).contains(px, py);
        if i == rs.len() - 1 {
            let k = py - r.y;
            assert(blit_contains(all[bp.len() + k], px, py));
        } else {
            assert(pre[i].contains(px, py));
            let j = choose|j: int| 0 <= j < bp.len() && blit_contains(#[trigger] bp[j], px, py);
            assert(blit_contains(all[j], px, py));
        }
    }
    if exists|j: int| 0 <= j < all.len() && blit_contains(#[trigger] all[j], px, py) {
        let j = choose|j: int| 0 <= j < all.len() && blit_contains(#[trigger] all[j], px, py);
        if j < bp.len() {
            assert(blit_contains(bp[j], px, py));
            let i = choose|i: int| 0 <= i < pre.len() && (#[trigger] pre[i]).contains(px, py);
            assert(rs[i].contains(px, py));
        } else {
            assert(blit_contains(br[j - bp.len()], px, py));
            assert(rs[rs.len() - 1].contains(px, py));
        }
    }
    assert forall|j1: int, j2: int|
        0 <= j1 < all.len() && 0 <= j2 < all.len() && blit_contains(#[trigger] all[j1], px, py)
            && blit_contains(#[trigger] all[j2], px, py) implies j1 == j2 by {
        if j1 < bp.len() && j2 < bp.len() {
            assert(blit_contains(bp[j1], px, py) && blit_contains(bp[j2], px, py));
        } else if j1 >= bp.len() && j2 >= bp.len() {
            assert(blit_contains(br[j1 - bp.len()], px, py));
            assert(blit_contains(br[j2 - bp.len()], px, py));
        } else {
            let jp = if j1 < bp.len() { j1 } else { j2 };
            let jr = if j1 < bp.len() { j2 } else { j1 };
            assert(blit_contains(bp[jp], px, py));
            assert(blit_contains(br[jr - bp.len()], px, py));
            let i = choose|i: int| 0 <= i < pre.len() && (#[trigger] pre[i]).contains(px, py);
            assert(rs[i].contains(px, py));
            assert(rs[i].disjoint_from(rs[rs.len() - 1]));
        }
    }
}

/// The pixel at column `x`, row `y` of a row-major buffer `w` pixels wide.
pub open spec fn pixel_at(s: Seq<u16>, w: int, x: int, y: int) -> u16 {
    s[y * w + x]
}

proof fn lemma_index_bounds(w: int, h: int, x: int, y: int)
    requires
        0 <= x <= w,
        0 <= y < h,
    ensures
        0 <= y * w + x <= w * h,
        x < w ==> y * w + x < w * h,
{
    assert(0 <= y * w + x <= w * h && (x < w ==> y * w + x < w * h)) by (nonlinear_arith)
        requires
            0 <= x <= w,
            0 <= y < h,
    ;
}

proof fn lemma_index_distinct(w: int, x1: int, y1: int, x2: int, y2: int)
    requires
        0 <= x1 < w,
        0 <= x2 < w,
        0 <= y1,
        0 <= y2,
        x1 != x2 || y1 != y2,
    ensures
        y1 * w + x1 != y2 * w + x2,
{
    if y1 == y2 {
    } else if y1 < y2 {
        assert(y1 * w + w <= y2 * w) by (nonlinear_arith)
            requires
                y1 < y2,
                0 <= w,
        ;
    } else {
        assert(y2 * w + w <= y1 * w) by (nonlinear_arith)
            requires
                y2 < y1,
                0 <= w,
        ;
    }
}

/// The frame buffer: the pixels of the whole display, row-major, allocated
/// once and reused by every frame.
pub struct FrameBuffer {
    width: usize,
    height: usize,
    pixels: Vec<u16>,
}

impl FrameBuffer {
    pub closed spec fn spec_width(&self) -> int {
        self.width as int
    }

    pub closed spec fn spec_height(&self) -> int {
        self.height as int
    }

    pub closed spec fn spec_pixels(&self) -> Seq<u16> {
        self.pixels@
    }

    /// The buffer holds exactly one pixel per position of the display.
    pub open spec fn wf(&self) -> bool {
        &&& self.spec_pixels().len() == self.spec_width() * self.spec_height()
        &&& self.spec_width() * self.spec_height() <= usize::MAX
    }

    /// A black buffer of `width` by `height` pixels.
    pub fn new(width: usize, height: usize) -> (r: FrameBuffer)
        requires
            width * height <= usize::MAX,
        ensures
            r.wf(),
            r.spec_width() == width,
            r.spec_height() == height,
            forall|i: int| 0 <= i < width * height ==> r.spec_pixels()[i] == 0,
    {
        let n: usize = width * height;
        let mut pixels: Vec<u16> = Vec::with_capacity(n);
        let mut i: usize = 0;
        while i < n
            invariant
                i <= n,
                pixels@.len() == i,
                forall|j: int| 0 <= j < i ==> pixels@[j] == 0,
            decreases n - i,
        {
            pixels.push(0);
            i = i + 1;
        }
        FrameBuffer { width, height, pixels }
    }

    pub fn width(&self) -> (r: usize)
        ensures
            r == self.spec_width(),
    {
        self.width
    }

    pub fn height(&self) -> (r: usize)
        ensures
            r == self.spec_height(),
    {
        self.height
    }

    /// The pixels, row-major; the panel bus reads the blits' rows from here.
    pub fn pixels(&self) -> (r: &[u16])
        ensures
            r@ == self.spec_pixels(),
    {
        self.pixels.as_slice()
    }

    /// The pixels, row-major, for the renderer to draw into. The slice's
    /// length is fixed, so the buffer stays well formed.
    pub fn pixels_mut(&mut self) -> (r: &mut [u16])
        ensures
            r@ == old(self).spec_pixels(),
            final(self).spec_width() == old(self).spec_width(),
            final(self).spec_height() == old(self).spec_height(),
            final(self).spec_pixels() == final(r)@,
    {
        self.pixels.as_mut_slice()
    }
}


impl FrameBuffer {
    /// Transcodes columns `x0..x1` of row `y` to wire byte order, in place.
    fn transcode_row(&mut self, y: usize, x0: usize, x1: usize)
        requires
            old(self).wf(),
            x0 <= x1 <= old(self).spec_width(),
            y < old(self).spec_height(),
        ensures
            final(self).wf(),
            final(self).spec_width() == old(self).spec_width(),
            final(self).spec_height() == old(self).spec_height(),
            forall|a: int, b: int|
                0 <= a < old(self).spec_width() && 0 <= b < old(self).spec_height() ==> #[trigger] pixel_at(
                    final(self).spec_pixels(),
                    old(self).spec_width(),
                    a,
                    b,
                ) == if b == y && x0 <= a < x1 {
                    swapped(pixel_at(old(self).spec_pixels(), old(self).spec_width(), a, b))
                } else {
                    pixel_at(old(self).spec_pixels(), old(self).spec_width(), a, b)
                },
    {
        let ghost orig = self.pixels@;
        let ghost w = self.width as int;
        let ghost h = self.height as int;
        let mut x: usize = x0;
        while x < x1
            invariant
                x0 <= x <= x1,
                x1 <= w,
                y < h,
                w == self.width,
                h == self.height,
                self.pixels@.len() == orig.len(),
                orig.len() == w * h,
                w * h <= usize::MAX,
                forall|a: int, b: int|
                    0 <= a < w && 0 <= b < h ==> #[trigger] pixel_at(self.pixels@, w, a, b) == if b
                        == y && x0 <= a < x {
                        swapped(pixel_at(orig, w, a, b))
                    } else {
                        pixel_at(orig, w, a, b)
                    },
            decreases x1 - x,
        {
            proof {
                lemma_index_bounds(w, h, x as int, y as int);
            }
            let i: usize = y * self.width + x;
            let v: u16 = self.pixels[i];
            let ghost before = self.pixels@;
            let p: u16 = to_wire(v);
            self.pixels.set(i, p);
            assert(pixel_at(self.pixels@, w, x as int, y as int) == p);
            assert(v == pixel_at(before, w, x as int, y as int));
            assert forall|a: int, b: int| 0 <= a < w && 0 <= b < h implies #[trigger] pixel_at(
                self.pixels@,
                w,
                a,
                b,
            ) == if b == y && x0 <= a < x + 1 {
                swapped(pixel_at(orig, w, a, b))
            } else {
                pixel_at(orig, w, a, b)
            } by {
                lemma_index_bounds(w, h, a, b);
                assert(pixel_at(before, w, a, b) == pixel_at(before, w, a, b));
                if a != x || b != y {
                    lemma_index_distinct(w, a, b, x as int, y as int);
                    assert(pixel_at(self.pixels@, w, a, b) == pixel_at(before, w, a, b));
                }
            }
            x = x + 1;
        }
    }

    /// Transcodes rectangle `r` in place and appends its row blits to `blits`.
    fn transcode_rect(&mut self, r: Rect, blits: &mut Vec<RowBlit>)
        requires
            old(self).wf(),
            r.fits(old(self).spec_width(), old(self).spec_height()),
        ensures
            final(self).wf(),
            final(self).spec_width() == old(self).spec_width(),
            final(self).spec_height() == old(self).spec_height(),
            forall|a: int, b: int|
                0 <= a < old(self).spec_width() && 0 <= b < old(self).spec_height() ==> #[trigger] pixel_at(
                    final(self).spec_pixels(),
                    old(self).spec_width(),
                    a,
                    b,
                ) == if r.contains(a, b) {
                    swapped(pixel_at(old(self).spec_pixels(), old(self).spec_width(), a, b))
                } else {
                    pixel_at(old(self).spec_pixels(), old(self).spec_width(), a, b)
                },
            final(blits)@ == old(blits)@ + rect_blits(r, old(self).spec_width()),
    {
        let ghost orig = self.pixels@;
        let ghost blits0 = blits@;
        let ghost w = self.width as int;
        let ghost h = self.height as int;
        let mut k: usize = 0;
        while k < r.height
            invariant
                k <= r.height,
                r.fits(w, h),
                w == self.width,
                h == self.height,
                self.pixels@.len() == orig.len(),
                orig.len() == w * h,
                w * h <= usize::MAX,
                forall|a: int, b: int|
                    0 <= a < w && 0 <= b < h ==> #[trigger] pixel_at(self.pixels@, w, a, b) == if r.x
                        <= a < r.x + r.width && r.y <= b < r.y + k {
                        swapped(pixel_at(orig, w, a, b))
                    } else {
                        pixel_at(orig, w, a, b)
                    },
                blits@ == blits0 + rect_blits(r, w).take(k as int),
            decreases r.height - k,
        {
            let y: usize = r.y + k;
            let ghost before = self.pixels@;
            self.transcode_row(y, r.x, r.x + r.width);
            assert forall|a: int, b: int| 0 <= a < w && 0 <= b < h implies #[trigger] pixel_at(
                self.pixels@,
                w,
                a,
                b,
            ) == if r.x <= a < r.x + r.width && r.y <= b < r.y + k + 1 {
                swapped(pixel_at(orig, w, a, b))
            } else {
                pixel_at(orig, w, a, b)
            } by {
                assert(pixel_at(before, w, a, b) == pixel_at(before, w, a, b));
            }
            proof {
                lemma_index_bounds(w, h, r.x as int, y as int);
            }
            let offset: usize = y * self.width + r.x;
            blits.push(RowBlit { x0: r.x, y0: y, x1: r.x + r.width, y1: y + 1, offset });
            assert(rect_blits(r, w).take(k + 1) =~= rect_blits(r, w).take(k as int).push(
                row_blit(r, k as int, w),
            ));
            k = k + 1;
        }
        assert(rect_blits(r, w).take(r.height as int) =~= rect_blits(r, w));
    }

    /// Transcodes every pixel of the dirty regions `regions` to wire byte
    /// order, in place, and returns the draw-bitmap calls that send them to
    /// the panel: one per row of each rectangle, rectangles in the order
    /// given. Pixels outside all rectangles are left as they were; with no
    /// region there is nothing to send.
    pub fn transcode_regions(&mut self, regions: &Vec<Rect>) -> (blits: Vec<RowBlit>)
        requires
            old(self).wf(),
            regions_valid(regions@, old(self).spec_width(), old(self).spec_height()),
        ensures
            final(self).wf(),
            final(self).spec_width() == old(self).spec_width(),
            final(self).spec_height() == old(self).spec_height(),
            forall|a: int, b: int|
                0 <= a < old(self).spec_width() && 0 <= b < old(self).spec_height() ==> #[trigger] pixel_at(
                    final(self).spec_pixels(),
                    old(self).spec_width(),
                    a,
                    b,
                ) == if covered(regions@, a, b) {
                    swapped(pixel_at(old(self).spec_pixels(), old(self).spec_width(), a, b))
                } else {
                    pixel_at(old(self).spec_pixels(), old(self).spec_width(), a, b)
                },
            blits@ == region_blits(regions@, old(self).spec_width()),
            regions@.len() == 0 ==> blits@.len() == 0,
    {
        let ghost orig = self.pixels@;
        let ghost w = self.width as int;
        let ghost h = self.height as int;
        let ghost rs = regions@;
        let mut blits: Vec<RowBlit> = Vec::new();
        let mut i: usize = 0;
        while i < regions.len()
            invariant
                i <= rs.len(),
                rs == regions@,
                regions_valid(rs, w, h),
                w == self.width,
                h == self.height,
                self.pixels@.len() == orig.len(),
                orig.len() == w * h,
                w * h <= usize::MAX,
                forall|a: int, b: int|
                    0 <= a < w && 0 <= b < h ==> #[trigger] pixel_at(self.pixels@, w, a, b) == if covered(
                        rs.take(i as int),
                        a,
                        b,
                    ) {
                        swapped(pixel_at(orig, w, a, b))
                    } else {
                        pixel_at(orig, w, a, b)
                    },
                blits@ == region_blits(rs.take(i as int), w),
            decreases rs.len() - i,
        {
            let r: Rect = regions[i];
            let ghost before = self.pixels@;
            self.transcode_rect(r, &mut blits);
            assert forall|a: int, b: int| 0 <= a < w && 0 <= b < h implies #[trigger] pixel_at(
                self.pixels@,
                w,
                a,
                b,
            ) == if covered(rs.take(i + 1), a, b) {
                swapped(pixel_at(orig, w, a, b))
            } else {
                pixel_at(orig, w, a, b)
            } by {
                assert(pixel_at(before, w, a, b) == pixel_at(before, w, a, b));
                if r.contains(a, b) {
                    assert(rs.take(i + 1)[i as int] == r);
                    if covered(rs.take(i as int), a, b) {
                        let j = choose|j: int|
                            0 <= j < i && (#[trigger] rs.take(i as int)[j]).contains(a, b);
                        assert(rs[j].disjoint_from(rs[i as int]));
                    }
                } else {
                    if covered(rs.take(i + 1), a, b) {
                        let j = choose|j: int|
                            0 <= j < i + 1 && (#[trigger] rs.take(i + 1)[j]).contains(a, b);
                        assert(rs.take(i as int)[j].contains(a, b));
                    }
                    if covered(rs.take(i as int), a, b) {
                        let j = choose|j: int|
                            0 <= j < i && (#[trigger] rs.take(i as int)[j]).contains(a, b);
                        assert(rs.take(i + 1)[j].contains(a, b));
                    }
                }
            }
            assert(rs.take(i + 1).drop_last() =~= rs.take(i as int));
            i = i + 1;
        }
        assert(rs.take(rs.len() as int) =~= rs);
        blits
    }
}


impl Rect {
    /// Whether this rectangle and `o` share no pixel.
    pub fn is_disjoint_from(&self, o: &Rect) -> (r: bool)
        ensures
            r == self.disjoint_from(*o),
    {
        let left_of = o.x >= self.x && o.x - self.x >= self.width;
        let right_of = self.x >= o.x && self.x - o.x >= o.width;
        let above = o.y >= self.y && o.y - self.y >= self.height;
        let below = self.y >= o.y && self.y - o.y >= o.height;
        self.width == 0 || self.height == 0 || o.width == 0 || o.height == 0 || left_of || right_of
            || above || below
    }
}

impl FrameBuffer {
    /// Whether `regions` is a dirty-region set that this buffer can
    /// transcode: each rectangle inside the display, no two overlapping.
    pub fn accepts_regions(&self, regions: &Vec<Rect>) -> (r: bool)
        ensures
            r == regions_valid(regions@, self.spec_width(), self.spec_height()),
    {
        let n: usize = regions.len();
        let mut i: usize = 0;
        while i < n
            invariant
                i <= n,
                n == regions@.len(),
                forall|k: int| 0 <= k < i ==> (#[trigger] regions@[k]).fits(self.spec_width(), self.spec_height()),
            decreases n - i,
        {
            let r: Rect = regions[i];
            if r.width > self.width || r.x > self.width - r.width || r.height > self.height || r.y
                > self.height - r.height {
                assert(!regions@[i as int].fits(self.spec_width(), self.spec_height()));
                assert(!regions_valid(regions@, self.spec_width(), self.spec_height()));
                return false;
            }
            i = i + 1;
        }
        let mut i: usize = 0;
        while i < n
            invariant
                i <= n,
                n == regions@.len(),
                forall|k: int| 0 <= k < n ==> (#[trigger] regions@[k]).fits(self.spec_width(), self.spec_height()),
                forall|p: int, q: int|
                    0 <= p < i && 0 <= q < n && p != q ==> (#[trigger] regions@[p]).disjoint_from(
                        #[trigger] regions@[q],
                    ),
            decreases n - i,
        {
            let mut j: usize = 0;
            while j < n
                invariant
                    i < n,
                    j <= n,
                    n == regions@.len(),
                    forall|k: int| 0 <= k < n ==> (#[trigger] regions@[k]).fits(self.spec_width(), self.spec_height()),
                    forall|p: int, q: int|
                        0 <= p < i && 0 <= q < n && p != q ==> (#[trigger] regions@[p]).disjoint_from(
                            #[trigger] regions@[q],
                        ),
                    forall|q: int| 0 <= q < j && i != q ==> regions@[i as int].disjoint_from(#[trigger] regions@[q]),
                decreases n - j,
            {
                if i != j && !regions[i].is_disjoint_from(&regions[j]) {
                    assert(!regions@[i as int].disjoint_from(regions@[j as int]));
                    assert(!regions_valid(regions@, self.spec_width(), self.spec_height()));
                    return false;
                }
                j = j + 1;
            }
            i = i + 1;
        }
        true
    }
}

} // verus!
