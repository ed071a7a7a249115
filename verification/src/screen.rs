//! The framebuffer and the primitives that draw into it.

use vstd::prelude::*;
use crate::grid::{lemma_offset_in_buffer, lemma_offsets_apart, pixel_at};
use crate::objects::{dist_sq, Color, Rect};

verus! {

/// A view of a borrowed RGBA8 framebuffer as a grid of `width` by `height`
/// pixels.
///
/// No drawing function writes outside the buffer: what falls off the screen
/// is dropped without an error. Each of them also promises, in its clause on
/// `final(..).framebuffer`, that the screen still draws into the buffer it
/// was wrapped around, so that what holds of the screen's pixels holds of
/// that buffer once the screen is gone.
pub struct Screen<'fb> {
    pub framebuffer: &'fb mut [u8],
    pub width: usize,
    pub height: usize,
    pub depth: usize,
}

/// `v` moved into `0 ..= limit`.
pub open spec fn clamp(v: int, limit: int) -> int {
    if v < 0 {
        0
    } else if v > limit {
        limit
    } else {
        v
    }
}

/// Whether the pixel `(x, y)` lies nearer to `center` than `r`.
pub open spec fn in_disc(center: (int, int), r: int, x: int, y: int) -> bool {
    dist_sq((x, y), center) < r * r
}

/// A pixel nearer to the centre than `r` is nearer than `r` along each axis.
pub proof fn lemma_disc_in_box(center: (int, int), r: int, x: int, y: int)
    requires
        0 <= r,
        in_disc(center, r, x, y),
    ensures
        center.0 - r < x < center.0 + r,
        center.1 - r < y < center.1 + r,
{
    let dx = x - center.0;
    let dy = y - center.1;
    assert(dx * dx >= 0 && dy * dy >= 0) by (nonlinear_arith);
    assert(-r < dx < r) by (nonlinear_arith)
        requires
            dx * dx < r * r,
            0 <= r,
    ;
    assert(-r < dy < r) by (nonlinear_arith)
        requires
            dy * dy < r * r,
            0 <= r,
    ;
}

impl<'fb> View for Screen<'fb> {
    type V = Seq<u8>;

    /// The bytes of the framebuffer, row by row.
    open spec fn view(&self) -> Seq<u8> {
        self.framebuffer@
    }
}

impl<'fb> Screen<'fb> {
    /// The pixel depth is 4 and the buffer holds exactly the grid.
    pub open spec fn wf(&self) -> bool {
        &&& self.depth == 4
        &&& self@.len() == self.width * self.height * 4
    }

    /// Whether `(x, y)` is a pixel of the screen.
    pub open spec fn in_bounds(&self, x: int, y: int) -> bool {
        0 <= x < self.width && 0 <= y < self.height
    }

    /// The four bytes of pixel `(x, y)`.
    pub open spec fn pixel(&self, x: int, y: int) -> Seq<u8> {
        pixel_at(self@, self.width as int, x, y)
    }

    /// `self` is a well-formed screen with the dimensions of `before`.
    pub open spec fn redraws(&self, before: &Screen) -> bool {
        &&& self.wf()
        &&& self.width == before.width
        &&& self.height == before.height
        &&& self.depth == before.depth
    }

    /// Whether the box `r` covers no pixel of the screen: it is empty, or it
    /// lies wholly to one side of the screen.
    pub open spec fn misses(&self, r: Rect) -> bool {
        ||| r.w <= 0
        ||| r.h <= 0
        ||| r.right() <= 0
        ||| r.bottom() <= 0
        ||| r.x >= self.width
        ||| r.y >= self.height
    }

    /// Whether the box `r` has no outline on the screen: its width or height
    /// is negative, or it lies wholly off the screen with room between them,
    /// so that not even an edge of it lies on a border of the screen.
    pub open spec fn beyond(&self, r: Rect) -> bool {
        ||| r.w < 0
        ||| r.h < 0
        ||| r.right() < 0
        ||| r.bottom() < 0
        ||| r.x > self.width
        ||| r.y > self.height
    }

    /// Whether `rect_lines` paints `(x, y)` for the box `r`: the pixel lies
    /// on one of the four edges that are drawn.
    ///
    /// The left edge lies in the column `r.x` and the right edge in the
    /// column `r.right()`; they span the rows of the box that are on the
    /// screen. The top edge lies in the row `r.y` and the bottom edge in the
    /// row `r.bottom()`; they span the columns of the box that are on the
    /// screen. Each edge is drawn or skipped by itself. It is drawn when its
    /// column or row is on the screen or on a border of it, from 0 to the
    /// width or the height; on the far border it is drawn in the last column
    /// or row. It is skipped when it lies further out, where it would have
    /// to be moved to come onto the screen.
    ///
    /// A box whose width or height is negative has no outline.
    pub open spec fn on_outline(&self, r: Rect, x: int, y: int) -> bool {
        let w = self.width as int;
        let h = self.height as int;
        let rows = clamp(r.y as int, h) <= y < clamp(r.bottom(), h);
        let columns = clamp(r.x as int, w) <= x < clamp(r.right(), w);
        &&& r.w >= 0
        &&& r.h >= 0
        &&& {
            ||| 0 <= r.x <= w && x == clamp(r.x as int, w - 1) && rows
            ||| 0 <= r.right() <= w && x == clamp(r.right(), w - 1) && rows
            ||| 0 <= r.y <= h && y == clamp(r.y as int, h - 1) && columns
            ||| 0 <= r.bottom() <= h && y == clamp(r.bottom(), h - 1) && columns
        }
    }

    /// Wraps a framebuffer of `width * height` pixels of `depth` bytes each.
    pub fn wrap(framebuffer: &'fb mut [u8], width: usize, height: usize, depth: usize) -> (s: Self)
        requires
            depth == 4,
            old(framebuffer)@.len() == width * height * depth,
        ensures
            s.wf(),
            s.width == width,
            s.height == height,
            s@ == old(framebuffer)@,
            final(s.framebuffer)@ == final(framebuffer)@,
    {
        Self { framebuffer, width, height, depth }
    }

    /// Wraps a framebuffer after checking it: the result is `None` exactly
    /// when `depth` is not 4 or the buffer is not `width * height * 4` bytes
    /// long, and then the buffer is left as it was.
    pub fn try_wrap(framebuffer: &'fb mut [u8], width: usize, height: usize, depth: usize) -> (s:
        Option<Self>)
        ensures
            s is Some <==> depth == 4 && old(framebuffer)@.len() == width * height * 4,
            s matches Some(scr) ==> {
                &&& scr.wf()
                &&& scr.width == width
                &&& scr.height == height
                &&& scr@ == old(framebuffer)@
                &&& final(scr.framebuffer)@ == final(framebuffer)@
            },
            s is None ==> final(framebuffer)@ == old(framebuffer)@,
    {
        let given: usize = framebuffer.len();
        let fits: bool = depth == 4 && match width.checked_mul(height) {
            Some(area) => match area.checked_mul(4) {
                Some(len) => len == given,
                None => false,
            },
            None => false,
        };
        if fits {
            Some(Self { framebuffer, width, height, depth })
        } else {
            None
        }
    }

    /// Width and height, in pixels.
    pub fn size(&self) -> (s: (usize, usize))
        ensures
            s == (self.width, self.height),
    {
        (self.width, self.height)
    }

    /// Reads one pixel.
    pub fn get_pixel(&self, x: usize, y: usize) -> (c: Color)
        requires
            self.wf(),
            x < self.width,
            y < self.height,
        ensures
            c@ == self.pixel(x as int, y as int),
    {
        proof {
            lemma_offset_in_buffer(self.width as int, self.height as int, x as int, y as int);
        }
        let len: usize = self.framebuffer.len();
        assert((y * self.width + x) * 4 + 4 <= len);
        let at: usize = (y * self.width + x) * 4;
        let c: Color = [
            self.framebuffer[at],
            self.framebuffer[at + 1],
            self.framebuffer[at + 2],
            self.framebuffer[at + 3],
        ];
        assert(c@ =~= self.pixel(x as int, y as int));
        c
    }

    /// Writes one pixel that is known to be on the screen.
    pub(crate) fn set_pixel(&mut self, x: usize, y: usize, col: Color)
        requires
            old(self).wf(),
            x < old(self).width,
            y < old(self).height,
        ensures
            final(self).redraws(old(self)),
            final(final(self).framebuffer)@ == final(old(self).framebuffer)@,
            final(self).pixel(x as int, y as int) == col@,
            forall|px: int, py: int|
                old(self).in_bounds(px, py) && (px != x || py != y)
                    ==> #[trigger] final(self).pixel(px, py) == old(self).pixel(px, py),
    {
        proof {
            lemma_offset_in_buffer(self.width as int, self.height as int, x as int, y as int);
        }
        let len: usize = self.framebuffer.len();
        assert((y * self.width + x) * 4 + 4 <= len);
        let at: usize = (y * self.width + x) * 4;
        self.framebuffer[at] = col[0];
        self.framebuffer[at + 1] = col[1];
        self.framebuffer[at + 2] = col[2];
        self.framebuffer[at + 3] = col[3];
        proof {
            let w = self.width as int;
            assert(self.pixel(x as int, y as int) =~= col@);
            assert forall|px: int, py: int|
                old(self).in_bounds(px, py) && (px != x || py != y) implies #[trigger] self.pixel(
                px,
                py,
            ) == old(self).pixel(px, py) by {
                lemma_offset_in_buffer(w, self.height as int, px, py);
                lemma_offsets_apart(w, x as int, y as int, px, py);
                assert(self.pixel(px, py) =~= old(self).pixel(px, py));
            }
        }
    }

    /// Writes one pixel if it is on the screen; does nothing if it is not.
    pub fn draw_at(&mut self, col: Color, x: usize, y: usize)
        requires
            old(self).wf(),
        ensures
            final(self).redraws(old(self)),
            final(final(self).framebuffer)@ == final(old(self).framebuffer)@,
            !old(self).in_bounds(x as int, y as int) ==> final(self)@ == old(self)@,
            forall|px: int, py: int|
                old(self).in_bounds(px, py) ==> #[trigger] final(self).pixel(px, py) == (if px == x
                    && py == y {
                    col@
                } else {
                    old(self).pixel(px, py)
                }),
    {
        if self.width <= x || self.height <= y {
            return ;
        }
        self.set_pixel(x, y, col);
    }

    /// Paints the columns `x0 .. x1` of the rows `y0 .. y1`.
    fn fill_box(&mut self, x0: usize, x1: usize, y0: usize, y1: usize, col: Color)
        requires
            old(self).wf(),
            x1 <= old(self).width,
            y1 <= old(self).height,
        ensures
            final(self).redraws(old(self)),
            final(final(self).framebuffer)@ == final(old(self).framebuffer)@,
            forall|px: int, py: int|
                old(self).in_bounds(px, py) ==> #[trigger] final(self).pixel(px, py) == (if x0
                    <= px < x1 && y0 <= py < y1 {
                    col@
                } else {
                    old(self).pixel(px, py)
                }),
    {
        let mut y: usize = y0;
        while y < y1
            invariant
                y0 <= y,
                y <= y1 || y == y0,
                y1 <= self.height,
                x1 <= self.width,
                self.redraws(old(self)),
                final(self.framebuffer)@ == final(old(self).framebuffer)@,
                forall|px: int, py: int|
                    old(self).in_bounds(px, py) ==> #[trigger] self.pixel(px, py) == (if x0 <= px
                        < x1 && y0 <= py < y {
                        col@
                    } else {
                        old(self).pixel(px, py)
                    }),
            decreases y1 - y,
        {
            let mut x: usize = x0;
            while x < x1
                invariant
                    y0 <= y < y1,
                    x0 <= x,
                    x <= x1 || x == x0,
                    y1 <= self.height,
                    x1 <= self.width,
                    self.redraws(old(self)),
                    final(self.framebuffer)@ == final(old(self).framebuffer)@,
                    forall|px: int, py: int|
                        old(self).in_bounds(px, py) ==> #[trigger] self.pixel(px, py) == (if x0
                            <= px < x1 && y0 <= py < y || py == y && x0 <= px < x {
                            col@
                        } else {
                            old(self).pixel(px, py)
                        }),
                decreases x1 - x,
            {
                self.set_pixel(x, y, col);
                x = x + 1;
            }
            y = y + 1;
        }
    }

    /// Paints every pixel.
    pub fn clear(&mut self, col: Color)
        requires
            old(self).wf(),
        ensures
            final(self).redraws(old(self)),
            final(final(self).framebuffer)@ == final(old(self).framebuffer)@,
            forall|px: int, py: int|
                old(self).in_bounds(px, py) ==> #[trigger] final(self).pixel(px, py) == col@,
    {
        self.fill_box(0, self.width, 0, self.height, col);
    }

    /// Moves a coordinate onto the screen: into `0 ..= limit`.
    pub(crate) fn clamp_coord(v: i64, limit: usize) -> (c: usize)
        ensures
            c == clamp(v as int, limit as int),
    {
        if v <= 0 {
            0
        } else if v as u64 >= limit as u64 {
            limit
        } else {
            v as usize
        }
    }

    /// Fills the part of the box `r` that is on the screen. Nothing else
    /// changes; a box that misses the screen, or covers nothing, changes
    /// nothing.
    pub fn rect(&mut self, r: Rect, col: Color)
        requires
            old(self).wf(),
        ensures
            final(self).redraws(old(self)),
            final(final(self).framebuffer)@ == final(old(self).framebuffer)@,
            forall|px: int, py: int|
                old(self).in_bounds(px, py) ==> #[trigger] final(self).pixel(px, py) == (if r.covers(
                    px,
                    py,
                ) {
                    col@
                } else {
                    old(self).pixel(px, py)
                }),
            old(self).misses(r) ==> final(self)@ == old(self)@,
    {
        let x0: usize = Self::clamp_coord(r.x as i64, self.width);
        let x1: usize = Self::clamp_coord(r.x as i64 + r.w as i64, self.width);
        let y0: usize = Self::clamp_coord(r.y as i64, self.height);
        let y1: usize = Self::clamp_coord(r.y as i64 + r.h as i64, self.height);
        if x0 >= x1 || y0 >= y1 {
            return ;
        }
        self.fill_box(x0, x1, y0, y1, col);
    }

    /// Draws the outline of the box `r`, one pixel wide: the pixels that
    /// [`Screen::on_outline`] selects. Nothing else changes; a box that lies
    /// wholly off the screen changes nothing.
    pub fn rect_lines(&mut self, r: Rect, col: Color)
        requires
            old(self).wf(),
        ensures
            final(self).redraws(old(self)),
            final(final(self).framebuffer)@ == final(old(self).framebuffer)@,
            forall|px: int, py: int|
                old(self).in_bounds(px, py) ==> #[trigger] final(self).pixel(px, py) == (if old(
                    self,
                ).on_outline(r, px, py) {
                    col@
                } else {
                    old(self).pixel(px, py)
                }),
            old(self).beyond(r) ==> final(self)@ == old(self)@,
    {
        if self.width == 0 || self.height == 0 || r.w < 0 || r.h < 0 {
            return ;
        }
        let right: i64 = r.x as i64 + r.w as i64;
        let bottom: i64 = r.y as i64 + r.h as i64;
        if right < 0 || bottom < 0 || (r.x > 0 && r.x as u64 > self.width as u64) || (r.y > 0
            && r.y as u64 > self.height as u64) {
            return ;
        }
        let x0: usize = Self::clamp_coord(r.x as i64, self.width);
        let x1: usize = Self::clamp_coord(right, self.width);
        let y0: usize = Self::clamp_coord(r.y as i64, self.height);
        let y1: usize = Self::clamp_coord(bottom, self.height);
        let last_col: usize = self.width - 1;
        let last_row: usize = self.height - 1;
        if 0 <= r.x && r.x as u64 <= self.width as u64 {
            let c: usize = if x0 < last_col { x0 } else { last_col };
            self.fill_box(c, c + 1, y0, y1, col);
        }
        if 0 <= right && right as u64 <= self.width as u64 {
            let c: usize = if x1 < last_col { x1 } else { last_col };
            self.fill_box(c, c + 1, y0, y1, col);
        }
        if 0 <= r.y && r.y as u64 <= self.height as u64 {
            let w: usize = if y0 < last_row { y0 } else { last_row };
            self.fill_box(x0, x1, w, w + 1, col);
        }
        if 0 <= bottom && bottom as u64 <= self.height as u64 {
            let w: usize = if y1 < last_row { y1 } else { last_row };
            self.fill_box(x0, x1, w, w + 1, col);
        }
    }

    /// Decides [`in_disc`] for a pixel of the screen.
    fn within(px: usize, py: usize, cx: usize, cy: usize, r: u64) -> (b: bool)
        ensures
            b == in_disc((cx as int, cy as int), r as int, px as int, py as int),
    {
        let dx: u64 = if px >= cx { (px - cx) as u64 } else { (cx - px) as u64 };
        let dy: u64 = if py >= cy { (py - cy) as u64 } else { (cy - py) as u64 };
        proof {
            let sx = px as int - cx as int;
            let sy = py as int - cy as int;
            assert(sx * sx == dx * dx && sy * sy == dy * dy) by (nonlinear_arith)
                requires
                    dx == sx || dx == -sx,
                    dy == sy || dy == -sy,
            ;
            assert(dx * dx >= 0 && dy * dy >= 0) by (nonlinear_arith);
            if dx >= r {
                assert(dx * dx >= r * r) by (nonlinear_arith)
                    requires
                        dx >= r,
                        r >= 0,
                ;
            }
            if dy >= r {
                assert(dy * dy >= r * r) by (nonlinear_arith)
                    requires
                        dy >= r,
                        r >= 0,
                ;
            }
            if dx < r && dy < r {
                assert(dx * dx <= r * r && dy * dy <= r * r && r * r <= u64::MAX * u64::MAX)
                    by (nonlinear_arith)
                    requires
                        0 <= dx < r,
                        0 <= dy < r,
                        r <= u64::MAX,
                ;
            }
        }
        if dx >= r || dy >= r {
            return false;
        }
        let r2: u128 = (r as u128) * (r as u128);
        let dx2: u128 = (dx as u128) * (dx as u128);
        let dy2: u128 = (dy as u128) * (dy as u128);
        dx2 < r2 - dy2
    }

    /// Fills the disc of the pixels that lie nearer to `center` than `r`, as
    /// far as it is on the screen. A circle whose centre is off the screen is
    /// not drawn at all.
    pub fn filled_circle(&mut self, center: (i32, i32), r: u64, col: Color)
        requires
            old(self).wf(),
        ensures
            final(self).redraws(old(self)),
            final(final(self).framebuffer)@ == final(old(self).framebuffer)@,
            forall|px: int, py: int|
                old(self).in_bounds(px, py) ==> #[trigger] final(self).pixel(px, py) == (if old(
                    self,
                ).in_bounds(center.0 as int, center.1 as int) && in_disc(
                    (center.0 as int, center.1 as int),
                    r as int,
                    px,
                    py,
                ) {
                    col@
                } else {
                    old(self).pixel(px, py)
                }),
            !old(self).in_bounds(center.0 as int, center.1 as int) ==> final(self)@ == old(self)@,
    {
        if center.0 < 0 || center.1 < 0 {
            return ;
        }
        let cx: usize = center.0 as usize;
        let cy: usize = center.1 as usize;
        if cx >= self.width || cy >= self.height {
            return ;
        }
        let x0: usize = if r >= cx as u64 { 0 } else { cx - r as usize };
        let x1: usize = if r >= (self.width - cx) as u64 { self.width } else { cx + r as usize };
        let y0: usize = if r >= cy as u64 { 0 } else { cy - r as usize };
        let y1: usize = if r >= (self.height - cy) as u64 { self.height } else { cy + r as usize };
        let ghost c = (cx as int, cy as int);
        let mut y: usize = y0;
        while y < y1
            invariant
                y0 <= y <= y1 <= self.height,
                x0 <= x1 <= self.width,
                self.redraws(old(self)),
                final(self.framebuffer)@ == final(old(self).framebuffer)@,
                c == (cx as int, cy as int),
                forall|px: int, py: int|
                    old(self).in_bounds(px, py) ==> #[trigger] self.pixel(px, py) == (if in_disc(
                        c,
                        r as int,
                        px,
                        py,
                    ) && x0 <= px < x1 && y0 <= py < y {
                        col@
                    } else {
                        old(self).pixel(px, py)
                    }),
            decreases y1 - y,
        {
            let mut x: usize = x0;
            while x < x1
                invariant
                    y0 <= y < y1 <= self.height,
                    x0 <= x <= x1 <= self.width,
                    self.redraws(old(self)),
                    final(self.framebuffer)@ == final(old(self).framebuffer)@,
                    c == (cx as int, cy as int),
                    forall|px: int, py: int|
                        old(self).in_bounds(px, py) ==> #[trigger] self.pixel(px, py) == (if in_disc(
                            c,
                            r as int,
                            px,
                            py,
                        ) && (x0 <= px < x1 && y0 <= py < y || py == y && x0 <= px < x) {
                            col@
                        } else {
                            old(self).pixel(px, py)
                        }),
                decreases x1 - x,
            {
                if Self::within(x, y, cx, cy, r) {
                    self.set_pixel(x, y, col);
                }
                x = x + 1;
            }
            y = y + 1;
        }
        proof {
            assert forall|px: int, py: int|
                old(self).in_bounds(px, py) && in_disc(c, r as int, px, py) implies x0 <= px < x1
                && y0 <= py < y1 by {
                lemma_disc_in_box(c, r as int, px, py);
            }
        }
    }
}

} // verus!
