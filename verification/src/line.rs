//! Line rasterisation.
//!
//! A segment is drawn one pixel per step along its longer axis. The pixels
//! are named here by a closed formula, and the error-accumulating loop that
//! draws them is proved to paint exactly those.

use vstd::prelude::*;
use crate::grid::{lemma_pixels_fix_bytes, pixel_at};
use crate::objects::{Color, Vec2};
use crate::screen::Screen;

verus! {

/// Whether a pixel that lies `nx` columns and `ny` rows from the start of a
/// segment, counted towards its end, is the one nearest to the segment. The
/// segment spans `dx` columns and `dy` rows.
///
/// `dx * ny - dy * nx` is the distance between the pixel and the segment,
/// measured in pixels along the shorter axis, times the length of the longer
/// axis. The pixel is nearest when that distance is at most one half; of two
/// pixels at exactly one half, the one further along the shorter axis is
/// chosen.
pub open spec fn nearest(dx: int, dy: int, nx: int, ny: int) -> bool {
    let d = dx * ny - dy * nx;
    if dx >= dy {
        -dx < 2 * d <= dx
    } else {
        -dy <= 2 * d < dy
    }
}

/// Whether `line` paints the pixel `(x, y)` for the segment from `start` to
/// `end`: it is the nearest pixel of its column, where the segment is wider
/// than tall, or of its row, where it is taller than wide. The start point
/// is painted and the end point is not; a segment of one point has no pixel.
pub open spec fn on_line(start: Vec2, end: Vec2, x: int, y: int) -> bool {
    let dx = if start.x < end.x { end.x - start.x } else { start.x - end.x };
    let dy = if start.y < end.y { end.y - start.y } else { start.y - end.y };
    let nx = if start.x < end.x { x - start.x } else { start.x - x };
    let ny = if start.y < end.y { y - start.y } else { start.y - y };
    &&& nearest(dx, dy, nx, ny)
    &&& if dx >= dy { 0 <= nx < dx } else { 0 <= ny < dy }
}

/// The lesser of two coordinates.
pub open spec fn low(a: int, b: int) -> int {
    if a < b {
        a
    } else {
        b
    }
}

/// The greater of two coordinates.
pub open spec fn high(a: int, b: int) -> int {
    if a < b {
        b
    } else {
        a
    }
}

/// Every pixel of a segment lies in the box that its two ends span.
pub proof fn lemma_line_in_box(start: Vec2, end: Vec2, x: int, y: int)
    requires
        on_line(start, end, x, y),
    ensures
        low(start.x as int, end.x as int) <= x <= high(start.x as int, end.x as int),
        low(start.y as int, end.y as int) <= y <= high(start.y as int, end.y as int),
{
    let dx = if start.x < end.x { end.x - start.x } else { start.x - end.x };
    let dy = if start.y < end.y { end.y - start.y } else { start.y - end.y };
    let nx = if start.x < end.x { x - start.x } else { start.x - x };
    let ny = if start.y < end.y { y - start.y } else { start.y - y };
    if dx >= dy {
        assert(0 <= ny <= dy) by (nonlinear_arith)
            requires
                0 <= nx < dx,
                0 <= dy <= dx,
                -dx < 2 * (dx * ny - dy * nx) <= dx,
        ;
    } else {
        assert(0 <= nx <= dx) by (nonlinear_arith)
            requires
                0 <= ny < dy,
                0 <= dx < dy,
                -dy <= 2 * (dx * ny - dy * nx) < dy,
        ;
    }
}

/// Along the longer axis there is one nearest pixel per step.
proof fn lemma_nearest_unique(dx: int, dy: int, nx: int, ny: int, mx: int, my: int)
    requires
        0 <= dx,
        0 <= dy,
        dx > 0 || dy > 0,
        nearest(dx, dy, nx, ny),
        nearest(dx, dy, mx, my),
        if dx >= dy { nx == mx } else { ny == my },
    ensures
        nx == mx,
        ny == my,
{
    if dx >= dy {
        assert(ny == my) by (nonlinear_arith)
            requires
                dx > 0,
                -dx < 2 * (dx * ny - dy * nx) <= dx,
                -dx < 2 * (dx * my - dy * nx) <= dx,
        ;
    } else {
        assert(nx == mx) by (nonlinear_arith)
            requires
                dy > 0,
                -dy <= 2 * (dx * ny - dy * nx) < dy,
                -dy <= 2 * (dx * ny - dy * mx) < dy,
        ;
    }
}

/// One turn of the drawing loop, in step counts. From a nearest pixel short
/// of the end, the loop advances along the longer axis, stays within the
/// span of the segment, and reaches a nearest pixel again.
proof fn lemma_step(dx: int, dy: int, nx: int, ny: int)
    requires
        0 <= nx <= dx,
        0 <= ny <= dy,
        nx != dx || ny != dy,
        nearest(dx, dy, nx, ny),
    ensures
        ({
            let d = dx * ny - dy * nx;
            let err = d + dx - dy;
            let step_x = -dy <= 2 * err;
            let step_y = 2 * err <= dx;
            let mx = if step_x { nx + 1 } else { nx };
            let my = if step_y { ny + 1 } else { ny };
            &&& mx <= dx
            &&& my <= dy
            &&& nearest(dx, dy, mx, my)
            &&& if dx >= dy { step_x && nx < dx } else { step_y && ny < dy }
            &&& dx * my - dy * mx == d + (if step_x { -dy } else { 0 }) + (if step_y { dx } else { 0 })
        }),
{
    let d = dx * ny - dy * nx;
    assert(dx * (ny + 1) - dy * (nx + 1) == d + dx - dy && dx * ny - dy * (nx + 1) == d - dy && dx
        * (ny + 1) - dy * nx == d + dx) by (nonlinear_arith)
        requires
            d == dx * ny - dy * nx,
    ;
    if dx >= dy {
        if nx == dx {
            assert(false) by (nonlinear_arith)
                requires
                    dx > 0,
                    0 <= ny < dy,
                    -dx < 2 * (dx * ny - dy * dx),
            ;
        }
        if ny == dy {
            assert(d >= dy) by (nonlinear_arith)
                requires
                    d == dx * dy - dy * nx,
                    nx < dx,
                    0 <= dy,
            ;
        }
    } else {
        if ny == dy {
            assert(false) by (nonlinear_arith)
                requires
                    dy > 0,
                    0 <= nx < dx,
                    2 * (dx * dy - dy * nx) < dy,
            ;
        }
        if nx == dx {
            assert(d <= -dx) by (nonlinear_arith)
                requires
                    d == dx * ny - dy * dx,
                    ny < dy,
                    0 <= dx,
            ;
        }
    }
}

impl<'fb> Screen<'fb> {
    /// Whether the segment from `start` to `end` lies wholly to one side of
    /// the screen.
    pub open spec fn beside(&self, start: Vec2, end: Vec2) -> bool {
        ||| high(start.x as int, end.x as int) < 0
        ||| high(start.y as int, end.y as int) < 0
        ||| low(start.x as int, end.x as int) >= self.width
        ||| low(start.y as int, end.y as int) >= self.height
    }

    /// Draws the segment from `start` towards `end`: the pixels that
    /// [`on_line`] selects, as far as they are on the screen. Nothing else
    /// changes. The segment is not bent to fit the screen: what lies outside
    /// is skipped, and a segment wholly to one side of the screen changes
    /// nothing.
    pub fn line(&mut self, start: Vec2, end: Vec2, col: Color)
        requires
            old(self).wf(),
        ensures
            final(self).redraws(old(self)),
            final(final(self).framebuffer)@ == final(old(self).framebuffer)@,
            forall|px: int, py: int|
                old(self).in_bounds(px, py) ==> #[trigger] final(self).pixel(px, py) == (if on_line(
                    start,
                    end,
                    px,
                    py,
                ) {
                    col@
                } else {
                    old(self).pixel(px, py)
                }),
            old(self).beside(start, end) ==> final(self)@ == old(self)@,
    {
        let x0: i64 = start.x as i64;
        let y0: i64 = start.y as i64;
        let x1: i64 = end.x as i64;
        let y1: i64 = end.y as i64;
        if x0 == x1 && y0 == y1 {
            return ;
        }
        let dx: i64 = if x0 < x1 { x1 - x0 } else { x0 - x1 };
        let sx: i64 = if x0 < x1 { 1 } else { -1 };
        let dy: i64 = if y0 < y1 { y0 - y1 } else { y1 - y0 };
        let sy: i64 = if y0 < y1 { 1 } else { -1 };
        let mut x: i64 = x0;
        let mut y: i64 = y0;
        let mut err: i64 = dx + dy;
        let ghost gx: int = dx as int;
        let ghost gy: int = -(dy as int);
        let ghost mut nx: int = 0;
        let ghost mut ny: int = 0;
        assert(gx * 0 - gy * 0 == 0) by (nonlinear_arith);
        while x != x1 || y != y1
            invariant
                self.redraws(old(self)),
                final(self.framebuffer)@ == final(old(self).framebuffer)@,
                x0 == start.x && y0 == start.y && x1 == end.x && y1 == end.y,
                gx == (if x0 < x1 { x1 - x0 } else { x0 - x1 }),
                gy == (if y0 < y1 { y1 - y0 } else { y0 - y1 }),
                gx == dx && gy == -dy,
                sx == (if x0 < x1 { 1i64 } else { -1i64 }),
                sy == (if y0 < y1 { 1i64 } else { -1i64 }),
                0 <= nx <= gx,
                0 <= ny <= gy,
                x == (if x0 < x1 { x0 + nx } else { x0 - nx }),
                y == (if y0 < y1 { y0 + ny } else { y0 - ny }),
                err == gx * ny - gy * nx + gx - gy,
                nearest(gx, gy, nx, ny),
                forall|px: int, py: int|
                    old(self).in_bounds(px, py) ==> #[trigger] self.pixel(px, py) == (if on_line(
                        start,
                        end,
                        px,
                        py,
                    ) && (if gx >= gy {
                        (if x0 < x1 { px - x0 } else { x0 - px }) < nx
                    } else {
                        (if y0 < y1 { py - y0 } else { y0 - py }) < ny
                    }) {
                        col@
                    } else {
                        old(self).pixel(px, py)
                    }),
            decreases (gx - nx) + (gy - ny),
        {
            proof {
                lemma_step(gx, gy, nx, ny);
                assert forall|px: int, py: int|
                    on_line(start, end, px, py) && (if gx >= gy {
                        (if x0 < x1 { px - x0 } else { x0 - px }) == nx
                    } else {
                        (if y0 < y1 { py - y0 } else { y0 - py }) == ny
                    }) implies px == x && py == y by {
                    let mx = if x0 < x1 { px - x0 } else { x0 - px };
                    let my = if y0 < y1 { py - y0 } else { y0 - py };
                    lemma_nearest_unique(gx, gy, nx, ny, mx, my);
                }
                assert(on_line(start, end, x as int, y as int));
            }
            if 0 <= x && 0 <= y && (x as u64) < self.width as u64 && (y as u64) < self.height as u64 {
                self.set_pixel(x as usize, y as usize, col);
            }
            let e2: i64 = 2 * err;
            if dy <= e2 {
                err = err + dy;
                x = x + sx;
                proof {
                    nx = nx + 1;
                }
            }
            if e2 <= dx {
                err = err + dx;
                y = y + sy;
                proof {
                    ny = ny + 1;
                }
            }
        }
        proof {
            if old(self).beside(start, end) {
                assert forall|px: int, py: int| old(self).in_bounds(px, py) implies !on_line(
                    start,
                    end,
                    px,
                    py,
                ) by {
                    if on_line(start, end, px, py) {
                        lemma_line_in_box(start, end, px, py);
                    }
                }
                assert forall|px: int, py: int|
                    0 <= px < self.width && 0 <= py < self.height implies #[trigger] pixel_at(
                    self@,
                    self.width as int,
                    px,
                    py,
                ) == pixel_at(old(self)@, self.width as int, px, py) by {
                    assert(self.pixel(px, py) == old(self).pixel(px, py));
                }
                lemma_pixels_fix_bytes(
                    self@,
                    old(self)@,
                    self.width as int,
                    self.height as int,
                );
            }
        }
    }
}

} // verus!
