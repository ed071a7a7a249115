//! Copying a part of a texture onto the screen, with alpha compositing.

use vstd::prelude::*;
use crate::objects::{Color, Rect, Vec2};
use crate::screen::{clamp, Screen};
use crate::texture::Texture;

verus! {

/// What is left of a channel value `v` under a source of alpha `a`:
/// `v * (255 - a) / 255`, rounded to the nearest whole number.
pub open spec fn shade(v: int, a: int) -> int {
    (v * (255 - a) + 127) / 255
}

/// One channel of source over destination: the source value `s`, which is
/// premultiplied by the source alpha `a`, plus what is left of the
/// destination value `d`; a sum over 255 is 255.
pub open spec fn over(s: int, d: int, a: int) -> int {
    if s + shade(d, a) > 255 {
        255
    } else {
        s + shade(d, a)
    }
}

/// The pixel that results from compositing the pixel `src` over the pixel
/// `dst`. The colour channels of `src` are premultiplied by its alpha, so
/// for each of red, green and blue the result is
/// `src.rgb * src.a + dst.rgb * (1 - src.a)` with colours as stored, and the
/// alpha of the result is `src.a + dst.a * (1 - src.a)`.
pub open spec fn blend(src: Seq<u8>, dst: Seq<u8>) -> Seq<u8> {
    seq![
        over(src[0] as int, dst[0] as int, src[3] as int) as u8,
        over(src[1] as int, dst[1] as int, src[3] as int) as u8,
        over(src[2] as int, dst[2] as int, src[3] as int) as u8,
        over(src[3] as int, dst[3] as int, src[3] as int) as u8,
    ]
}

/// Under an opaque source nothing of a channel is left; under a transparent
/// one, all of it.
proof fn lemma_shade_ends(v: int)
    requires
        0 <= v <= 255,
    ensures
        shade(v, 255) == 0,
        shade(v, 0) == v,
{
    assert(v * (255 - 255) == 0) by (nonlinear_arith);
    assert(v * (255 - 0) == 255 * v) by (nonlinear_arith);
}

/// A fully opaque source pixel replaces the destination pixel, whatever
/// was there: colour and alpha of the result are those of the source.
pub proof fn lemma_opaque_replaces(src: Seq<u8>, dst: Seq<u8>)
    requires
        src.len() == 4,
        dst.len() == 4,
        src[3] == 255,
    ensures
        blend(src, dst) == src,
        blend(src, dst)[3] == 255,
{
    lemma_shade_ends(dst[0] as int);
    lemma_shade_ends(dst[1] as int);
    lemma_shade_ends(dst[2] as int);
    lemma_shade_ends(dst[3] as int);
    assert(blend(src, dst) =~= src);
}

/// A fully transparent source pixel leaves the destination pixel as it was.
pub proof fn lemma_transparent_keeps(src: Seq<u8>, dst: Seq<u8>)
    requires
        src.len() == 4,
        dst.len() == 4,
        forall|c: int| 0 <= c < 4 ==> src[c] == 0,
    ensures
        blend(src, dst) == dst,
{
    lemma_shade_ends(dst[0] as int);
    lemma_shade_ends(dst[1] as int);
    lemma_shade_ends(dst[2] as int);
    lemma_shade_ends(dst[3] as int);
    assert(blend(src, dst) =~= dst);
}

/// Computes [`over`].
fn over_channel(s: u8, d: u8, a: u8) -> (r: u8)
    ensures
        r == over(s as int, d as int, a as int),
{
    let rest: u32 = 255 - a as u32;
    assert(d * rest <= 255 * 255) by (nonlinear_arith)
        requires
            0 <= d <= 255,
            0 <= rest <= 255,
    ;
    let left: u32 = (d as u32 * rest + 127) / 255;
    let sum: u32 = s as u32 + left;
    if sum > 255 {
        255
    } else {
        sum as u8
    }
}

/// Computes [`blend`].
pub fn blend_pixel(src: Color, dst: Color) -> (out: Color)
    ensures
        out@ == blend(src@, dst@),
{
    let a: u8 = src[3];
    let out: Color = [
        over_channel(src[0], dst[0], a),
        over_channel(src[1], dst[1], a),
        over_channel(src[2], dst[2], a),
        over_channel(src[3], dst[3], a),
    ];
    assert(out@ =~= blend(src@, dst@));
    out
}

/// The box on the screen that a blit of `from` to `to` writes to.
pub open spec fn target(from: Rect, to: Vec2) -> Rect {
    Rect { x: to.x, y: to.y, w: from.w, h: from.h }
}

/// The pixel of `src` that a blit of `from` to `to` composites onto the
/// screen pixel `(x, y)`.
pub open spec fn source_pixel(src: &Texture, from: Rect, to: Vec2, x: int, y: int) -> Seq<u8> {
    src.pixel(from.x + (x - to.x), from.y + (y - to.y))
}

impl<'fb> Screen<'fb> {
    /// Composites the box `from` of the texture `src` onto the screen, with
    /// its top left corner at `to`. Each screen pixel under the box becomes
    /// the [`blend`] of its source pixel over what it held; the part of the
    /// box that is off the screen is dropped, and nothing else changes.
    ///
    /// `from` must be a box of the texture: one that starts at a pixel of
    /// the texture and has no part outside it.
    pub fn bitblt(&mut self, src: &Texture, from: Rect, to: Vec2)
        requires
            old(self).wf(),
            src.holds(from),
        ensures
            final(self).redraws(old(self)),
            final(final(self).framebuffer)@ == final(old(self).framebuffer)@,
            forall|px: int, py: int|
                old(self).in_bounds(px, py) ==> #[trigger] final(self).pixel(px, py) == (if target(
                    from,
                    to,
                ).covers(px, py) {
                    blend(source_pixel(src, from, to, px, py), old(self).pixel(px, py))
                } else {
                    old(self).pixel(px, py)
                }),
            forall|px: int, py: int|
                old(self).in_bounds(px, py) && target(from, to).covers(px, py) && source_pixel(
                    src,
                    from,
                    to,
                    px,
                    py,
                )[3] == 255 ==> #[trigger] final(self).pixel(px, py) == source_pixel(
                    src,
                    from,
                    to,
                    px,
                    py,
                ),
            old(self).misses(target(from, to)) ==> final(self)@ == old(self)@,
    {
        let (tw, th) = src.size();
        let x0: usize = Self::clamp_coord(to.x as i64, self.width);
        let x1: usize = Self::clamp_coord(to.x as i64 + from.w as i64, self.width);
        let y0: usize = Self::clamp_coord(to.y as i64, self.height);
        let y1: usize = Self::clamp_coord(to.y as i64 + from.h as i64, self.height);
        if x0 >= x1 || y0 >= y1 {
            return ;
        }
        let ghost box_ = target(from, to);
        let mut y: usize = y0;
        while y < y1
            invariant
                y0 <= y <= y1 <= self.height,
                x0 < x1 <= self.width,
                x0 == clamp(to.x as int, self.width as int),
                x1 == clamp(to.x + from.w, self.width as int),
                y0 == clamp(to.y as int, self.height as int),
                y1 == clamp(to.y + from.h, self.height as int),
                src.holds(from),
                box_ == target(from, to),
                self.redraws(old(self)),
                final(self.framebuffer)@ == final(old(self).framebuffer)@,
                forall|px: int, py: int|
                    old(self).in_bounds(px, py) ==> #[trigger] self.pixel(px, py) == (if box_.covers(
                        px,
                        py,
                    ) && py < y {
                        blend(source_pixel(src, from, to, px, py), old(self).pixel(px, py))
                    } else {
                        old(self).pixel(px, py)
                    }),
            decreases y1 - y,
        {
            let sy: usize = (from.y as i64 + (y as i64 - to.y as i64)) as usize;
            let mut x: usize = x0;
            while x < x1
                invariant
                    y0 <= y < y1 <= self.height,
                    x0 <= x <= x1 <= self.width,
                    x0 == clamp(to.x as int, self.width as int),
                    x1 == clamp(to.x + from.w, self.width as int),
                    y0 == clamp(to.y as int, self.height as int),
                    y1 == clamp(to.y + from.h, self.height as int),
                    sy == from.y + (y - to.y),
                    src.holds(from),
                    box_ == target(from, to),
                    self.redraws(old(self)),
                    final(self.framebuffer)@ == final(old(self).framebuffer)@,
                    forall|px: int, py: int|
                        old(self).in_bounds(px, py) ==> #[trigger] self.pixel(px, py) == (if box_.covers(
                            px,
                            py,
                        ) && (py < y || py == y && px < x) {
                            blend(source_pixel(src, from, to, px, py), old(self).pixel(px, py))
                        } else {
                            old(self).pixel(px, py)
                        }),
                decreases x1 - x,
            {
                let sx: usize = (from.x as i64 + (x as i64 - to.x as i64)) as usize;
                let above: Color = src.get_pixel(sx, sy);
                let under: Color = self.get_pixel(x, y);
                self.set_pixel(x, y, blend_pixel(above, under));
                x = x + 1;
            }
            y = y + 1;
        }
        proof {
            assert forall|px: int, py: int|
                old(self).in_bounds(px, py) && box_.covers(px, py) && source_pixel(
                    src,
                    from,
                    to,
                    px,
                    py,
                )[3] == 255 implies #[trigger] self.pixel(px, py) == source_pixel(
                src,
                from,
                to,
                px,
                py,
            ) by {
                crate::grid::lemma_offset_in_buffer(
                    tw as int,
                    th as int,
                    from.x + (px - to.x),
                    from.y + (py - to.y),
                );
                crate::grid::lemma_offset_in_buffer(
                    self.width as int,
                    self.height as int,
                    px,
                    py,
                );
                lemma_opaque_replaces(source_pixel(src, from, to, px, py), old(self).pixel(px, py));
            }
        }
    }
}

} // verus!
