//! Laying out text in a font whose glyphs are all one size.
//!
//! The layout says where each character goes. Drawing a character there is
//! a blit of its glyph.

use vstd::prelude::*;
use crate::objects::{Rect, Vec2};

verus! {

/// Width and height of a glyph, in pixels.
pub const CHAR_SIZE: i32 = 16;

/// The character that ends a line.
pub const NEWLINE: char = '\n';

/// A point in the layout: a column and a row.
pub type Spot = (int, int);

/// The box of the glyph of `c` in a font texture that holds the glyphs of
/// the printable ASCII characters in rows of sixteen, from the space on.
/// Other characters have no glyph.
pub open spec fn glyph_of(c: char) -> Option<Rect> {
    let code = c as u32 as int;
    if 32 <= code < 127 {
        Some(
            Rect {
                x: ((code - 32) % 16 * CHAR_SIZE) as i32,
                y: ((code - 32) / 16 * CHAR_SIZE) as i32,
                w: CHAR_SIZE,
                h: CHAR_SIZE,
            },
        )
    } else {
        None
    }
}

/// Computes [`glyph_of`].
pub fn ascii_glyph(c: char) -> (g: Option<Rect>)
    ensures
        g == glyph_of(c),
{
    let code: u32 = c as u32;
    if 32 <= code && code < 127 {
        let cell: i32 = (code - 32) as i32;
        Some(Rect::new(cell % 16 * CHAR_SIZE, cell / 16 * CHAR_SIZE, CHAR_SIZE, CHAR_SIZE))
    } else {
        None
    }
}

/// An edge of a text box, kept within the range of coordinates.
pub open spec fn limit(edge: int) -> int {
    if edge > i32::MAX {
        i32::MAX as int
    } else {
        edge
    }
}

/// The place of the character `i` of a line of text that starts at `pos`:
/// the characters stand side by side.
pub open spec fn line_spot(pos: Vec2, i: int) -> Spot {
    (pos.x + CHAR_SIZE * i, pos.y as int)
}

/// Where the character `c` goes in the box `r` when the pen stands at
/// `pen`: at the pen, or at the start of the next line if `c` ends the line
/// or there is no room for a glyph between the pen and the right edge.
pub open spec fn spot_for(r: Rect, pen: Spot, c: char) -> Spot {
    if c == NEWLINE || pen.0 + CHAR_SIZE > limit(r.right()) {
        (r.x as int, pen.1 + CHAR_SIZE)
    } else {
        pen
    }
}

/// Where the pen stands once `c` has been put at `spot`: one glyph further
/// to the right, or at `spot` if `c` ends the line and so has no glyph.
pub open spec fn pen_after(spot: Spot, c: char) -> Spot {
    if c == NEWLINE {
        spot
    } else {
        (spot.0 + CHAR_SIZE, spot.1)
    }
}

/// Where the pen stands in the box `r` before the character `n` of `text`:
/// at the box's corner before the first, and after each character where
/// that character leaves it.
pub open spec fn pen_at(r: Rect, text: Seq<char>, n: int) -> Spot
    decreases n,
{
    if n <= 0 {
        (r.x as int, r.y as int)
    } else {
        pen_after(spot_for(r, pen_at(r, text, n - 1), text[n - 1]), text[n - 1])
    }
}

/// The place of the character `i` of `text` in the box `r`.
pub open spec fn spot_at(r: Rect, text: Seq<char>, i: int) -> Spot {
    spot_for(r, pen_at(r, text, i), text[i])
}

/// Whether the character `i` of `text` has room in the box `r`: the line
/// that it goes on ends above the bottom edge.
pub open spec fn has_room(r: Rect, text: Seq<char>, i: int) -> bool {
    spot_at(r, text, i).1 + CHAR_SIZE <= limit(r.bottom())
}

/// The pen never stands left of the box or above it.
pub proof fn lemma_pen_in_box(r: Rect, text: Seq<char>, n: int)
    ensures
        pen_at(r, text, n).0 >= r.x,
        pen_at(r, text, n).1 >= r.y,
    decreases n,
{
    if n > 0 {
        lemma_pen_in_box(r, text, n - 1);
    }
}

/// The places of the first characters of a line of `count` characters that
/// starts at `pos`: of all of them, or of as many as have a column within
/// the range of coordinates.
pub fn line_spots(count: usize, pos: Vec2) -> (spots: Vec<Vec2>)
    ensures
        spots@.len() <= count,
        forall|i: int|
            0 <= i < spots@.len() ==> (spots@[i].x as int, spots@[i].y as int) == line_spot(
                pos,
                i,
            ),
        spots@.len() < count ==> line_spot(pos, spots@.len() as int).0 > i32::MAX,
{
    let mut spots: Vec<Vec2> = Vec::new();
    let mut x: i64 = pos.x as i64;
    let mut i: usize = 0;
    while i < count && x <= i32::MAX as i64
        invariant
            i <= count,
            spots@.len() == i,
            x == pos.x + CHAR_SIZE * i,
            forall|j: int|
                0 <= j < i ==> (spots@[j].x as int, spots@[j].y as int) == line_spot(pos, j),
        decreases count - i,
    {
        spots.push(Vec2::new(x as i32, pos.y));
        x = x + CHAR_SIZE as i64;
        i = i + 1;
    }
    spots
}

/// Lays `text` out in the box `r`, line by line. The result holds the
/// place of each character up to the first that has no room in the box, and
/// the index of that character; if all have room, it holds the place of
/// each character, and no index.
pub fn flow(text: &[char], r: Rect) -> (out: (Vec<Vec2>, Option<usize>))
    ensures
        out.1 matches Some(n) ==> n < text@.len() && out.0@.len() == n && !has_room(
            r,
            text@,
            n as int,
        ),
        out.1 is None ==> out.0@.len() == text@.len(),
        forall|i: int| 0 <= i < out.0@.len() ==> has_room(r, text@, i),
        forall|i: int|
            0 <= i < out.0@.len() ==> (out.0@[i].x as int, out.0@[i].y as int) == spot_at(
                r,
                text@,
                i,
            ),
{
    let right: i64 = r.x as i64 + r.w as i64;
    let bottom: i64 = r.y as i64 + r.h as i64;
    let right: i64 = if right > i32::MAX as i64 { i32::MAX as i64 } else { right };
    let bottom: i64 = if bottom > i32::MAX as i64 { i32::MAX as i64 } else { bottom };
    let size: i64 = CHAR_SIZE as i64;
    let mut spots: Vec<Vec2> = Vec::new();
    let mut x: i64 = r.x as i64;
    let mut y: i64 = r.y as i64;
    let mut i: usize = 0;
    while i < text.len()
        invariant
            i <= text@.len(),
            spots@.len() == i,
            size == CHAR_SIZE,
            right == limit(r.right()),
            bottom == limit(r.bottom()),
            (x as int, y as int) == pen_at(r, text@, i as int),
            r.x <= x <= i32::MAX + CHAR_SIZE,
            r.y <= y <= i32::MAX,
            forall|j: int| 0 <= j < i ==> has_room(r, text@, j),
            forall|j: int|
                0 <= j < i ==> (spots@[j].x as int, spots@[j].y as int) == spot_at(r, text@, j),
        decreases text@.len() - i,
    {
        let c: char = text[i];
        if c == NEWLINE || x + size > right {
            x = r.x as i64;
            y = y + size;
        }
        if y + size > bottom {
            return (spots, Some(i));
        }
        spots.push(Vec2::new(x as i32, y as i32));
        if c != NEWLINE {
            x = x + size;
        }
        i = i + 1;
    }
    (spots, None)
}

} // verus!
