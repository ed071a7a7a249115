//! Plain geometry values, in whole numbers. Where they are drawn the unit is
//! the pixel; the overlap test holds in whatever unit both boxes are in.

use vstd::prelude::*;

verus! {

/// Bytes per pixel of every buffer this crate touches.
pub const DEPTH: usize = 4;

/// One RGBA8 pixel: red, green, blue, alpha.
pub type Color = [u8; 4];

/// A point or an extent.
#[derive(Clone, Copy, Debug, PartialEq, Eq, Structural)]
pub struct Vec2 {
    pub x: i32,
    pub y: i32,
}

impl Vec2 {
    pub fn new(x: i32, y: i32) -> (v: Self)
        ensures
            v == (Vec2 { x, y }),
    {
        Self { x, y }
    }
}

/// An axis-aligned box with its origin at the top left corner. It covers the
/// columns `x .. x + w` and the rows `y .. y + h`; a box whose `w` or `h` is
/// negative covers nothing.
#[derive(Clone, Copy, Debug, PartialEq, Eq, Structural)]
pub struct Rect {
    pub x: i32,
    pub y: i32,
    pub w: i32,
    pub h: i32,
}

impl Rect {
    pub fn new(x: i32, y: i32, w: i32, h: i32) -> (r: Self)
        ensures
            r == (Rect { x, y, w, h }),
    {
        Self { x, y, w, h }
    }

    /// The column just past the right edge.
    pub open spec fn right(self) -> int {
        self.x + self.w
    }

    /// The row just past the bottom edge.
    pub open spec fn bottom(self) -> int {
        self.y + self.h
    }

    /// Whether the box covers the pixel `(px, py)`.
    pub open spec fn covers(self, px: int, py: int) -> bool {
        self.x <= px < self.right() && self.y <= py < self.bottom()
    }

    /// Closed-interval overlap: boxes that merely touch along an edge or at a
    /// corner overlap.
    pub open spec fn touches(self, other: Rect) -> bool {
        &&& self.x <= other.right()
        &&& other.x <= self.right()
        &&& self.y <= other.bottom()
        &&& other.y <= self.bottom()
    }

    /// Overlap does not depend on which box is asked.
    pub proof fn lemma_touches_symmetric(self, other: Rect)
        ensures
            self.touches(other) == other.touches(self),
    {
    }

    /// A box overlaps a box that begins in the column where it ends, if
    /// their rows meet: sharing an edge is overlapping. One column further
    /// apart they do not overlap.
    pub proof fn lemma_shared_edge_touches(self, other: Rect)
        requires
            0 <= self.w,
            0 <= other.w,
            self.y <= other.bottom(),
            other.y <= self.bottom(),
        ensures
            other.x == self.right() ==> self.touches(other),
            other.x > self.right() ==> !self.touches(other),
    {
    }

    pub fn pos(&self) -> (p: Vec2)
        ensures
            p == (Vec2 { x: self.x, y: self.y }),
    {
        Vec2::new(self.x, self.y)
    }

    pub fn size(&self) -> (s: Vec2)
        ensures
            s == (Vec2 { x: self.w, y: self.h }),
    {
        Vec2::new(self.w, self.h)
    }

    /// Decides [`Rect::touches`].
    pub fn overlaps(&self, other: &Rect) -> (b: bool)
        ensures
            b == self.touches(*other),
    {
        let ax: i64 = self.x as i64;
        let ay: i64 = self.y as i64;
        let bx: i64 = other.x as i64;
        let by: i64 = other.y as i64;
        ax <= bx + other.w as i64 && bx <= ax + self.w as i64 && ay <= by + other.h as i64 && by
            <= ay + self.h as i64
    }
}

/// A box that moves: the current box of a game actor, and its velocity per
/// tick.
#[derive(Clone, Copy, Debug, PartialEq, Eq, Structural)]
pub struct MovingRect {
    pub x: i32,
    pub y: i32,
    pub w: i32,
    pub h: i32,
    pub vel: Vec2,
}

impl MovingRect {
    pub fn new(x: i32, y: i32, w: i32, h: i32, vel: Vec2) -> (r: Self)
        ensures
            r == (MovingRect { x, y, w, h, vel }),
    {
        Self { x, y, w, h, vel }
    }

    /// The box, without the velocity.
    pub open spec fn rect(self) -> Rect {
        Rect { x: self.x, y: self.y, w: self.w, h: self.h }
    }

    pub fn as_rect(&self) -> (r: Rect)
        ensures
            r == self.rect(),
    {
        Rect::new(self.x, self.y, self.w, self.h)
    }
}

/// The square of the Euclidean distance between two points.
pub open spec fn dist_sq(a: (int, int), b: (int, int)) -> int {
    (a.0 - b.0) * (a.0 - b.0) + (a.1 - b.1) * (a.1 - b.1)
}

/// Computes [`dist_sq`] exactly. Comparing squares orders distances without
/// taking a root.
pub fn dist_squared(a: (i32, i32), b: (i32, i32)) -> (d: u128)
    ensures
        d == dist_sq((a.0 as int, a.1 as int), (b.0 as int, b.1 as int)),
{
    let dx: i64 = a.0 as i64 - b.0 as i64;
    let dy: i64 = a.1 as i64 - b.1 as i64;
    let ux: u128 = if dx < 0 { (-dx) as u128 } else { dx as u128 };
    let uy: u128 = if dy < 0 { (-dy) as u128 } else { dy as u128 };
    assert(ux * ux == dx * dx && uy * uy == dy * dy) by (nonlinear_arith)
        requires
            ux == dx || ux == -dx,
            uy == dy || uy == -dy,
    ;
    assert(ux * ux <= 0x1_0000_0000 * 0x1_0000_0000 && uy * uy <= 0x1_0000_0000 * 0x1_0000_0000)
        by (nonlinear_arith)
        requires
            0 <= ux <= 0x1_0000_0000,
            0 <= uy <= 0x1_0000_0000,
    ;
    ux * ux + uy * uy
}

} // verus!
