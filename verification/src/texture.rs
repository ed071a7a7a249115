//! A decoded image: RGBA8 with premultiplied alpha, read-only once made.

use vstd::prelude::*;
use crate::grid::{lemma_offset_in_buffer, pixel_at};
use crate::objects::{Color, Rect};

verus! {

/// An image of `width` by `height` pixels. Its buffer always holds exactly
/// `width * height * 4` bytes, and the length of a row fits in a `usize`.
pub struct Texture {
    width: usize,
    height: usize,
    bytes: Vec<u8>,
}

impl View for Texture {
    type V = Seq<u8>;

    /// The raw bytes, row by row.
    closed spec fn view(&self) -> Seq<u8> {
        self.bytes@
    }
}

impl Texture {
    #[verifier::type_invariant]
    spec fn sized(self) -> bool {
        &&& self.bytes@.len() == self.width * self.height * 4
        &&& self.width * 4 <= usize::MAX
    }

    pub closed spec fn spec_width(&self) -> usize {
        self.width
    }

    pub closed spec fn spec_height(&self) -> usize {
        self.height
    }

    /// The four bytes of pixel `(x, y)`.
    pub open spec fn pixel(&self, x: int, y: int) -> Seq<u8> {
        pixel_at(self@, self.width() as int, x, y)
    }

    /// Whether `r` is a box of pixels of this image: its corner is a pixel
    /// of the image, it has no negative extent, and no part of it lies
    /// outside. A box without area is held too, if its corner is a pixel; an
    /// image without pixels holds no box.
    pub open spec fn holds(&self, r: Rect) -> bool {
        &&& 0 <= r.x < self.width()
        &&& 0 <= r.y < self.height()
        &&& 0 <= r.w
        &&& 0 <= r.h
        &&& r.right() <= self.width()
        &&& r.bottom() <= self.height()
    }

    /// Takes a decoded image. The result is `None` exactly when `bytes` is not
    /// `width * height * 4` bytes long, or when the length of one row does not
    /// fit in a `usize`.
    pub fn new(width: usize, height: usize, bytes: Vec<u8>) -> (t: Option<Self>)
        ensures
            t is Some <==> bytes@.len() == width * height * 4 && width * 4 <= usize::MAX,
            t matches Some(tex) ==> tex.width() == width && tex.height() == height && tex@
                == bytes@,
    {
        assert(width * 4 * height == width * height * 4) by (nonlinear_arith);
        let given: usize = bytes.len();
        let fits: bool = match width.checked_mul(4) {
            Some(pitch) => match pitch.checked_mul(height) {
                Some(len) => len == given,
                None => false,
            },
            None => false,
        };
        if fits {
            Some(Texture { width, height, bytes })
        } else {
            None
        }
    }

    #[verifier::when_used_as_spec(spec_width)]
    pub fn width(&self) -> (w: usize)
        ensures
            w == self.width(),
    {
        self.width
    }

    #[verifier::when_used_as_spec(spec_height)]
    pub fn height(&self) -> (h: usize)
        ensures
            h == self.height(),
    {
        self.height
    }

    /// Width and height, in pixels. The buffer holds four bytes for each
    /// pixel.
    pub fn size(&self) -> (s: (usize, usize))
        ensures
            s == (self.width(), self.height()),
            self@.len() == s.0 * s.1 * 4,
    {
        proof {
            use_type_invariant(self);
        }
        (self.width, self.height)
    }

    /// Bytes per pixel.
    pub fn depth(&self) -> (d: usize)
        ensures
            d == 4,
    {
        4
    }

    /// Bytes per row.
    pub fn pitch(&self) -> (p: usize)
        ensures
            p == self.width() * 4,
    {
        proof {
            use_type_invariant(self);
        }
        self.width * 4
    }

    /// The raw bytes, row by row: `width * height * 4` of them.
    pub fn buffer(&self) -> (b: &[u8])
        ensures
            b@ == self@,
            b@.len() == self.width() * self.height() * 4,
    {
        proof {
            use_type_invariant(self);
        }
        self.bytes.as_slice()
    }

    /// Decides [`Texture::holds`].
    pub fn contains(&self, r: &Rect) -> (b: bool)
        ensures
            b == self.holds(*r),
    {
        r.x >= 0 && r.y >= 0 && r.w >= 0 && r.h >= 0 && (r.x as u64) < self.width as u64 && (r.y
            as u64) < self.height as u64 && (r.x as i64 + r.w as i64) as u64 <= self.width as u64
            && (r.y as i64 + r.h as i64) as u64 <= self.height as u64
    }

    /// Reads one pixel.
    pub fn get_pixel(&self, x: usize, y: usize) -> (c: Color)
        requires
            x < self.width(),
            y < self.height(),
        ensures
            c@ == self.pixel(x as int, y as int),
    {
        proof {
            use_type_invariant(self);
            lemma_offset_in_buffer(self.width as int, self.height as int, x as int, y as int);
        }
        let len: usize = self.bytes.len();
        assert((y * self.width + x) * 4 + 4 <= len);
        let at: usize = (y * self.width + x) * 4;
        let c: Color = [self.bytes[at], self.bytes[at + 1], self.bytes[at + 2], self.bytes[at + 3]];
        assert(c@ =~= self.pixel(x as int, y as int));
        c
    }
}

} // verus!
