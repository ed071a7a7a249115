//! The layout shared by every pixel buffer of this crate: RGBA8, row-major,
//! four bytes per pixel, no padding between rows.

use vstd::prelude::*;

verus! {

/// Index of the first byte of pixel `(x, y)` in a buffer whose rows hold
/// `width` pixels.
pub open spec fn offset(width: int, x: int, y: int) -> int {
    (y * width + x) * 4
}

/// The four bytes of pixel `(x, y)`.
pub open spec fn pixel_at(bytes: Seq<u8>, width: int, x: int, y: int) -> Seq<u8> {
    bytes.subrange(offset(width, x, y), offset(width, x, y) + 4)
}

/// A pixel inside a `width` by `height` grid lies wholly inside a buffer of
/// `width * height * 4` bytes.
pub proof fn lemma_offset_in_buffer(width: int, height: int, x: int, y: int)
    requires
        0 <= x < width,
        0 <= y < height,
    ensures
        0 <= y * width <= y * width + x,
        0 <= offset(width, x, y),
        offset(width, x, y) + 4 <= width * height * 4,
{
    assert(0 <= y * width && y * width + width <= height * width) by (nonlinear_arith)
        requires
            0 <= y < height,
            0 <= width,
    ;
    assert(height * width == width * height) by (nonlinear_arith);
}

/// Two different pixels of one grid share no byte.
pub proof fn lemma_offsets_apart(width: int, x: int, y: int, x2: int, y2: int)
    requires
        0 <= x < width,
        0 <= x2 < width,
        x != x2 || y != y2,
    ensures
        offset(width, x, y) + 4 <= offset(width, x2, y2) || offset(width, x2, y2) + 4 <= offset(
            width,
            x,
            y,
        ),
{
    if y < y2 {
        assert(y * width + width <= y2 * width) by (nonlinear_arith)
            requires
                y < y2,
                0 <= width,
        ;
    } else if y2 < y {
        assert(y2 * width + width <= y * width) by (nonlinear_arith)
            requires
                y2 < y,
                0 <= width,
        ;
    }
}

/// A buffer is determined by its pixels: two buffers of one grid that agree
/// on every pixel are equal.
pub proof fn lemma_pixels_fix_bytes(a: Seq<u8>, b: Seq<u8>, width: int, height: int)
    requires
        0 <= width,
        0 <= height,
        a.len() == width * height * 4,
        b.len() == a.len(),
        forall|x: int, y: int|
            0 <= x < width && 0 <= y < height ==> #[trigger] pixel_at(a, width, x, y) == pixel_at(
                b,
                width,
                x,
                y,
            ),
    ensures
        a == b,
{
    assert forall|i: int| 0 <= i < a.len() implies a[i] == b[i] by {
        let p = i / 4;
        let c = i % 4;
        assert(0 <= p < width * height) by (nonlinear_arith)
            requires
                0 <= i < width * height * 4,
                p == i / 4,
        ;
        assert(width > 0) by (nonlinear_arith)
            requires
                0 <= p < width * height,
                0 <= width,
        ;
        let y = p / width;
        let x = p % width;
        assert(p == y * width + x && 0 <= x < width && 0 <= y < height) by (nonlinear_arith)
            requires
                0 <= p < width * height,
                width > 0,
                y == p / width,
                x == p % width,
        ;
        lemma_offset_in_buffer(width, height, x, y);
        assert(offset(width, x, y) == p * 4);
        assert(i == offset(width, x, y) + c);
        assert(pixel_at(a, width, x, y)[c] == a[i]);
        assert(pixel_at(b, width, x, y)[c] == b[i]);
    }
    assert(a =~= b);
}

} // verus!
