//! From a pointer position in the window to a pixel of the emulated screen.
use vstd::prelude::*;
use crate::{HEIGHT, WIDTH};

verus! {

/// The size of the window's client area, in whole pixels.
#[derive(Debug, Copy, Clone, Eq, PartialEq, Structural)]
pub struct WindowSize {
    pub width: u32,
    pub height: u32,
}

/// `value`, or the nearer end of `low..=high` where it lies outside.
pub open spec fn clamped(value: int, low: int, high: int) -> int {
    if value < low {
        low
    } else if value > high {
        high
    } else {
        value
    }
}

/// The position `pos` along a window axis of length `extent`, taken
/// relative to that length and scaled to `dim` pixels, rounded down.
///
/// Along an axis without length every position right of the origin lies
/// beyond the far edge.
pub open spec fn scaled(pos: int, extent: int, dim: int) -> int {
    if extent > 0 {
        (pos * dim) / extent
    } else if pos > 0 {
        dim
    } else {
        0
    }
}

/// The pixel along an axis of `dim` pixels that the position `pos` along a
/// window axis of length `extent` points at: the scaled position, kept
/// within `0..=dim - 1`.
pub open spec fn resolved(pos: int, extent: int, dim: int) -> int {
    clamped(scaled(pos, extent, dim), 0, dim - 1)
}

/// The pixel of the emulated screen under the pointer at `(x, y)` of a
/// window of size `window`.
pub open spec fn pointed_pixel(x: int, y: int, window: WindowSize) -> (int, int) {
    (
        resolved(x, window.width as int, WIDTH as int),
        resolved(y, window.height as int, HEIGHT as int),
    )
}

/// A resolved pixel lies on the axis, wherever the pointer is.
pub proof fn lemma_resolved_in_range(pos: int, extent: int, dim: int)
    requires
        dim > 0,
    ensures
        0 <= resolved(pos, extent, dim) < dim,
{
}

/// In a window as large as the emulated screen a pointer inside the window
/// points at the pixel of its own coordinates.
pub proof fn lemma_resolved_same_size(pos: int, dim: int)
    requires
        0 <= pos < dim,
    ensures
        resolved(pos, dim, dim) == pos,
{
    assert((pos * dim) / dim == pos) by (nonlinear_arith)
        requires
            dim > 0,
    ;
}

/// A pointer further along the window axis never resolves to an earlier
/// pixel.
pub proof fn lemma_resolved_monotonic(near: int, far: int, extent: int, dim: int)
    requires
        near <= far,
        dim > 0,
    ensures
        resolved(near, extent, dim) <= resolved(far, extent, dim),
{
    if extent > 0 {
        assert((near * dim) / extent <= (far * dim) / extent) by (nonlinear_arith)
            requires
                near <= far,
                dim > 0,
                extent > 0,
        ;
    }
}

/// The pixel along an axis of `dim` pixels under the position `pos` along a
/// window axis of length `extent`.
pub fn resolve_axis(pos: i64, extent: u32, dim: u32) -> (pixel: u32)
    requires
        dim > 0,
    ensures
        pixel == resolved(pos as int, extent as int, dim as int),
        pixel < dim,
{
    if pos <= 0 {
        assert(scaled(pos as int, extent as int, dim as int) <= 0) by {
            if extent > 0 {
                assert((pos * dim) / (extent as int) <= 0) by (nonlinear_arith)
                    requires
                        pos <= 0,
                        dim > 0,
                        extent > 0,
                ;
            }
        }
        0
    } else if extent == 0 {
        dim - 1
    } else {
        assert(0 <= pos * dim <= 0x7fff_ffff_ffff_ffff * 0xffff_ffff) by (nonlinear_arith)
            requires
                0 < pos <= 0x7fff_ffff_ffff_ffff,
                0 < dim <= 0xffff_ffff,
        ;
        let product: u128 = (pos as u128) * (dim as u128);
        let quotient: u128 = product / (extent as u128);
        if quotient >= dim as u128 {
            dim - 1
        } else {
            quotient as u32
        }
    }
}

/// The pixel of the emulated screen under the pointer at `(x, y)` of a
/// window of size `window`.
pub fn resolve_pointer(x: i64, y: i64, window: WindowSize) -> (pixel: (u32, u32))
    ensures
        (pixel.0 as int, pixel.1 as int) == pointed_pixel(x as int, y as int, window),
        pixel.0 < WIDTH,
        pixel.1 < HEIGHT,
{
    (resolve_axis(x, window.width, WIDTH), resolve_axis(y, window.height, HEIGHT))
}

} // verus!
