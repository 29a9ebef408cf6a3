//! Coordinate helpers for the frame host.

use vstd::prelude::*;

verus! {

/// A two-dimensional integer vector, as the host's coordinate mapping
/// uses it.
#[derive(Clone, Copy, Debug, PartialEq, Eq)]
pub struct Vec2 {
    pub x: i64,
    pub y: i64,
}

/// Remap `value` from the range `min1..=max1` into the range
/// `min2..=max2`, componentwise:
/// `min2 + (value - min1) * (max2 - min2) / (max1 - min1)`.
pub fn map(value: Vec2, min1: Vec2, max1: Vec2, min2: Vec2, max2: Vec2) -> (r: Vec2)
    requires
        min1.x <= value.x <= max1.x,
        min1.y <= value.y <= max1.y,
        min1.x < max1.x,
        min1.y < max1.y,
        min2.x <= max2.x,
        min2.y <= max2.y,
        value.x - min1.x <= i64::MAX,
        value.y - min1.y <= i64::MAX,
        max1.x - min1.x <= i64::MAX,
        max1.y - min1.y <= i64::MAX,
        max2.x - min2.x <= i64::MAX,
        max2.y - min2.y <= i64::MAX,
        (value.x - min1.x) * (max2.x - min2.x) <= i64::MAX,
        (value.y - min1.y) * (max2.y - min2.y) <= i64::MAX,
        min2.x + (value.x - min1.x) * (max2.x - min2.x) / (max1.x - min1.x) <= i64::MAX,
        min2.y + (value.y - min1.y) * (max2.y - min2.y) / (max1.y - min1.y) <= i64::MAX,
    ensures
        r.x == min2.x + (value.x - min1.x) * (max2.x - min2.x) / (max1.x - min1.x),
        r.y == min2.y + (value.y - min1.y) * (max2.y - min2.y) / (max1.y - min1.y),
{
    let dx = value.x - min1.x;
    let dy = value.y - min1.y;
    let sx = max2.x - min2.x;
    let sy = max2.y - min2.y;
    proof {
        assert(dx * sx >= 0) by (nonlinear_arith)
            requires
                dx >= 0,
                sx >= 0,
        ;
        assert(dy * sy >= 0) by (nonlinear_arith)
            requires
                dy >= 0,
                sy >= 0,
        ;
        assert(dx * sx / (max1.x - min1.x) >= 0);
        assert(dy * sy / (max1.y - min1.y) >= 0);
    }
    let qx = dx * sx / (max1.x - min1.x);
    let qy = dy * sy / (max1.y - min1.y);
    Vec2 { x: min2.x + qx, y: min2.y + qy }
}

/// The size of the largest rectangle with the aspect ratio
/// `ar_num : ar_den` that fits into `avail`; one dimension is always
/// filled.  The width is the controlling dimension when the available box
/// is taller than the ratio asks, otherwise the height controls.
pub fn fit_aspect_ratio_in_size(ar_num: u32, ar_den: u32, avail: Vec2) -> (r: Vec2)
    requires
        ar_num > 0,
        ar_den > 0,
        0 <= avail.x <= 0x100000,
        0 <= avail.y <= 0x100000,
    ensures
        avail.y * (ar_num as int) > avail.x * (ar_den as int) ==> r == (Vec2 {
            x: avail.x,
            y: (avail.x * (ar_den as int) / (ar_num as int)) as i64,
        }),
        avail.y * (ar_num as int) <= avail.x * (ar_den as int) ==> r == (Vec2 {
            x: (avail.y * (ar_num as int) / (ar_den as int)) as i64,
            y: avail.y,
        }),
{
    let n = ar_num as i64;
    let d = ar_den as i64;
    proof {
        assert(avail.y * n <= 0x100000 * 0x100000000) by (nonlinear_arith)
            requires
                0 <= avail.y <= 0x100000,
                0 < n <= 0x100000000,
        ;
        assert(avail.x * d <= 0x100000 * 0x100000000) by (nonlinear_arith)
            requires
                0 <= avail.x <= 0x100000,
                0 < d <= 0x100000000,
        ;
        assert(avail.x * d >= 0) by (nonlinear_arith)
            requires
                0 <= avail.x,
                0 < d,
        ;
        assert(avail.y * n >= 0) by (nonlinear_arith)
            requires
                0 <= avail.y,
                0 < n,
        ;
    }
    if avail.y * n > avail.x * d {
        // Width-controlled.
        Vec2 { x: avail.x, y: avail.x * d / n }
    } else {
        // Height-controlled.
        Vec2 { x: avail.y * n / d, y: avail.y }
    }
}

} // verus!
