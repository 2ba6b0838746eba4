//! Byte-valued RGB colours and the linear interpolation used when a
//! rasterized edge blends one vertex colour into another.

use vstd::prelude::*;

verus! {

/// An RGB colour with one byte per channel.
#[derive(Clone, Copy, Debug, PartialEq, Eq, Structural)]
pub struct Rgb {
    pub r: u8,
    pub g: u8,
    pub b: u8,
}

pub open spec fn rgb(r: u8, g: u8, b: u8) -> Rgb {
    Rgb { r, g, b }
}

/// One channel of a linear blend: the value `i / m` of the way from `a`
/// to `b`, with the fraction applied in integer arithmetic (rounding the
/// offset toward zero).
pub open spec fn lerp_channel_spec(a: u8, b: u8, i: int, m: int) -> int {
    if b >= a {
        a + (i * (b - a)) / m
    } else {
        a - (i * (a - b)) / m
    }
}

/// The blended channel stays between its two endpoints.
pub proof fn lemma_lerp_channel_bounds(a: u8, b: u8, i: int, m: int)
    requires
        0 < m,
        0 <= i <= m,
    ensures
        b >= a ==> a <= lerp_channel_spec(a, b, i, m) <= b,
        b < a ==> b <= lerp_channel_spec(a, b, i, m) <= a,
{
    let d = if b >= a { b - a } else { a - b };
    assert(0 <= (i * d) / m <= d) by (nonlinear_arith)
        requires
            0 < m,
            0 <= i <= m,
            0 <= d,
    ;
}

/// `lerp_channel_spec`, executably: compute the scaled offset in 64 bits.
pub fn lerp_channel(a: u8, b: u8, i: u32, m: u32) -> (r: u8)
    requires
        0 < m,
        i <= m,
    ensures
        r == lerp_channel_spec(a, b, i as int, m as int),
{
    proof {
        lemma_lerp_channel_bounds(a, b, i as int, m as int);
    }
    if b >= a {
        let d: u64 = (b - a) as u64;
        assert((i as u64) * d <= 0xFFFF_FFFFu64 * 255) by (nonlinear_arith)
            requires
                i as u64 <= 0xFFFF_FFFFu64,
                d <= 255,
        ;
        let q: u64 = (i as u64) * d / (m as u64);
        assert(q == (i as int * (b - a)) / (m as int));
        a + (q as u8)
    } else {
        let d: u64 = (a - b) as u64;
        assert((i as u64) * d <= 0xFFFF_FFFFu64 * 255) by (nonlinear_arith)
            requires
                i as u64 <= 0xFFFF_FFFFu64,
                d <= 255,
        ;
        let q: u64 = (i as u64) * d / (m as u64);
        assert(q == (i as int * (a - b)) / (m as int));
        a - (q as u8)
    }
}

/// The colour `i / m` of the way from `c0` to `c1`, channel by channel.
pub open spec fn blend_spec(c0: Rgb, c1: Rgb, i: int, m: int) -> Rgb {
    Rgb {
        r: lerp_channel_spec(c0.r, c1.r, i, m) as u8,
        g: lerp_channel_spec(c0.g, c1.g, i, m) as u8,
        b: lerp_channel_spec(c0.b, c1.b, i, m) as u8,
    }
}

pub fn blend(c0: Rgb, c1: Rgb, i: u32, m: u32) -> (c: Rgb)
    requires
        0 < m,
        i <= m,
    ensures
        c == blend_spec(c0, c1, i as int, m as int),
{
    proof {
        lemma_lerp_channel_bounds(c0.r, c1.r, i as int, m as int);
        lemma_lerp_channel_bounds(c0.g, c1.g, i as int, m as int);
        lemma_lerp_channel_bounds(c0.b, c1.b, i as int, m as int);
    }
    Rgb {
        r: lerp_channel(c0.r, c1.r, i, m),
        g: lerp_channel(c0.g, c1.g, i, m),
        b: lerp_channel(c0.b, c1.b, i, m),
    }
}

/// A blend starts exactly at the first colour and ends exactly at the
/// second: the first point of a rasterized edge carries one endpoint's
/// colour and the last point carries the other's.
pub proof fn lemma_blend_endpoints(c0: Rgb, c1: Rgb, m: int)
    requires
        0 < m,
    ensures
        blend_spec(c0, c1, 0, m) == c0,
        blend_spec(c0, c1, m, m) == c1,
{
    assert forall|a: u8, b: u8|
        lerp_channel_spec(a, b, 0, m) == a && lerp_channel_spec(a, b, m, m) == b by {
        let d = if b >= a { b - a } else { a - b };
        assert(0 * d == 0);
        assert((0 * d) / m == 0) by (nonlinear_arith)
            requires
                0 < m,
                0 * d == 0,
        ;
        assert((m * d) / m == d) by (nonlinear_arith)
            requires
                0 < m,
                0 <= d,
        ;
    }
}

} // verus!
