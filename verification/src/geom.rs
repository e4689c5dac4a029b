use vstd::prelude::*;

verus! {

use vstd::arithmetic::div_mod::{lemma_div_nonincreasing, lemma_div_is_ordered, lemma_div_multiples_vanish};
use vstd::arithmetic::mul::lemma_mul_inequality;

/// Subpixels per pixel: every position and size is held in these units.
pub const SP_PER_PX: i64 = 256;

/// Subpixels per 16-pixel tile.
pub const SP_PER_TILE: i64 = 4096;

/// Largest frame time a single step accepts, in milliseconds.
pub const DT_MAX_MS: i64 = 100000;

/// Velocities are clamped to this magnitude, in subpixels per second.
pub const V_LIMIT: i64 = 0x100_0000_0000;

/// Positions are clamped to this magnitude, in subpixels.
pub const POS_LIMIT: i64 = 0x4_0000_0000_0000;

/// Level content must keep its pixel coordinates within this magnitude.
pub const COORD_LIMIT_PX: i64 = 0x10_0000;

#[derive(Clone, Copy, PartialEq, Eq, Structural, Debug)]
pub struct Vec2 {
    pub x: i64,
    pub y: i64,
}

#[derive(Clone, Copy, PartialEq, Eq, Structural, Debug)]
pub struct Rect {
    pub x: i64,
    pub y: i64,
    pub w: i64,
    pub h: i64,
}

/// Two boxes overlap when their interiors share a point: all four strict
/// inequalities hold, so touching edges do not count.
pub open spec fn rects_overlap(a: Rect, b: Rect) -> bool {
    &&& a.x < b.x + b.w
    &&& a.x + a.w > b.x
    &&& a.y < b.y + b.h
    &&& a.y + a.h > b.y
}

pub open spec fn in_rect_range(v: int) -> bool {
    -0x8_0000_0000_0000 <= v <= 0x8_0000_0000_0000
}

pub open spec fn rect_bounded(r: Rect) -> bool {
    in_rect_range(r.x as int) && in_rect_range(r.y as int) && in_rect_range(r.w as int)
        && in_rect_range(r.h as int)
}

pub fn rect_overlap(a: &Rect, b: &Rect) -> (r: bool)
    requires
        rect_bounded(*a),
        rect_bounded(*b),
    ensures
        r == rects_overlap(*a, *b),
{
    a.x < b.x + b.w && a.x + a.w > b.x && a.y < b.y + b.h && a.y + a.h > b.y
}

pub open spec fn clamp(v: int, lo: int, hi: int) -> int {
    if v < lo {
        lo
    } else if v > hi {
        hi
    } else {
        v
    }
}

pub fn clamp_i64(v: i64, lo: i64, hi: i64) -> (r: i64)
    requires
        lo <= hi,
    ensures
        r == clamp(v as int, lo as int, hi as int),
{
    if v < lo {
        lo
    } else if v > hi {
        hi
    } else {
        v
    }
}

/// `v * num / den` with the quotient truncated toward zero, as the hardware
/// computes it for signed operands.
pub open spec fn spec_mul_div(v: int, num: int, den: int) -> int {
    if v >= 0 {
        (v * num) / den
    } else {
        -(((-v) * num) / den)
    }
}

pub open spec fn sign_or_one(v: int) -> int {
    if v >= 0 {
        1
    } else {
        -1
    }
}

fn mul_div_raw(v: i64, num: i64, den: i64) -> (r: i64)
    requires
        -0x2000_0000_0000 <= v <= 0x2000_0000_0000,
        0 <= num < 0x20000,
        0 < den < 0x20000,
    ensures
        r == spec_mul_div(v as int, num as int, den as int),
{
    if v >= 0 {
        proof {
            assert(0 <= (v as int) * (num as int) <= 0x2000_0000_0000 * 0x20000)
                by (nonlinear_arith)
                requires
                    0 <= (v as int) && (v as int) <= 0x2000_0000_0000,
                    0 <= (num as int) && (num as int) < 0x20000;
        }
        let p: u64 = (v as u64) * (num as u64);
        let q: u64 = p / (den as u64);
        proof {
            lemma_div_nonincreasing(p as int, den as int);
        }
        q as i64
    } else {
        let m: i64 = -v;
        proof {
            assert(0 <= (m as int) * (num as int) <= 0x2000_0000_0000 * 0x20000)
                by (nonlinear_arith)
                requires
                    0 <= (m as int) && (m as int) <= 0x2000_0000_0000,
                    0 <= (num as int) && (num as int) < 0x20000;
        }
        let p: u64 = (m as u64) * (num as u64);
        let q: u64 = p / (den as u64);
        proof {
            lemma_div_nonincreasing(p as int, den as int);
        }
        -(q as i64)
    }
}

/// Scaling by a fraction of at most one cannot grow the magnitude.
pub proof fn lemma_mul_div_le(v: int, num: int, den: int)
    requires
        0 < den,
        0 <= num <= den,
    ensures
        v >= 0 ==> 0 <= spec_mul_div(v, num, den) <= v,
        v < 0 ==> v <= spec_mul_div(v, num, den) <= 0,
{
    if v >= 0 {
        lemma_mul_inequality(num, den, v);
        assert(v * num == num * v) by (nonlinear_arith);
        assert(v * den == den * v) by (nonlinear_arith);
        lemma_div_is_ordered(v * num, v * den, den);
        lemma_div_multiples_vanish(v, den);
        vstd::arithmetic::div_mod::lemma_div_pos_is_pos(v * num, den);
        assert(v * num >= 0) by (nonlinear_arith)
            requires
                v >= 0,
                num >= 0;
    } else {
        lemma_mul_inequality(num, den, -v);
        assert((-v) * num == num * (-v)) by (nonlinear_arith);
        assert((-v) * den == den * (-v)) by (nonlinear_arith);
        lemma_div_is_ordered((-v) * num, (-v) * den, den);
        lemma_div_multiples_vanish(-v, den);
        vstd::arithmetic::div_mod::lemma_div_pos_is_pos((-v) * num, den);
        assert((-v) * num >= 0) by (nonlinear_arith)
            requires
                v < 0,
                num >= 0;
    }
}

/// `v * num / den` for a fraction of at most one; the result keeps the sign
/// of `v` and never exceeds it in magnitude.
pub fn mul_div_le(v: i64, num: i64, den: i64) -> (r: i64)
    requires
        -0x2000_0000_0000 <= v <= 0x2000_0000_0000,
        0 <= num <= den,
        0 < den < 0x20000,
    ensures
        r == spec_mul_div(v as int, num as int, den as int),
        v >= 0 ==> 0 <= r <= v,
        v < 0 ==> v <= r <= 0,
{
    proof {
        lemma_mul_div_le(v as int, num as int, den as int);
    }
    mul_div_raw(v, num, den)
}

/// How far a body moving at `v` subpixels per second travels in `dt`
/// milliseconds, truncated toward zero.
pub fn scale_by_dt(v: i64, dt: i64) -> (m: i64)
    requires
        -V_LIMIT <= v <= V_LIMIT,
        0 <= dt <= DT_MAX_MS,
    ensures
        m == spec_mul_div(v as int, dt as int, 1000),
        -0x8000_0000_0000 <= m <= 0x8000_0000_0000,
{
    proof {
        if v >= 0 {
            lemma_mul_inequality(v as int, V_LIMIT as int, dt as int);
            lemma_mul_inequality(dt as int, DT_MAX_MS as int, V_LIMIT as int);
            assert(v * dt == dt * v) by (nonlinear_arith);
            assert(V_LIMIT as int * dt == dt * (V_LIMIT as int)) by (nonlinear_arith);
            assert(v * dt >= 0) by (nonlinear_arith)
                requires
                    v >= 0,
                    dt >= 0;
            lemma_div_is_ordered(v * dt, V_LIMIT as int * DT_MAX_MS as int, 1000);
            vstd::arithmetic::div_mod::lemma_div_pos_is_pos(v * dt, 1000);
        } else {
            lemma_mul_inequality(-(v as int), V_LIMIT as int, dt as int);
            lemma_mul_inequality(dt as int, DT_MAX_MS as int, V_LIMIT as int);
            assert((-(v as int)) * dt == dt * (-(v as int))) by (nonlinear_arith);
            assert(V_LIMIT as int * dt == dt * (V_LIMIT as int)) by (nonlinear_arith);
            assert((-(v as int)) * dt >= 0) by (nonlinear_arith)
                requires
                    v < 0,
                    dt >= 0;
            lemma_div_is_ordered((-(v as int)) * dt, V_LIMIT as int * DT_MAX_MS as int, 1000);
            vstd::arithmetic::div_mod::lemma_div_pos_is_pos((-(v as int)) * dt, 1000);
        }
    }
    mul_div_raw(v, dt, 1000)
}

/// Tile column or row covered by a subpixel coordinate: truncated division
/// by the tile size, saturating at zero on the negative side.
pub open spec fn tile_lo(c: int) -> int {
    if c < 0 {
        0
    } else {
        c / 4096
    }
}

pub fn tile_floor(c: i64) -> (t: i64)
    requires
        c <= 0x9_0000_0000_0000,
    ensures
        t == tile_lo(c as int),
        0 <= t,
        c >= 0 ==> t <= c,
{
    if c < 0 {
        0
    } else {
        let q: u64 = (c as u64) / 4096;
        proof {
            lemma_div_nonincreasing(c as int, 4096);
            vstd::arithmetic::div_mod::lemma_div_pos_is_pos(c as int, 4096);
        }
        q as i64
    }
}

} // verus!
