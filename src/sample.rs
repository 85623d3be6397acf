//! Fixed-point sample arithmetic.
use vstd::prelude::*;

verus! {

/// A sample: a signed fixed-point amplitude, `UNITY` being full scale.
pub type Sample = i32;

/// Full scale (1.0): 2^24.
pub const UNITY: i32 = 16777216;

/// The largest magnitude of a balance amount or a crossfeed level (0.25).
pub const MAX_GAIN: i32 = 4194304;

/// `a / d` rounded toward zero, as Rust's integer division does.
pub open spec fn trunc_div(a: int, d: int) -> int {
    if a >= 0 {
        a / d
    } else {
        -((-a) / d)
    }
}

/// `x` held to the range of `Sample`.
pub open spec fn saturated(x: int) -> int {
    if x < i32::MIN {
        i32::MIN as int
    } else if x > i32::MAX {
        i32::MAX as int
    } else {
        x
    }
}

/// `g` held to the declared range of a gain, `[-MAX_GAIN, MAX_GAIN]`.
pub open spec fn clamped_gain(g: int) -> int {
    if g < -MAX_GAIN {
        -MAX_GAIN as int
    } else if g > MAX_GAIN {
        MAX_GAIN as int
    } else {
        g
    }
}

/// The mean of two samples, `(a + b) / 2`.
pub open spec fn half_sum(a: int, b: int) -> int {
    trunc_div(a + b, 2)
}

/// The difference `a - b`, saturated.
pub open spec fn difference(a: int, b: int) -> int {
    saturated(a - b)
}

/// `x` scaled by the gain `g`: `x * g / UNITY`.
pub open spec fn gained(x: int, g: int) -> int {
    trunc_div(x * g, UNITY as int)
}

/// `x` attenuated by `s`: `x * (1 - s)`.
pub open spec fn attenuated(x: int, s: int) -> int {
    gained(x, UNITY - s)
}

/// `x` with `g * y` added, saturated.
pub open spec fn mixed(x: int, g: int, y: int) -> int {
    saturated(x + gained(y, g))
}

/// Division rounding toward zero.
fn div_toward_zero(a: i64, d: i64) -> (r: i64)
    requires
        d > 0,
        a > i64::MIN,
    ensures
        r == trunc_div(a as int, d as int),
{
    if a >= 0 {
        a / d
    } else {
        -((-a) / d)
    }
}

/// Holds a wide value to the range of `Sample`.
pub fn saturate(x: i64) -> (r: Sample)
    ensures
        r == saturated(x as int),
{
    if x < i32::MIN as i64 {
        i32::MIN
    } else if x > i32::MAX as i64 {
        i32::MAX
    } else {
        x as i32
    }
}

/// Holds a gain to `[-MAX_GAIN, MAX_GAIN]`.
pub fn clamp_gain(g: i32) -> (r: i32)
    ensures
        r == clamped_gain(g as int),
        -MAX_GAIN <= r <= MAX_GAIN,
{
    if g < -MAX_GAIN {
        -MAX_GAIN
    } else if g > MAX_GAIN {
        MAX_GAIN
    } else {
        g
    }
}

/// `(a + b) / 2`; never leaves the range of `Sample`.
pub fn mean(a: Sample, b: Sample) -> (r: Sample)
    ensures
        r == half_sum(a as int, b as int),
{
    let s = div_toward_zero(a as i64 + b as i64, 2);
    s as i32
}

/// `a - b`, saturated.
pub fn subtract(a: Sample, b: Sample) -> (r: Sample)
    ensures
        r == difference(a as int, b as int),
{
    saturate(a as i64 - b as i64)
}

/// `x * g / UNITY` for a gain in `(-UNITY, UNITY]`.
pub fn apply_gain(x: Sample, g: i32) -> (r: Sample)
    requires
        -UNITY < g <= UNITY,
    ensures
        r == gained(x as int, g as int),
{
    proof {
        lemma_gain_bounds(x as int, g as int);
    }
    let p = x as i64 * g as i64;
    let q = div_toward_zero(p, UNITY as i64);
    q as i32
}

/// A gain in `(-UNITY, UNITY]` keeps a sample in the range of `Sample`.
proof fn lemma_gain_bounds(x: int, g: int)
    requires
        i32::MIN <= x <= i32::MAX,
        -UNITY < g <= UNITY,
    ensures
        -0x80000000000000 <= x * g <= 0x80000000000000,
        i32::MIN <= gained(x, g) <= i32::MAX,
{
    let u = UNITY as int;
    let p = x * g;
    assert(-0x80000000 * u <= p < 0x80000000 * u) by (nonlinear_arith)
        requires
            -0x80000000 <= x <= 0x7fffffff,
            -u < g <= u,
            u == 0x1000000,
            p == x * g,
    ;
    if p >= 0 {
        assert(0 <= p / u < 0x80000000) by (nonlinear_arith)
            requires
                0 <= p < 0x80000000 * u,
                u > 0,
        ;
    } else {
        assert(0 <= (-p) / u <= 0x80000000) by (nonlinear_arith)
            requires
                0 < -p <= 0x80000000 * u,
                u > 0,
        ;
    }
}

/// Scales `inp` in place by `1 - s`.
pub fn scale(inp: &mut Sample, s: i32)
    requires
        0 <= s <= MAX_GAIN,
    ensures
        *final(inp) == attenuated(*old(inp) as int, s as int),
{
    *inp = apply_gain(*inp, UNITY - s);
}

/// `x + g * y`, saturated.
pub fn mix(x: Sample, g: i32, y: Sample) -> (r: Sample)
    requires
        -UNITY < g <= UNITY,
    ensures
        r == mixed(x as int, g as int, y as int),
{
    saturate(x as i64 + apply_gain(y, g) as i64)
}

} // verus!
