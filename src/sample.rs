use vstd::prelude::*;

verus! {

/// The sample value that stands for an amplitude of 1.0.
pub const FULL_SCALE: i32 = 1_000_000;

/// The unit of a gain factor: an amount of `GAIN_UNIT` scales by 1.0.
pub const GAIN_UNIT: i32 = 1000;

/// The value `x` limited to the range of a sample.
pub open spec fn clip(x: int) -> int {
    if x > i32::MAX {
        i32::MAX as int
    } else if x < i32::MIN {
        i32::MIN as int
    } else {
        x
    }
}

/// `x / d` rounded toward zero, as integer division does on machines.
pub open spec fn div_toward_zero(x: int, d: int) -> int {
    if x >= 0 {
        x / d
    } else {
        -((-x) / d)
    }
}

/// The sum of two samples, limited to the sample range.
pub open spec fn mix_sample(a: i32, b: i32) -> i32 {
    clip(a + b) as i32
}

/// A sample scaled by `amount / GAIN_UNIT`, rounded toward zero and limited
/// to the sample range.
pub open spec fn scale_sample(x: i32, amount: i32) -> i32 {
    clip(div_toward_zero(x * amount, GAIN_UNIT as int)) as i32
}

fn clip_i64(x: i64) -> (r: i32)
    ensures
        r == clip(x as int),
{
    if x > i32::MAX as i64 {
        i32::MAX
    } else if x < i32::MIN as i64 {
        i32::MIN
    } else {
        x as i32
    }
}

/// Adds two samples, saturating at the ends of the sample range.
pub fn mix(a: i32, b: i32) -> (r: i32)
    ensures
        r == mix_sample(a, b),
{
    clip_i64(a as i64 + b as i64)
}

/// Scales a sample by `amount / GAIN_UNIT`.
pub fn scale(x: i32, amount: i32) -> (r: i32)
    ensures
        r == scale_sample(x, amount),
{
    proof {
        let (xi, ai) = (x as int, amount as int);
        assert(-0x4000_0000_0000_0000 <= xi * ai <= 0x4000_0000_0000_0000) by (nonlinear_arith)
            requires
                i32::MIN <= xi <= i32::MAX,
                i32::MIN <= ai <= i32::MAX,
        ;
    }
    let p: i64 = x as i64 * amount as i64;
    let q: i64 = if p >= 0 {
        p / (GAIN_UNIT as i64)
    } else {
        -((-p) / (GAIN_UNIT as i64))
    };
    clip_i64(q)
}

} // verus!
