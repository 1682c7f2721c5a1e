use vstd::prelude::*;

verus! {

/// `2^64`.
pub const LIMB: u128 = 0x1_0000_0000_0000_0000;

/// The value of the 256-bit number with halves `hi` and `lo`.
pub open spec fn wide(hi: u128, lo: u128) -> int {
    hi * 0x1_0000_0000_0000_0000_0000_0000_0000_0000int + lo
}

/// The exact product of two 128-bit numbers, as 256-bit halves.
pub fn mul_wide(a: u128, b: u128) -> (r: (u128, u128))
    ensures
        wide(r.0, r.1) == a * b,
{
    let a0 = a % LIMB;
    let a1 = a / LIMB;
    let b0 = b % LIMB;
    let b1 = b / LIMB;
    proof {
        assert(a0 * b0 < LIMB * LIMB) by (nonlinear_arith)
            requires a0 < LIMB, b0 < LIMB, a0 >= 0, b0 >= 0;
        assert(a0 * b1 < LIMB * LIMB) by (nonlinear_arith)
            requires a0 < LIMB, b1 < LIMB, a0 >= 0, b1 >= 0;
        assert(a1 * b0 < LIMB * LIMB) by (nonlinear_arith)
            requires a1 < LIMB, b0 < LIMB, a1 >= 0, b0 >= 0;
        assert(a1 * b1 < LIMB * LIMB) by (nonlinear_arith)
            requires a1 < LIMB, b1 < LIMB, a1 >= 0, b1 >= 0;
    }
    let p00 = a0 * b0;
    let p01 = a0 * b1;
    let p10 = a1 * b0;
    let p11 = a1 * b1;
    let mid = p01 % LIMB + p10 % LIMB + p00 / LIMB;
    let lo_hi = mid % LIMB;
    proof {
        assert(lo_hi * LIMB <= (LIMB - 1) * LIMB) by (nonlinear_arith)
            requires lo_hi < LIMB, lo_hi >= 0;
        assert(a == a1 * LIMB + a0 && b == b1 * LIMB + b0);
        assert(a * b == p11 * (LIMB * LIMB) + (p01 + p10) * LIMB + p00) by (nonlinear_arith)
            requires
                a == a1 * LIMB + a0,
                b == b1 * LIMB + b0,
                p00 == a0 * b0,
                p01 == a0 * b1,
                p10 == a1 * b0,
                p11 == a1 * b1;
        let q0 = p00 / LIMB;
        let r0 = p00 % LIMB;
        let q1 = p01 / LIMB;
        let r1 = p01 % LIMB;
        let q2 = p10 / LIMB;
        let r2 = p10 % LIMB;
        let m1 = mid / LIMB;
        assert(p00 == q0 * LIMB + r0 && p01 == q1 * LIMB + r1 && p10 == q2 * LIMB + r2 && mid == m1 * LIMB + lo_hi);
        assert(a * b == (p11 + q1 + q2 + m1) * (LIMB * LIMB) + lo_hi * LIMB + r0) by (nonlinear_arith)
            requires
                a * b == p11 * (LIMB * LIMB) + (p01 + p10) * LIMB + p00,
                p00 == q0 * LIMB + r0,
                p01 == q1 * LIMB + r1,
                p10 == q2 * LIMB + r2,
                mid == r1 + r2 + q0,
                mid == m1 * LIMB + lo_hi;
        assert(a * b < (LIMB * LIMB) * (LIMB * LIMB)) by (nonlinear_arith)
            requires a < LIMB * LIMB, b < LIMB * LIMB, a >= 0, b >= 0;
        assert((p11 + q1 + q2 + m1) < LIMB * LIMB) by (nonlinear_arith)
            requires
                a * b == (p11 + q1 + q2 + m1) * (LIMB * LIMB) + lo_hi * LIMB + r0,
                a * b < (LIMB * LIMB) * (LIMB * LIMB),
                lo_hi >= 0, r0 >= 0, p11 >= 0, q1 >= 0, q2 >= 0, m1 >= 0;
        assert(LIMB * LIMB == 0x1_0000_0000_0000_0000_0000_0000_0000_0000int);
    }
    let hi = p11 + p01 / LIMB + p10 / LIMB + mid / LIMB;
    let lo = p00 % LIMB + lo_hi * LIMB;
    (hi, lo)
}

/// Whether `wide(a) > wide(b)`.
pub fn wide_gt(a: (u128, u128), b: (u128, u128)) -> (r: bool)
    ensures
        r == (wide(a.0, a.1) > wide(b.0, b.1)),
{
    a.0 > b.0 || (a.0 == b.0 && a.1 > b.1)
}

/// The sum of two 256-bit numbers, or `None` when it reaches `2^256`.
pub fn add_wide(a: (u128, u128), b: (u128, u128)) -> (r: Option<(u128, u128)>)
    ensures
        r matches Some(s) ==> wide(s.0, s.1) == wide(a.0, a.1) + wide(b.0, b.1),
        r is None ==> wide(a.0, a.1) + wide(b.0, b.1) >= wide(0, 0) + 0x1_0000_0000_0000_0000_0000_0000_0000_0000int
            * 0x1_0000_0000_0000_0000_0000_0000_0000_0000int,
{
    let (lo, carry) = if a.1 <= u128::MAX - b.1 {
        (a.1 + b.1, 0u128)
    } else {
        (a.1 - (u128::MAX - b.1) - 1, 1u128)
    };
    if a.0 > u128::MAX - b.0 || a.0 + b.0 > u128::MAX - carry {
        return None;
    }
    Some((a.0 + b.0 + carry, lo))
}

} // verus!
