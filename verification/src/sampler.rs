//! Signal sampler: converts a raw reading from a bounded input domain into a
//! normalized quality percentage by clamping and a rounded linear map.

use vstd::prelude::*;

verus! {

/// `x` forced into the interval `[lo, hi]`.
pub open spec fn clamp_int(x: int, lo: int, hi: int) -> int {
    if x < lo {
        lo
    } else if x > hi {
        hi
    } else {
        x
    }
}

/// The rounded linear map from the domain `[lo, hi]` onto `[0, 100]`:
/// clamp the raw value, then take `round((raw - lo) / (hi - lo) * 100)`
/// computed exactly over the integers (rounding half up).
pub open spec fn spec_normalize(raw: int, lo: int, hi: int) -> int
    recommends
        lo < hi,
{
    let span = hi - lo;
    let offset = clamp_int(raw, lo, hi) - lo;
    (offset * 100 + span / 2) / span
}

/// Normalized quality percentage of a raw reading over the domain
/// `[input_min, input_max]`: clamped, linearly mapped, rounded.
pub fn normalize(raw: i32, input_min: i32, input_max: i32) -> (percent: u8)
    requires
        input_min < input_max,
    ensures
        percent == spec_normalize(raw as int, input_min as int, input_max as int),
        percent <= 100,
        raw <= input_min ==> percent == 0,
        raw >= input_max ==> percent == 100,
{
    let clamped: i32 = if raw < input_min {
        input_min
    } else if raw > input_max {
        input_max
    } else {
        raw
    };
    let span: u64 = (input_max as i64 - input_min as i64) as u64;
    let offset: u64 = (clamped as i64 - input_min as i64) as u64;
    let numerator: u64 = offset * 100 + span / 2;
    let quotient: u64 = numerator / span;
    proof {
        lemma_normalize_quotient_bounds(offset as int, span as int);
    }
    quotient as u8
}

/// The quotient of the rounded linear map stays in `[0, 100]`, is 0 exactly
/// on the left edge of the clamped domain and 100 exactly on the right edge.
proof fn lemma_normalize_quotient_bounds(offset: int, span: int)
    requires
        0 < span,
        0 <= offset <= span,
    ensures
        0 <= (offset * 100 + span / 2) / span <= 100,
        offset == 0 ==> (offset * 100 + span / 2) / span == 0,
        offset == span ==> (offset * 100 + span / 2) / span == 100,
{
    let half = span / 2;
    assert(0 <= half < span);
    assert(offset * 100 + half >= 0) by (nonlinear_arith)
        requires
            0 <= offset && 0 <= half,
    ;
    assert((offset * 100 + half) / span >= 0) by (nonlinear_arith)
        requires
            0 < span && 0 <= offset * 100 + half,
    ;
    assert(offset * 100 + half <= span * 100 + half) by (nonlinear_arith)
        requires
            offset <= span && 0 < span,
    ;
    assert((span * 100 + half) / span == 100) by (nonlinear_arith)
        requires
            0 < span && 0 <= half < span,
    ;
    assert((offset * 100 + half) / span <= (span * 100 + half) / span) by (nonlinear_arith)
        requires
            0 < span && 0 <= offset * 100 + half <= span * 100 + half,
    ;
    if offset == 0 {
        assert(half / span == 0) by (nonlinear_arith)
            requires
                0 < span && 0 <= half < span,
        ;
    }
}

/// At the exact midpoint of an even-width domain the normalized quality is
/// exactly 50.
pub proof fn lemma_normalize_midpoint(lo: int, hi: int)
    requires
        lo < hi,
        (hi - lo) % 2 == 0,
    ensures
        spec_normalize((lo + hi) / 2, lo, hi) == 50,
{
    let span = hi - lo;
    let mid = (lo + hi) / 2;
    assert(mid - lo == span / 2) by (nonlinear_arith)
        requires
            lo < hi && (hi - lo) % 2 == 0 && span == hi - lo && mid == (lo + hi) / 2,
    ;
    assert(lo <= mid <= hi);
    assert(clamp_int(mid, lo, hi) == mid);
    let offset = span / 2;
    assert((offset * 100 + offset) / span == 50) by (nonlinear_arith)
        requires
            0 < span && span % 2 == 0 && offset == span / 2,
    ;
}

} // verus!
