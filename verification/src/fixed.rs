//! A scalar with total operations: fixed-point numbers that saturate.
use crate::util::{int_sqrt, lemma_int_sqrt_unique, ops_total, trunc_div, NumLike};
use vstd::prelude::*;

verus! {

/// The number of raw units that make one.
pub const ONE: i64 = 65536;

/// A fixed-point number with 16 binary places: `raw / 65536`. Every operation has a
/// result: what does not fit is the greatest or the least number, a quotient by zero
/// is the greatest, the least or zero by the sign of the dividend, and the square
/// root of a negative number is zero.
#[derive(Clone, Copy, Debug, PartialEq, Eq)]
pub struct Fixed {
    pub raw: i64,
}

/// `v`, or the nearest 64-bit integer where `v` is none.
pub open spec fn saturate(v: int) -> i64 {
    if v > i64::MAX {
        i64::MAX
    } else if v < i64::MIN {
        i64::MIN
    } else {
        v as i64
    }
}

/// `v`, or the nearest 32-bit integer where `v` is none.
pub open spec fn saturate32(v: int) -> i32 {
    if v > i32::MAX {
        i32::MAX
    } else if v < i32::MIN {
        i32::MIN
    } else {
        v as i32
    }
}

/// The raw quotient of the raw numbers `a` and `b`.
pub open spec fn raw_quotient(a: int, b: int) -> int {
    if b == 0 {
        if a > 0 {
            i64::MAX as int
        } else if a < 0 {
            i64::MIN as int
        } else {
            0
        }
    } else {
        trunc_div(a * ONE, b)
    }
}

/// The raw square root of the raw number `a`.
pub open spec fn raw_sqrt(a: int) -> int {
    if a <= 0 {
        0
    } else {
        int_sqrt(a * ONE)
    }
}

/// `v`, or the nearest 64-bit integer where `v` is none.
fn clamp(v: i128) -> (r: i64)
    ensures
        r == saturate(v as int),
{
    if v > i64::MAX as i128 {
        i64::MAX
    } else if v < i64::MIN as i128 {
        i64::MIN
    } else {
        v as i64
    }
}

/// `a / b`, rounded toward zero.
fn divide(a: i128, b: i128) -> (r: i128)
    requires
        b != 0,
        -0x4000_0000_0000_0000_0000_0000_0000_0000 <= a
            <= 0x4000_0000_0000_0000_0000_0000_0000_0000,
        -0x4000_0000_0000_0000_0000_0000_0000_0000 <= b
            <= 0x4000_0000_0000_0000_0000_0000_0000_0000,
    ensures
        r == trunc_div(a as int, b as int),
{
    let abs_a: i128 = if a < 0 {
        -a
    } else {
        a
    };
    let abs_b: i128 = if b < 0 {
        -b
    } else {
        b
    };
    let q: i128 = abs_a / abs_b;
    assert(0 <= q <= abs_a) by (nonlinear_arith)
        requires
            q == abs_a / abs_b,
            abs_a >= 0,
            abs_b > 0,
    ;
    if (a < 0) != (b < 0) {
        -q
    } else {
        q
    }
}

/// The product of two numbers of magnitude `m` or less has magnitude `m * m` or
/// less.
proof fn lemma_product_bound(a: int, b: int, m: int)
    requires
        -m <= a <= m,
        -m <= b <= m,
    ensures
        -(m * m) <= a * b <= m * m,
{
    assert((m - a) * (m - b) >= 0 && (m + a) * (m + b) >= 0 && (m - a) * (m + b) >= 0 && (m + a)
        * (m - b) >= 0) by (nonlinear_arith)
        requires
            m - a >= 0,
            m - b >= 0,
            m + a >= 0,
            m + b >= 0,
    ;
    assert((m - a) * (m - b) + (m + a) * (m + b) == 2 * (m * m) + 2 * (a * b))
        by (nonlinear_arith);
    assert((m - a) * (m + b) + (m + a) * (m - b) == 2 * (m * m) - 2 * (a * b))
        by (nonlinear_arith);
}

/// The integer square root of `n`, found by bisection.
fn root(n: i128) -> (r: i128)
    requires
        0 <= n < 0x1_0000_0000_0000_0000_0000,
    ensures
        r == int_sqrt(n as int),
        0 <= r < 0x100_0000_0000,
{
    let mut lo: i128 = 0;
    let mut hi: i128 = 0x100_0000_0000;
    assert(0x100_0000_0000int * 0x100_0000_0000int == 0x1_0000_0000_0000_0000_0000int)
        by (nonlinear_arith);
    while hi - lo > 1
        invariant
            0 <= lo < hi <= 0x100_0000_0000,
            lo * lo <= n < hi * hi,
        decreases hi - lo,
    {
        let mid: i128 = lo + (hi - lo) / 2;
        assert(0 <= mid * mid <= 0x100_0000_0000int * 0x100_0000_0000int) by (nonlinear_arith)
            requires
                0 <= mid <= 0x100_0000_0000,
        ;
        if mid * mid <= n {
            lo = mid;
        } else {
            hi = mid;
        }
    }
    proof {
        lemma_int_sqrt_unique(n as int, lo as int);
    }
    lo
}

impl NumLike for Fixed {
    open spec fn obeys_num_spec() -> bool {
        true
    }

    open spec fn zero_spec() -> Self {
        Fixed { raw: 0 }
    }

    open spec fn one_spec() -> Self {
        Fixed { raw: ONE }
    }

    open spec fn from_i32_spec(v: i32) -> Self {
        Fixed { raw: (v * ONE) as i64 }
    }

    open spec fn to_i32_req(self) -> bool {
        true
    }

    open spec fn to_i32_spec(self) -> i32 {
        saturate32(trunc_div(self.raw as int, ONE as int))
    }

    open spec fn plus_req(self, rhs: Self) -> bool {
        true
    }

    open spec fn plus_spec(self, rhs: Self) -> Self {
        Fixed { raw: saturate(self.raw + rhs.raw) }
    }

    open spec fn minus_req(self, rhs: Self) -> bool {
        true
    }

    open spec fn minus_spec(self, rhs: Self) -> Self {
        Fixed { raw: saturate(self.raw - rhs.raw) }
    }

    open spec fn times_req(self, rhs: Self) -> bool {
        true
    }

    open spec fn times_spec(self, rhs: Self) -> Self {
        Fixed { raw: saturate(trunc_div(self.raw * rhs.raw, ONE as int)) }
    }

    open spec fn over_req(self, rhs: Self) -> bool {
        true
    }

    open spec fn over_spec(self, rhs: Self) -> Self {
        Fixed { raw: saturate(raw_quotient(self.raw as int, rhs.raw as int)) }
    }

    open spec fn sqrt_req(self) -> bool {
        true
    }

    open spec fn sqrt_spec(self) -> Self {
        Fixed { raw: saturate(raw_sqrt(self.raw as int)) }
    }

    open spec fn equals_spec(self, rhs: Self) -> bool {
        self.raw == rhs.raw
    }

    open spec fn less_spec(self, rhs: Self) -> bool {
        self.raw < rhs.raw
    }

    fn zero() -> (r: Self) {
        Fixed { raw: 0 }
    }

    fn one() -> (r: Self) {
        Fixed { raw: ONE }
    }

    fn from_i32(v: i32) -> (r: Self) {
        Fixed { raw: v as i64 * ONE }
    }

    fn to_i32(self) -> (r: i32) {
        let whole = divide(self.raw as i128, ONE as i128);
        if whole > i32::MAX as i128 {
            i32::MAX
        } else if whole < i32::MIN as i128 {
            i32::MIN
        } else {
            whole as i32
        }
    }

    fn plus(self, rhs: Self) -> (r: Self) {
        Fixed { raw: clamp(self.raw as i128 + rhs.raw as i128) }
    }

    fn minus(self, rhs: Self) -> (r: Self) {
        Fixed { raw: clamp(self.raw as i128 - rhs.raw as i128) }
    }

    fn times(self, rhs: Self) -> (r: Self) {
        proof {
            lemma_product_bound(self.raw as int, rhs.raw as int, 0x8000_0000_0000_0000);
            assert(0x8000_0000_0000_0000int * 0x8000_0000_0000_0000int
                == 0x4000_0000_0000_0000_0000_0000_0000_0000int) by (nonlinear_arith);
        }
        let product = self.raw as i128 * rhs.raw as i128;
        Fixed { raw: clamp(divide(product, ONE as i128)) }
    }

    fn over(self, rhs: Self) -> (r: Self) {
        if rhs.raw == 0 {
            let raw = if self.raw > 0 {
                i64::MAX
            } else if self.raw < 0 {
                i64::MIN
            } else {
                0
            };
            return Fixed { raw };
        }
        let scaled = self.raw as i128 * 65536;
        Fixed { raw: clamp(divide(scaled, rhs.raw as i128)) }
    }

    fn sqrt(self) -> (r: Self) {
        if self.raw <= 0 {
            return Fixed { raw: 0 };
        }
        let scaled = self.raw as i128 * 65536;
        Fixed { raw: clamp(root(scaled)) }
    }

    fn equals(self, rhs: Self) -> (r: bool) {
        self.raw == rhs.raw
    }

    fn less(self, rhs: Self) -> (r: bool) {
        self.raw < rhs.raw
    }
}

/// Every operation of the fixed-point numbers can be carried out on all operands.
pub proof fn lemma_fixed_is_total()
    ensures
        Fixed::obeys_num_spec(),
        ops_total::<Fixed>(),
{
}

} // verus!
