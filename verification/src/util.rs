//! Scalars for the linear algebra, and small helpers shared by the pipeline.
use crate::framebuffer::{is_flipped_horizontal, is_flipped_vertical, Canvas};
use rand::Rng;
use vstd::prelude::*;
use vstd::string::{StrSliceExecFns, StringExecFns};

verus! {

/// A scalar that vectors and matrices are built from.
///
/// The executable operations are partial: each has a `*_req` predicate that says when
/// it may be called and a `*_spec` function that says what it returns. A type gives
/// these a meaning by overriding them and answering `true` in `obeys_num_spec`; the
/// integers and the fixed-point numbers of this crate do so. The defaults describe a
/// type whose operations can always be called and of whose results nothing is
/// promised, which is all that can be said of a scalar that rounds.
pub trait NumLike: Copy + Sized {
    /// Whether the operations return what the `*_spec` functions say.
    open spec fn obeys_num_spec() -> bool {
        false
    }

    /// The additive identity.
    open spec fn zero_spec() -> Self {
        arbitrary()
    }

    /// The multiplicative identity.
    open spec fn one_spec() -> Self {
        arbitrary()
    }

    /// The scalar that stands for the integer `v`.
    open spec fn from_i32_spec(v: i32) -> Self {
        arbitrary()
    }

    /// Whether `self` can be turned into an `i32`.
    open spec fn to_i32_req(self) -> bool {
        true
    }

    /// `self` with its fraction cut off.
    open spec fn to_i32_spec(self) -> i32 {
        arbitrary()
    }

    /// Whether `self + rhs` can be formed.
    open spec fn plus_req(self, rhs: Self) -> bool {
        true
    }

    /// `self + rhs`.
    open spec fn plus_spec(self, rhs: Self) -> Self {
        arbitrary()
    }

    /// Whether `self - rhs` can be formed.
    open spec fn minus_req(self, rhs: Self) -> bool {
        true
    }

    /// `self - rhs`.
    open spec fn minus_spec(self, rhs: Self) -> Self {
        arbitrary()
    }

    /// Whether `self * rhs` can be formed.
    open spec fn times_req(self, rhs: Self) -> bool {
        true
    }

    /// `self * rhs`.
    open spec fn times_spec(self, rhs: Self) -> Self {
        arbitrary()
    }

    /// Whether `self / rhs` can be formed.
    open spec fn over_req(self, rhs: Self) -> bool {
        true
    }

    /// `self / rhs`.
    open spec fn over_spec(self, rhs: Self) -> Self {
        arbitrary()
    }

    /// Whether the square root of `self` can be formed.
    open spec fn sqrt_req(self) -> bool {
        true
    }

    /// The square root of `self`.
    open spec fn sqrt_spec(self) -> Self {
        arbitrary()
    }

    /// Whether `self` and `rhs` are the same number.
    open spec fn equals_spec(self, rhs: Self) -> bool {
        arbitrary()
    }

    /// Whether `self` is strictly below `rhs`.
    open spec fn less_spec(self, rhs: Self) -> bool {
        arbitrary()
    }

    /// The additive identity.
    fn zero() -> (r: Self)
        ensures
            Self::obeys_num_spec() ==> r == Self::zero_spec(),
    ;

    /// The multiplicative identity.
    fn one() -> (r: Self)
        ensures
            Self::obeys_num_spec() ==> r == Self::one_spec(),
    ;

    /// The scalar that stands for the integer `v`.
    fn from_i32(v: i32) -> (r: Self)
        ensures
            Self::obeys_num_spec() ==> r == Self::from_i32_spec(v),
    ;

    /// `self` with its fraction cut off, as an integer.
    fn to_i32(self) -> (r: i32)
        requires
            Self::obeys_num_spec() ==> self.to_i32_req(),
        ensures
            Self::obeys_num_spec() ==> r == self.to_i32_spec(),
    ;

    /// `self + rhs`.
    fn plus(self, rhs: Self) -> (r: Self)
        requires
            Self::obeys_num_spec() ==> self.plus_req(rhs),
        ensures
            Self::obeys_num_spec() ==> r == self.plus_spec(rhs),
    ;

    /// `self - rhs`.
    fn minus(self, rhs: Self) -> (r: Self)
        requires
            Self::obeys_num_spec() ==> self.minus_req(rhs),
        ensures
            Self::obeys_num_spec() ==> r == self.minus_spec(rhs),
    ;

    /// `self * rhs`.
    fn times(self, rhs: Self) -> (r: Self)
        requires
            Self::obeys_num_spec() ==> self.times_req(rhs),
        ensures
            Self::obeys_num_spec() ==> r == self.times_spec(rhs),
    ;

    /// `self / rhs`.
    fn over(self, rhs: Self) -> (r: Self)
        requires
            Self::obeys_num_spec() ==> self.over_req(rhs),
        ensures
            Self::obeys_num_spec() ==> r == self.over_spec(rhs),
    ;

    /// The square root of `self`.
    fn sqrt(self) -> (r: Self)
        requires
            Self::obeys_num_spec() ==> self.sqrt_req(),
        ensures
            Self::obeys_num_spec() ==> r == self.sqrt_spec(),
    ;

    /// Whether `self` and `rhs` are the same number.
    fn equals(self, rhs: Self) -> (r: bool)
        ensures
            Self::obeys_num_spec() ==> r == self.equals_spec(rhs),
    ;

    /// Whether `self` is strictly below `rhs`.
    fn less(self, rhs: Self) -> (r: bool)
        ensures
            Self::obeys_num_spec() ==> r == self.less_spec(rhs),
    ;
}

/// Whether every operation of `T` can be carried out on all operands, as it is with a
/// scalar that has values for what overflows and for what is undefined.
pub open spec fn ops_total<T: NumLike>() -> bool {
    &&& forall|a: T, b: T| #[trigger] a.plus_req(b)
    &&& forall|a: T, b: T| #[trigger] a.minus_req(b)
    &&& forall|a: T, b: T| #[trigger] a.times_req(b)
    &&& forall|a: T, b: T| #[trigger] a.over_req(b)
    &&& forall|a: T| #[trigger] a.sqrt_req()
    &&& forall|a: T| #[trigger] a.to_i32_req()
}

/// Whether `T` can be used where the operands are not known beforehand: its
/// operations are total, or nothing is claimed of them.
pub open spec fn usable<T: NumLike>() -> bool {
    T::obeys_num_spec() ==> ops_total::<T>()
}

/// `a` times -1.
pub open spec fn opposite_spec<T: NumLike>(a: T) -> T {
    a.times_spec(T::from_i32_spec(-1i32))
}

/// The quotient of the integers `num` and `den`, formed in `T`.
pub open spec fn ratio_spec<T: NumLike>(num: i32, den: i32) -> T {
    T::from_i32_spec(num).over_spec(T::from_i32_spec(den))
}

/// `a` times -1.
pub fn opposite<T: NumLike>(a: T) -> (r: T)
    requires
        T::obeys_num_spec() ==> a.times_req(T::from_i32_spec(-1i32)),
    ensures
        T::obeys_num_spec() ==> r == opposite_spec(a),
{
    a.times(T::from_i32(-1))
}

/// The quotient of the integers `num` and `den`, formed in `T`.
pub fn ratio<T: NumLike>(num: i32, den: i32) -> (r: T)
    requires
        T::obeys_num_spec() ==> T::from_i32_spec(num).over_req(T::from_i32_spec(den)),
    ensures
        T::obeys_num_spec() ==> r == ratio_spec::<T>(num, den),
{
    T::from_i32(num).over(T::from_i32(den))
}

/// Whether the multiplication of `T` does not depend on the order of its operands.
pub open spec fn times_commutes<T: NumLike>() -> bool {
    forall|a: T, b: T|
        a.times_req(b) == b.times_req(a) && #[trigger] a.times_spec(b) == b.times_spec(a)
}

/// The negative of `a`: zero minus `a`.
pub open spec fn negate_spec<T: NumLike>(a: T) -> T {
    T::zero_spec().minus_spec(a)
}

/// Whether exchanging the operands of a subtraction of `T` negates the difference,
/// wherever both differences can be formed.
pub open spec fn minus_antisymmetric<T: NumLike>() -> bool {
    forall|a: T, b: T|
        a.minus_req(b) && b.minus_req(a) ==> #[trigger] a.minus_spec(b) == negate_spec(
            b.minus_spec(a),
        )
}

/// Whether the order of `T` is strict: of two scalars, at most one is below the
/// other.
pub open spec fn less_is_strict<T: NumLike>() -> bool {
    forall|a: T, b: T| #[trigger] a.less_spec(b) ==> !b.less_spec(a)
}

/// The order of the 32-bit and of the 64-bit integers is strict.
pub proof fn lemma_integer_order_is_strict()
    ensures
        less_is_strict::<i32>(),
        less_is_strict::<i64>(),
{
}

/// The 32-bit integers multiply in either order and subtract antisymmetrically.
pub proof fn lemma_i32_laws()
    ensures
        times_commutes::<i32>(),
        minus_antisymmetric::<i32>(),
{
    assert forall|a: i32, b: i32|
        a.times_req(b) == b.times_req(a) && #[trigger] a.times_spec(b) == b.times_spec(a) by {
        assert(a * b == b * a) by (nonlinear_arith);
    }
}

/// The 64-bit integers multiply in either order and subtract antisymmetrically.
pub proof fn lemma_i64_laws()
    ensures
        times_commutes::<i64>(),
        minus_antisymmetric::<i64>(),
{
    assert forall|a: i64, b: i64|
        a.times_req(b) == b.times_req(a) && #[trigger] a.times_spec(b) == b.times_spec(a) by {
        assert(a * b == b * a) by (nonlinear_arith);
    }
}

/// A scalar that also has the functions of analysis. Each returns what its `*_spec`
/// function says, for a scalar that does what its own specification says.
pub trait FloatLike: NumLike {
    /// `self` raised to the power `exponent`.
    open spec fn powf_spec(self, exponent: Self) -> Self {
        arbitrary()
    }

    /// The arc tangent of `self`, in radians.
    open spec fn atan_spec(self) -> Self {
        arbitrary()
    }

    /// The cosine of `self`, an angle in radians.
    open spec fn cos_spec(self) -> Self {
        arbitrary()
    }

    /// The sine of `self`, an angle in radians.
    open spec fn sin_spec(self) -> Self {
        arbitrary()
    }

    /// The ratio of a circle's circumference to its diameter.
    open spec fn pi_spec() -> Self {
        arbitrary()
    }

    /// `self` raised to the power `exponent`.
    fn powf(self, exponent: Self) -> (r: Self)
        ensures
            Self::obeys_num_spec() ==> r == self.powf_spec(exponent),
    ;

    /// The arc tangent of `self`, in radians.
    fn atan(self) -> (r: Self)
        ensures
            Self::obeys_num_spec() ==> r == self.atan_spec(),
    ;

    /// The cosine of `self`, an angle in radians.
    fn cos(self) -> (r: Self)
        ensures
            Self::obeys_num_spec() ==> r == self.cos_spec(),
    ;

    /// The sine of `self`, an angle in radians.
    fn sin(self) -> (r: Self)
        ensures
            Self::obeys_num_spec() ==> r == self.sin_spec(),
    ;

    /// The ratio of a circle's circumference to its diameter.
    fn pi() -> (r: Self)
        ensures
            Self::obeys_num_spec() ==> r == Self::pi_spec(),
    ;
}

/// The color channel that `level` stands for: the integer below 256 and not below
/// zero that is nearest to it.
pub open spec fn channel_of(level: i32) -> u8 {
    if level < 0 {
        0u8
    } else if level > 255 {
        255u8
    } else {
        level as u8
    }
}

/// The color channel that the scalar `a` stands for: `a` with its fraction cut off,
/// kept within 0 and 255.
pub open spec fn to_channel_spec<T: NumLike>(a: T) -> u8 {
    channel_of(a.to_i32_spec())
}

/// The color channel that the scalar `a` stands for.
pub fn to_channel<T: NumLike>(a: T) -> (r: u8)
    requires
        T::obeys_num_spec() ==> a.to_i32_req(),
    ensures
        T::obeys_num_spec() ==> r == to_channel_spec(a),
{
    let level = a.to_i32();
    if level < 0 {
        0
    } else if level > 255 {
        255
    } else {
        level as u8
    }
}

/// The screen coordinate of the model coordinate `v`, which runs from -1 to 1, on a
/// screen of `size` pixels: `v` plus one, times the size, less one, halved.
pub open spec fn to_screen_spec<T: NumLike>(v: T, size: u32) -> T {
    v.plus_spec(T::one_spec()).times_spec(T::from_i32_spec(size as i32)).minus_spec(
        T::one_spec(),
    ).over_spec(T::from_i32_spec(2i32))
}

/// The screen coordinate of the model coordinate `v` on a screen of `size` pixels.
pub fn to_screen<T: NumLike>(v: T, size: u32) -> (r: T)
    requires
        size <= i32::MAX,
        usable::<T>(),
    ensures
        T::obeys_num_spec() ==> r == to_screen_spec(v, size),
{
    v.plus(T::one()).times(T::from_i32(size as i32)).minus(T::one()).over(T::from_i32(2))
}

/// `rand::rngs::ThreadRng`, the handle to the random number generator of a thread;
/// nothing of it is known here.
#[verifier::external_type_specification]
#[verifier::external_body]
pub struct ExThreadRng(rand::rngs::ThreadRng);

/// `rand::thread_rng`: the random number generator of this thread.
#[verifier::external_body]
pub(crate) fn thread_rng() -> rand::rngs::ThreadRng {
    rand::thread_rng()
}

/// `Rng::gen_range` from 0 to 255: a random channel value below 255, the upper
/// bound being left out.
#[verifier::external_body]
pub(crate) fn random_channel(rng: &mut rand::rngs::ThreadRng) -> (r: u8)
    ensures
        r < 255,
{
    rng.gen_range(0, 255)
}

/// Division that rounds toward zero, as the machine's signed division does.
pub open spec fn trunc_div(a: int, b: int) -> int {
    if a >= 0 && b > 0 {
        a / b
    } else if a < 0 && b > 0 {
        -((-a) / b)
    } else if a >= 0 && b < 0 {
        -(a / (-b))
    } else {
        (-a) / (-b)
    }
}

/// Whether `r` is the integer square root of `n`: the largest integer whose square
/// does not exceed `n`.
pub open spec fn is_int_sqrt(n: int, r: int) -> bool {
    0 <= r && r * r <= n < (r + 1) * (r + 1)
}

/// The integer square root of `n`, for `n >= 0`.
pub open spec fn int_sqrt(n: int) -> int {
    choose|r: int| is_int_sqrt(n, r)
}

/// Squaring is strictly monotone on the non-negative integers.
pub proof fn lemma_square_monotone(a: int, b: int)
    requires
        0 <= a < b,
    ensures
        a * a < b * b,
{
    assert(a * a <= a * b) by (nonlinear_arith)
        requires
            0 <= a < b,
    ;
    assert(a * b < b * b) by (nonlinear_arith)
        requires
            0 <= a < b,
    ;
}

/// A number has at most one integer square root, so `int_sqrt` names it.
pub proof fn lemma_int_sqrt_unique(n: int, r: int)
    requires
        is_int_sqrt(n, r),
    ensures
        int_sqrt(n) == r,
{
    let s = int_sqrt(n);
    assert(is_int_sqrt(n, s));
    if s < r {
        lemma_square_monotone(s + 1, r + 1);
        if s + 1 < r {
            lemma_square_monotone(s + 1, r);
        }
    } else if r < s {
        lemma_square_monotone(r + 1, s + 1);
        if r + 1 < s {
            lemma_square_monotone(r + 1, s);
        }
    }
}

/// The integer square root of a non-negative `n`, found by bisection.
pub fn isqrt(n: i64) -> (r: i64)
    requires
        n >= 0,
    ensures
        is_int_sqrt(n as int, r as int),
        r == int_sqrt(n as int),
        r <= 3037000499,
{
    let mut lo: i64 = 0;
    let mut hi: i64 = 3037000500;
    assert(3037000500int * 3037000500int > i64::MAX) by (nonlinear_arith);
    while hi - lo > 1
        invariant
            0 <= lo < hi <= 3037000500,
            lo * lo <= n < hi * hi,
        decreases hi - lo,
    {
        let mid: i64 = lo + (hi - lo) / 2;
        assert(mid * mid <= 3037000500int * 3037000500int) by (nonlinear_arith)
            requires
                0 <= mid <= 3037000500,
        ;
        let sq: i128 = (mid as i128) * (mid as i128);
        if sq <= n as i128 {
            lo = mid;
        } else {
            hi = mid;
        }
    }
    proof {
        lemma_int_sqrt_unique(n as int, lo as int);
    }
    lo
}

impl NumLike for i32 {
    open spec fn obeys_num_spec() -> bool {
        true
    }

    open spec fn zero_spec() -> Self {
        0
    }

    open spec fn one_spec() -> Self {
        1
    }

    open spec fn from_i32_spec(v: i32) -> Self {
        v
    }

    open spec fn to_i32_req(self) -> bool {
        true
    }

    open spec fn to_i32_spec(self) -> i32 {
        self
    }

    open spec fn plus_req(self, rhs: Self) -> bool {
        i32::MIN <= self + rhs <= i32::MAX
    }

    open spec fn plus_spec(self, rhs: Self) -> Self {
        (self + rhs) as i32
    }

    open spec fn minus_req(self, rhs: Self) -> bool {
        i32::MIN <= self - rhs <= i32::MAX
    }

    open spec fn minus_spec(self, rhs: Self) -> Self {
        (self - rhs) as i32
    }

    open spec fn times_req(self, rhs: Self) -> bool {
        i32::MIN <= self * rhs <= i32::MAX
    }

    open spec fn times_spec(self, rhs: Self) -> Self {
        (self * rhs) as i32
    }

    open spec fn over_req(self, rhs: Self) -> bool {
        rhs != 0 && !(self == i32::MIN && rhs == -1)
    }

    open spec fn over_spec(self, rhs: Self) -> Self {
        trunc_div(self as int, rhs as int) as i32
    }

    open spec fn sqrt_req(self) -> bool {
        self >= 0
    }

    open spec fn sqrt_spec(self) -> Self {
        int_sqrt(self as int) as i32
    }

    open spec fn equals_spec(self, rhs: Self) -> bool {
        self == rhs
    }

    open spec fn less_spec(self, rhs: Self) -> bool {
        self < rhs
    }

    fn zero() -> (r: Self) {
        0
    }

    fn one() -> (r: Self) {
        1
    }

    fn from_i32(v: i32) -> (r: Self) {
        v
    }

    fn to_i32(self) -> (r: i32) {
        self
    }

    fn plus(self, rhs: Self) -> (r: Self) {
        self + rhs
    }

    fn minus(self, rhs: Self) -> (r: Self) {
        self - rhs
    }

    fn times(self, rhs: Self) -> (r: Self) {
        self * rhs
    }

    fn over(self, rhs: Self) -> (r: Self) {
        quotient(self as i64, rhs as i64) as i32
    }

    fn sqrt(self) -> (r: Self) {
        let root: i64 = isqrt(self as i64);
        proof {
            lemma_square_monotone(46340, 46341);
            if root > 46340 {
                lemma_square_monotone(46340, root as int);
            }
        }
        root as i32
    }

    fn equals(self, rhs: Self) -> (r: bool) {
        self == rhs
    }

    fn less(self, rhs: Self) -> (r: bool) {
        self < rhs
    }
}

impl NumLike for i64 {
    open spec fn obeys_num_spec() -> bool {
        true
    }

    open spec fn zero_spec() -> Self {
        0
    }

    open spec fn one_spec() -> Self {
        1
    }

    open spec fn from_i32_spec(v: i32) -> Self {
        v as i64
    }

    open spec fn to_i32_req(self) -> bool {
        i32::MIN <= self <= i32::MAX
    }

    open spec fn to_i32_spec(self) -> i32 {
        self as i32
    }

    open spec fn plus_req(self, rhs: Self) -> bool {
        i64::MIN <= self + rhs <= i64::MAX
    }

    open spec fn plus_spec(self, rhs: Self) -> Self {
        (self + rhs) as i64
    }

    open spec fn minus_req(self, rhs: Self) -> bool {
        i64::MIN <= self - rhs <= i64::MAX
    }

    open spec fn minus_spec(self, rhs: Self) -> Self {
        (self - rhs) as i64
    }

    open spec fn times_req(self, rhs: Self) -> bool {
        i64::MIN <= self * rhs <= i64::MAX
    }

    open spec fn times_spec(self, rhs: Self) -> Self {
        (self * rhs) as i64
    }

    open spec fn over_req(self, rhs: Self) -> bool {
        rhs != 0 && !(self == i64::MIN && rhs == -1)
    }

    open spec fn over_spec(self, rhs: Self) -> Self {
        trunc_div(self as int, rhs as int) as i64
    }

    open spec fn sqrt_req(self) -> bool {
        self >= 0
    }

    open spec fn sqrt_spec(self) -> Self {
        int_sqrt(self as int) as i64
    }

    open spec fn equals_spec(self, rhs: Self) -> bool {
        self == rhs
    }

    open spec fn less_spec(self, rhs: Self) -> bool {
        self < rhs
    }

    fn zero() -> (r: Self) {
        0
    }

    fn one() -> (r: Self) {
        1
    }

    fn from_i32(v: i32) -> (r: Self) {
        v as i64
    }

    fn to_i32(self) -> (r: i32) {
        self as i32
    }

    fn plus(self, rhs: Self) -> (r: Self) {
        self + rhs
    }

    fn minus(self, rhs: Self) -> (r: Self) {
        self - rhs
    }

    fn times(self, rhs: Self) -> (r: Self) {
        self * rhs
    }

    fn over(self, rhs: Self) -> (r: Self) {
        quotient(self, rhs)
    }

    fn sqrt(self) -> (r: Self) {
        isqrt(self)
    }

    fn equals(self, rhs: Self) -> (r: bool) {
        self == rhs
    }

    fn less(self, rhs: Self) -> (r: bool) {
        self < rhs
    }
}

/// `a / b`, rounded toward zero.
pub fn quotient(a: i64, b: i64) -> (r: i64)
    requires
        b != 0,
        !(a == i64::MIN && b == -1),
    ensures
        r == trunc_div(a as int, b as int),
{
    let wide_a: i128 = a as i128;
    let wide_b: i128 = b as i128;
    let abs_a: i128 = if wide_a < 0 { -wide_a } else { wide_a };
    let abs_b: i128 = if wide_b < 0 { -wide_b } else { wide_b };
    let q: i128 = abs_a / abs_b;
    assert(0 <= q <= abs_a && (abs_b >= 2 ==> 2 * q <= abs_a)) by (nonlinear_arith)
        requires
            q == abs_a / abs_b,
            abs_a >= 0,
            abs_b > 0,
    ;
    if (a < 0) != (b < 0) {
        (-q) as i64
    } else {
        q as i64
    }
}

/// The larger of two scalars; `b` where neither is below the other.
pub open spec fn maxf_spec<T: NumLike>(a: T, b: T) -> T {
    if b.less_spec(a) {
        a
    } else {
        b
    }
}

/// The larger of two scalars; `b` where neither is below the other.
pub fn maxf<T: NumLike>(a: T, b: T) -> (r: T)
    ensures
        T::obeys_num_spec() ==> r == (if b.less_spec(a) { a } else { b }),
        r == a || r == b,
{
    if b.less(a) {
        a
    } else {
        b
    }
}

/// The smaller of two scalars; `b` where neither is below the other.
pub fn minf<T: NumLike>(a: T, b: T) -> (r: T)
    ensures
        T::obeys_num_spec() ==> r == (if a.less_spec(b) { a } else { b }),
        r == a || r == b,
{
    if a.less(b) {
        a
    } else {
        b
    }
}

/// The index of the last occurrence of `c` in `s`, or -1 where there is none.
pub open spec fn rfind_spec(s: Seq<char>, c: char) -> int
    decreases s.len(),
{
    if s.len() == 0 {
        -1
    } else if s.last() == c {
        s.len() - 1
    } else {
        rfind_spec(s.drop_last(), c)
    }
}

/// What `str::to_lowercase` makes of a string.
pub uninterp spec fn lowercase_spec(s: Seq<char>) -> Seq<char>;

/// `str::to_lowercase`: the lowercase equivalent of the string, by the Unicode
/// rules that std implements.
#[verifier::external_body]
fn lowercase(s: &str) -> (r: String)
    ensures
        r@ == lowercase_spec(s@),
{
    s.to_lowercase()
}

/// Where `c` does not occur in `s` from index `i` on, the last occurrence in `s` is
/// the last occurrence among the first `i` characters.
pub proof fn lemma_rfind_skips_tail(s: Seq<char>, c: char, i: int)
    requires
        0 <= i <= s.len(),
        forall|j: int| i <= j < s.len() ==> s[j] != c,
    ensures
        rfind_spec(s, c) == rfind_spec(s.take(i), c),
    decreases s.len() - i,
{
    if i < s.len() {
        assert(s.last() != c);
        lemma_rfind_skips_tail(s.drop_last(), c, i);
        assert(s.drop_last().take(i) =~= s.take(i));
    } else {
        assert(s.take(i) =~= s);
    }
}

/// What `splitext` returns for the file name `name`: the part before the last dot, and
/// the rest, from the dot on, in lowercase. A name without a dot has no extension.
pub open spec fn splitext_spec(name: Seq<char>) -> (Seq<char>, Seq<char>) {
    let dot = rfind_spec(name, '.');
    if dot < 0 {
        (name, Seq::<char>::empty())
    } else {
        (name.subrange(0, dot), lowercase_spec(name.subrange(dot, name.len() as int)))
    }
}

/// Splits a file name at its last dot into the stem and the extension, and puts the
/// extension, which starts with the dot, into lowercase.
pub fn splitext(filename: &str) -> (r: (String, String))
    ensures
        (r.0@, r.1@) == splitext_spec(filename@),
{
    let len = filename.unicode_len();
    let mut i: usize = len;
    while i > 0 && filename.get_char(i - 1) != '.'
        invariant
            i <= len,
            len == filename@.len(),
            forall|j: int| i <= j < len ==> filename@[j] != '.',
        decreases i,
    {
        i -= 1;
    }
    proof {
        lemma_rfind_skips_tail(filename@, '.', i as int);
        if i > 0 {
            assert(filename@.take(i as int).last() == '.');
        }
    }
    if i == 0 {
        (String::from_str(filename), String::new())
    } else {
        let stem = filename.substring_char(0, i - 1);
        let ext = filename.substring_char(i - 1, len);
        (String::from_str(stem), lowercase(ext))
    }
}

/// Mirroring an image in place.
pub trait RgbaImageExt {
    /// Mirrors the image left to right.
    fn flip_horizontal(&mut self);

    /// Mirrors the image top to bottom.
    fn flip_vertical(&mut self);
}

impl RgbaImageExt for Canvas {
    fn flip_horizontal(&mut self)
        ensures
            is_flipped_horizontal(*old(self), *final(self)),
    {
        let width = self.width();
        let height = self.height();
        let mut y: u32 = 0;
        while y < height
            invariant
                y <= height,
                width == old(self).spec_width(),
                height == old(self).spec_height(),
                self.spec_width() == width,
                self.spec_height() == height,
                forall|a: int, b: int|
                    old(self).contains(a, b) ==> (#[trigger] self.color_at(a, b)) == (if b < y {
                        old(self).color_at(width - 1 - a, b)
                    } else {
                        old(self).color_at(a, b)
                    }),
            decreases height - y,
        {
            let mut x: u32 = 0;
            while x < width / 2
                invariant
                    x <= width / 2,
                    y < height,
                    width == old(self).spec_width(),
                    height == old(self).spec_height(),
                    self.spec_width() == width,
                    self.spec_height() == height,
                    forall|a: int, b: int|
                        old(self).contains(a, b) ==> (#[trigger] self.color_at(a, b)) == (if b < y
                            || (b == y && (a < x || a > width - 1 - x)) {
                            old(self).color_at(width - 1 - a, b)
                        } else {
                            old(self).color_at(a, b)
                        }),
                decreases width / 2 - x,
            {
                let _ = self.swap(x, y, width - 1 - x, y);
                x += 1;
            }
            y += 1;
        }
    }

    fn flip_vertical(&mut self)
        ensures
            is_flipped_vertical(*old(self), *final(self)),
    {
        let width = self.width();
        let height = self.height();
        let mut x: u32 = 0;
        while x < width
            invariant
                x <= width,
                width == old(self).spec_width(),
                height == old(self).spec_height(),
                self.spec_width() == width,
                self.spec_height() == height,
                forall|a: int, b: int|
                    old(self).contains(a, b) ==> (#[trigger] self.color_at(a, b)) == (if a < x {
                        old(self).color_at(a, height - 1 - b)
                    } else {
                        old(self).color_at(a, b)
                    }),
            decreases width - x,
        {
            let mut y: u32 = 0;
            while y < height / 2
                invariant
                    y <= height / 2,
                    x < width,
                    width == old(self).spec_width(),
                    height == old(self).spec_height(),
                    self.spec_width() == width,
                    self.spec_height() == height,
                    forall|a: int, b: int|
                        old(self).contains(a, b) ==> (#[trigger] self.color_at(a, b)) == (if a < x
                            || (a == x && (b < y || b > height - 1 - y)) {
                            old(self).color_at(a, height - 1 - b)
                        } else {
                            old(self).color_at(a, b)
                        }),
                decreases height / 2 - y,
            {
                let _ = self.swap(x, y, x, height - 1 - y);
                y += 1;
            }
            x += 1;
        }
    }
}

} // verus!
