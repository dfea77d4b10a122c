//! Fixed-size vectors over a scalar.
use crate::error::RenderError;
use crate::util::{minus_antisymmetric, negate_spec, ops_total, times_commutes, usable, NumLike};
use vstd::prelude::*;

verus! {

/// A vector of `N` scalars.
#[derive(Debug, PartialEq, Clone, Copy)]
pub struct Vec_<T: NumLike, const N: usize> {
    pub data: [T; N],
}

pub type Vec2<T> = Vec_<T, 2>;

pub type Vec3<T> = Vec_<T, 3>;

pub type Vec4<T> = Vec_<T, 4>;

pub type Vec2i = Vec2<i32>;

pub type Vec3i = Vec3<i32>;

impl<T: NumLike, const N: usize> View for Vec_<T, N> {
    type V = Seq<T>;

    open spec fn view(&self) -> Seq<T> {
        self.data@
    }
}

/// Whether every operation in the first `k` terms of the dot product of `a` and `b`
/// can be carried out.
pub open spec fn dot_req<T: NumLike>(a: Seq<T>, b: Seq<T>, k: int) -> bool
    decreases k,
{
    if k <= 0 {
        true
    } else {
        &&& dot_req(a, b, k - 1)
        &&& a[k - 1].times_req(b[k - 1])
        &&& dot_spec(a, b, k - 1).plus_req(a[k - 1].times_spec(b[k - 1]))
    }
}

/// The sum of the first `k` products `a[i] * b[i]`, added up from the left.
pub open spec fn dot_spec<T: NumLike>(a: Seq<T>, b: Seq<T>, k: int) -> T
    decreases k,
{
    if k <= 0 {
        T::zero_spec()
    } else {
        dot_spec(a, b, k - 1).plus_spec(a[k - 1].times_spec(b[k - 1]))
    }
}

/// Whether the Euclidean norm of `a` can be computed.
pub open spec fn norm_req<T: NumLike>(a: Seq<T>) -> bool {
    dot_req(a, a, a.len() as int) && dot_spec(a, a, a.len() as int).sqrt_req()
}

/// The Euclidean norm of `a`: the square root of its dot product with itself.
pub open spec fn norm_spec<T: NumLike>(a: Seq<T>) -> T {
    dot_spec(a, a, a.len() as int).sqrt_spec()
}

/// Whether `a` can be normalized: its norm can be computed and, unless that norm is
/// zero, each component can be divided by it.
pub open spec fn normalize_req<T: NumLike>(a: Seq<T>) -> bool {
    &&& norm_req(a)
    &&& !norm_spec(a).equals_spec(T::zero_spec()) ==> forall|i: int|
        0 <= i < a.len() ==> (#[trigger] a[i]).over_req(norm_spec(a))
}

/// `a` with each component divided by the norm of `a`.
pub open spec fn normalize_spec<T: NumLike>(a: Seq<T>) -> Seq<T> {
    Seq::new(a.len(), |i: int| a[i].over_spec(norm_spec(a)))
}

/// Whether the cross product of `a` and `b` can be computed.
pub open spec fn cross_req<T: NumLike>(a: Seq<T>, b: Seq<T>) -> bool {
    &&& a[1].times_req(b[2])
    &&& a[2].times_req(b[1])
    &&& a[1].times_spec(b[2]).minus_req(a[2].times_spec(b[1]))
    &&& a[2].times_req(b[0])
    &&& a[0].times_req(b[2])
    &&& a[2].times_spec(b[0]).minus_req(a[0].times_spec(b[2]))
    &&& a[0].times_req(b[1])
    &&& a[1].times_req(b[0])
    &&& a[0].times_spec(b[1]).minus_req(a[1].times_spec(b[0]))
}

/// The cross product of two vectors of three components.
pub open spec fn cross_spec<T: NumLike>(a: Seq<T>, b: Seq<T>) -> Seq<T> {
    seq![
        a[1].times_spec(b[2]).minus_spec(a[2].times_spec(b[1])),
        a[2].times_spec(b[0]).minus_spec(a[0].times_spec(b[2])),
        a[0].times_spec(b[1]).minus_spec(a[1].times_spec(b[0])),
    ]
}

/// Whether `a[i] + b[i]` can be formed for each component.
pub open spec fn plus_req_all<T: NumLike>(a: Seq<T>, b: Seq<T>) -> bool {
    forall|i: int| 0 <= i < a.len() ==> (#[trigger] a[i]).plus_req(b[i])
}

/// Whether `a[i] - b[i]` can be formed for each component.
pub open spec fn minus_req_all<T: NumLike>(a: Seq<T>, b: Seq<T>) -> bool {
    forall|i: int| 0 <= i < a.len() ==> (#[trigger] a[i]).minus_req(b[i])
}

/// Whether `a[i] * b[i]` can be formed for each component.
pub open spec fn times_req_all<T: NumLike>(a: Seq<T>, b: Seq<T>) -> bool {
    forall|i: int| 0 <= i < a.len() ==> (#[trigger] a[i]).times_req(b[i])
}

/// Whether `a[i] / b[i]` can be formed for each component.
pub open spec fn over_req_all<T: NumLike>(a: Seq<T>, b: Seq<T>) -> bool {
    forall|i: int| 0 <= i < a.len() ==> (#[trigger] a[i]).over_req(b[i])
}

/// The sum of `a` and `b`, component by component.
pub open spec fn plus_spec_all<T: NumLike>(a: Seq<T>, b: Seq<T>) -> Seq<T> {
    Seq::new(a.len(), |i: int| a[i].plus_spec(b[i]))
}

/// The difference of `a` and `b`, component by component.
pub open spec fn minus_spec_all<T: NumLike>(a: Seq<T>, b: Seq<T>) -> Seq<T> {
    Seq::new(a.len(), |i: int| a[i].minus_spec(b[i]))
}

/// The product of `a` and `b`, component by component.
pub open spec fn times_spec_all<T: NumLike>(a: Seq<T>, b: Seq<T>) -> Seq<T> {
    Seq::new(a.len(), |i: int| a[i].times_spec(b[i]))
}

/// The quotient of `a` and `b`, component by component.
pub open spec fn over_spec_all<T: NumLike>(a: Seq<T>, b: Seq<T>) -> Seq<T> {
    Seq::new(a.len(), |i: int| a[i].over_spec(b[i]))
}

/// The sequence of `n` copies of `k`.
pub open spec fn repeat<T>(k: T, n: nat) -> Seq<T> {
    Seq::new(n, |i: int| k)
}

/// The three points of a triangle, each as the sequence of its components.
pub open spec fn points_view<T: NumLike, const N: usize>(pts: [Vec_<T, N>; 3]) -> Seq<Seq<T>> {
    Seq::new(3, |i: int| pts@[i]@)
}

/// `v` lifted to `n` components: the components of `v` as far as they go, then `fill`.
pub open spec fn embed_spec<T>(v: Seq<T>, fill: T, n: nat) -> Seq<T> {
    Seq::new(
        n,
        |i: int|
            if i < v.len() {
                v[i]
            } else {
                fill
            },
    )
}

/// Embeds a vector into a larger one, filling the new components with `fill`.
pub fn embed<T: NumLike, const N1: usize, const N2: usize>(v: &Vec_<T, N2>, fill: T) -> (r: Vec_<
    T,
    N1,
>)
    ensures
        r@ == embed_spec(v@, fill, N1 as nat),
{
    let mut data: [T; N1] = [fill;N1];
    let mut i: usize = 0;
    while i < N1 && i < N2
        invariant
            forall|j: int| 0 <= j < i ==> data@[j] == v@[j],
            forall|j: int| i <= j < N1 ==> data@[j] == fill,
            i <= N1,
            i <= N2,
        decreases N1 - i,
    {
        data[i] = v.data[i];
        i += 1;
    }
    let r = Vec_ { data };
    assert(r@ =~= embed_spec(v@, fill, N1 as nat));
    r
}

/// Projects a vector onto its first `N1` components.
pub fn proj<T: NumLike, const N1: usize, const N2: usize>(v: &Vec_<T, N2>) -> (r: Vec_<T, N1>)
    requires
        N1 <= N2,
    ensures
        r@ == v@.take(N1 as int),
{
    let mut data: [T; N1] = [T::zero();N1];
    let mut i: usize = 0;
    while i < N1
        invariant
            forall|j: int| 0 <= j < i ==> data@[j] == v@[j],
            i <= N1 <= N2,
        decreases N1 - i,
    {
        data[i] = v.data[i];
        i += 1;
    }
    let r = Vec_ { data };
    assert(r@ =~= v@.take(N1 as int));
    r
}

impl<T: NumLike, const N: usize> Vec_<T, N> {
    /// The vector whose components are all zero.
    pub fn new() -> (r: Self)
        ensures
            T::obeys_num_spec() ==> r@ == Seq::new(N as nat, |i: int| T::zero_spec()),
    {
        let r = Vec_ { data: [T::zero();N] };
        assert(T::obeys_num_spec() ==> r@ =~= Seq::new(N as nat, |i: int| T::zero_spec()));
        r
    }

    /// The vector with the components `arr`.
    pub fn from(arr: [T; N]) -> (r: Self)
        ensures
            r.data == arr,
    {
        Vec_ { data: arr }
    }

    /// The vector made of the first `N` elements of `vec`, if it has that many.
    pub fn from_vec(vec: Vec<T>) -> (r: Result<Self, RenderError>)
        ensures
            vec.len() >= N ==> (r matches Ok(v) && v@ == vec@.take(N as int)),
            vec.len() < N ==> r == Err::<Self, RenderError>(RenderError::DimensionMismatch),
    {
        if vec.len() < N {
            return Err(RenderError::DimensionMismatch);
        }
        let mut data: [T; N] = [T::zero();N];
        let mut i: usize = 0;
        while i < N
            invariant
                forall|j: int| 0 <= j < i ==> data@[j] == vec@[j],
                i <= N <= vec.len(),
            decreases N - i,
        {
            data[i] = vec[i];
            i += 1;
        }
        let r = Vec_ { data };
        assert(r@ =~= vec@.take(N as int));
        Ok(r)
    }

    /// The vector whose components are all zero.
    pub fn zero() -> (r: Self)
        ensures
            T::obeys_num_spec() ==> r@ == Seq::new(N as nat, |i: int| T::zero_spec()),
    {
        Self::new()
    }

    /// The dot product with `other`.
    pub fn dot(&self, other: &Self) -> (r: T)
        requires
            T::obeys_num_spec() ==> dot_req(self@, other@, N as int),
        ensures
            T::obeys_num_spec() ==> r == dot_spec(self@, other@, N as int),
    {
        let mut sum = T::zero();
        let mut i: usize = 0;
        while i < N
            invariant
                i <= N,
                T::obeys_num_spec() ==> dot_req(self@, other@, N as int),
                T::obeys_num_spec() ==> dot_req(self@, other@, i as int),
                T::obeys_num_spec() ==> sum == dot_spec(self@, other@, i as int),
            decreases N - i,
        {
            proof {
                if T::obeys_num_spec() {
                    lemma_dot_req_prefix(self@, other@, N as int, i + 1);
                }
            }
            sum = sum.plus(self.data[i].times(other.data[i]));
            i += 1;
        }
        sum
    }

    /// The Euclidean norm.
    pub fn norm(&self) -> (r: T)
        requires
            T::obeys_num_spec() ==> norm_req(self@),
        ensures
            T::obeys_num_spec() ==> r == norm_spec(self@),
    {
        self.dot(self).sqrt()
    }

    /// Divides each component by the norm, in place, and returns the new vector.
    /// A vector of norm zero is left as it is and reported.
    pub fn normalize(&mut self) -> (r: Result<Self, RenderError>)
        requires
            T::obeys_num_spec() ==> normalize_req(old(self)@),
        ensures
            r matches Ok(v) ==> v == *final(self),
            r matches Err(e) ==> e == RenderError::ZeroNorm && *final(self) == *old(self),
            T::obeys_num_spec() ==> (r is Err <==> norm_spec(old(self)@).equals_spec(
                T::zero_spec(),
            )),
            T::obeys_num_spec() && r is Ok ==> final(self)@ == normalize_spec(old(self)@),
    {
        let norm = self.norm();
        if norm.equals(T::zero()) {
            return Err(RenderError::ZeroNorm);
        }
        let mut i: usize = 0;
        while i < N
            invariant
                i <= N,
                T::obeys_num_spec() ==> norm == norm_spec(old(self)@),
                T::obeys_num_spec() ==> forall|j: int|
                    0 <= j < N ==> (#[trigger] old(self)@[j]).over_req(norm),
                forall|j: int| i <= j < N ==> self@[j] == old(self)@[j],
                T::obeys_num_spec() ==> forall|j: int|
                    0 <= j < i ==> self@[j] == old(self)@[j].over_spec(norm),
            decreases N - i,
        {
            self.data[i] = self.data[i].over(norm);
            i += 1;
        }
        assert(T::obeys_num_spec() ==> self@ =~= normalize_spec(old(self)@));
        Ok(*self)
    }

    /// The components, in order.
    pub fn to_vec(&self) -> (r: Vec<T>)
        ensures
            r@ == self@,
    {
        let mut rs: Vec<T> = Vec::with_capacity(N);
        let mut i: usize = 0;
        while i < N
            invariant
                i <= N,
                rs@ == self@.take(i as int),
            decreases N - i,
        {
            rs.push(self.data[i]);
            assert(rs@ =~= self@.take(i + 1));
            i += 1;
        }
        assert(rs@ =~= self@);
        rs
    }

    /// The component at index `i`.
    pub fn get(&self, i: usize) -> (r: T)
        requires
            i < N,
        ensures
            r == self@[i as int],
    {
        self.data[i]
    }

    /// Replaces the component at index `i` by `t`.
    pub fn set(&mut self, i: usize, t: T)
        requires
            i < N,
        ensures
            final(self)@ == old(self)@.update(i as int, t),
    {
        self.data[i] = t;
    }

    /// The sum with `rhs`, component by component.
    pub fn plus(&self, rhs: &Self) -> (r: Self)
        requires
            T::obeys_num_spec() ==> plus_req_all(self@, rhs@),
        ensures
            T::obeys_num_spec() ==> r@ == plus_spec_all(self@, rhs@),
    {
        let mut rs = *self;
        let mut i: usize = 0;
        while i < N
            invariant
                i <= N,
                T::obeys_num_spec() ==> plus_req_all(self@, rhs@),
                forall|j: int| i <= j < N ==> rs@[j] == self@[j],
                T::obeys_num_spec() ==> forall|j: int|
                    0 <= j < i ==> rs@[j] == self@[j].plus_spec(rhs@[j]),
            decreases N - i,
        {
            rs.data[i] = self.data[i].plus(rhs.data[i]);
            i += 1;
        }
        assert(T::obeys_num_spec() ==> rs@ =~= plus_spec_all(self@, rhs@));
        rs
    }

    /// The difference with `rhs`, component by component.
    pub fn minus(&self, rhs: &Self) -> (r: Self)
        requires
            T::obeys_num_spec() ==> minus_req_all(self@, rhs@),
        ensures
            T::obeys_num_spec() ==> r@ == minus_spec_all(self@, rhs@),
    {
        let mut rs = *self;
        let mut i: usize = 0;
        while i < N
            invariant
                i <= N,
                T::obeys_num_spec() ==> minus_req_all(self@, rhs@),
                forall|j: int| i <= j < N ==> rs@[j] == self@[j],
                T::obeys_num_spec() ==> forall|j: int|
                    0 <= j < i ==> rs@[j] == self@[j].minus_spec(rhs@[j]),
            decreases N - i,
        {
            rs.data[i] = self.data[i].minus(rhs.data[i]);
            i += 1;
        }
        assert(T::obeys_num_spec() ==> rs@ =~= minus_spec_all(self@, rhs@));
        rs
    }

    /// The product with `rhs`, component by component.
    pub fn times(&self, rhs: &Self) -> (r: Self)
        requires
            T::obeys_num_spec() ==> times_req_all(self@, rhs@),
        ensures
            T::obeys_num_spec() ==> r@ == times_spec_all(self@, rhs@),
    {
        let mut rs = *self;
        let mut i: usize = 0;
        while i < N
            invariant
                i <= N,
                T::obeys_num_spec() ==> times_req_all(self@, rhs@),
                forall|j: int| i <= j < N ==> rs@[j] == self@[j],
                T::obeys_num_spec() ==> forall|j: int|
                    0 <= j < i ==> rs@[j] == self@[j].times_spec(rhs@[j]),
            decreases N - i,
        {
            rs.data[i] = self.data[i].times(rhs.data[i]);
            i += 1;
        }
        assert(T::obeys_num_spec() ==> rs@ =~= times_spec_all(self@, rhs@));
        rs
    }

    /// The quotient by `rhs`, component by component.
    pub fn over(&self, rhs: &Self) -> (r: Self)
        requires
            T::obeys_num_spec() ==> over_req_all(self@, rhs@),
        ensures
            T::obeys_num_spec() ==> r@ == over_spec_all(self@, rhs@),
    {
        let mut rs = *self;
        let mut i: usize = 0;
        while i < N
            invariant
                i <= N,
                T::obeys_num_spec() ==> over_req_all(self@, rhs@),
                forall|j: int| i <= j < N ==> rs@[j] == self@[j],
                T::obeys_num_spec() ==> forall|j: int|
                    0 <= j < i ==> rs@[j] == self@[j].over_spec(rhs@[j]),
            decreases N - i,
        {
            rs.data[i] = self.data[i].over(rhs.data[i]);
            i += 1;
        }
        assert(T::obeys_num_spec() ==> rs@ =~= over_spec_all(self@, rhs@));
        rs
    }

    /// Each component multiplied by `k`.
    pub fn scale(&self, k: T) -> (r: Self)
        requires
            T::obeys_num_spec() ==> times_req_all(self@, repeat(k, N as nat)),
        ensures
            T::obeys_num_spec() ==> r@ == times_spec_all(self@, repeat(k, N as nat)),
    {
        let mut rs = *self;
        let mut i: usize = 0;
        while i < N
            invariant
                i <= N,
                T::obeys_num_spec() ==> times_req_all(self@, repeat(k, N as nat)),
                forall|j: int| i <= j < N ==> rs@[j] == self@[j],
                T::obeys_num_spec() ==> forall|j: int|
                    0 <= j < i ==> rs@[j] == self@[j].times_spec(k),
            decreases N - i,
        {
            assert(repeat(k, N as nat)[i as int] == k);
            rs.data[i] = self.data[i].times(k);
            i += 1;
        }
        assert(T::obeys_num_spec() ==> rs@ =~= times_spec_all(self@, repeat(k, N as nat)));
        rs
    }

    /// Each component divided by `k`.
    pub fn shrink(&self, k: T) -> (r: Self)
        requires
            T::obeys_num_spec() ==> over_req_all(self@, repeat(k, N as nat)),
        ensures
            T::obeys_num_spec() ==> r@ == over_spec_all(self@, repeat(k, N as nat)),
    {
        let mut rs = *self;
        let mut i: usize = 0;
        while i < N
            invariant
                i <= N,
                T::obeys_num_spec() ==> over_req_all(self@, repeat(k, N as nat)),
                forall|j: int| i <= j < N ==> rs@[j] == self@[j],
                T::obeys_num_spec() ==> forall|j: int|
                    0 <= j < i ==> rs@[j] == self@[j].over_spec(k),
            decreases N - i,
        {
            assert(repeat(k, N as nat)[i as int] == k);
            rs.data[i] = self.data[i].over(k);
            i += 1;
        }
        assert(T::obeys_num_spec() ==> rs@ =~= over_spec_all(self@, repeat(k, N as nat)));
        rs
    }
}

/// Where the whole dot product can be computed, so can each prefix of it.
pub proof fn lemma_dot_req_prefix<T: NumLike>(a: Seq<T>, b: Seq<T>, n: int, k: int)
    requires
        dot_req(a, b, n),
        k <= n,
    ensures
        dot_req(a, b, k),
    decreases n - k,
{
    if k < n {
        lemma_dot_req_prefix(a, b, n, k + 1);
    }
}

/// The cross product of two vectors of three components.
pub fn cross<T: NumLike>(v0: &Vec3<T>, v1: &Vec3<T>) -> (r: Vec3<T>)
    requires
        T::obeys_num_spec() ==> cross_req(v0@, v1@),
    ensures
        T::obeys_num_spec() ==> r@ == cross_spec(v0@, v1@),
{
    let a = &v0.data;
    let b = &v1.data;
    let r = Vec_ {
        data: [
            a[1].times(b[2]).minus(a[2].times(b[1])),
            a[2].times(b[0]).minus(a[0].times(b[2])),
            a[0].times(b[1]).minus(a[1].times(b[0])),
        ],
    };
    assert(T::obeys_num_spec() ==> r@ =~= cross_spec(v0@, v1@));
    r
}

/// The dot product does not depend on the order of its operands: over a scalar whose
/// multiplication commutes, `a.dot(b)` can be computed exactly when `b.dot(a)` can, and
/// the two are equal.
pub proof fn lemma_dot_commutes<T: NumLike>(a: Seq<T>, b: Seq<T>, k: int)
    requires
        times_commutes::<T>(),
    ensures
        dot_req(a, b, k) == dot_req(b, a, k),
        dot_spec(a, b, k) == dot_spec(b, a, k),
    decreases k,
{
    if k > 0 {
        lemma_dot_commutes(a, b, k - 1);
        assert(a[k - 1].times_spec(b[k - 1]) == b[k - 1].times_spec(a[k - 1]));
        assert(a[k - 1].times_req(b[k - 1]) == b[k - 1].times_req(a[k - 1]));
    }
}

/// The cross product is anticommutative: over a scalar whose multiplication commutes
/// and whose subtraction is antisymmetric, each component of `a x b` is the negative
/// of that component of `b x a`, where both products can be computed.
pub proof fn lemma_cross_anticommutes<T: NumLike>(a: Seq<T>, b: Seq<T>)
    requires
        a.len() == 3,
        b.len() == 3,
        times_commutes::<T>(),
        minus_antisymmetric::<T>(),
        cross_req(a, b),
        cross_req(b, a),
    ensures
        forall|i: int| 0 <= i < 3 ==> cross_spec(a, b)[i] == negate_spec(cross_spec(b, a)[i]),
{
    assert(a[1].times_spec(b[2]) == b[2].times_spec(a[1]));
    assert(a[2].times_spec(b[1]) == b[1].times_spec(a[2]));
    assert(a[2].times_spec(b[0]) == b[0].times_spec(a[2]));
    assert(a[0].times_spec(b[2]) == b[2].times_spec(a[0]));
    assert(a[0].times_spec(b[1]) == b[1].times_spec(a[0]));
    assert(a[1].times_spec(b[0]) == b[0].times_spec(a[1]));
    let p = a[1].times_spec(b[2]);
    let q = a[2].times_spec(b[1]);
    assert(p.minus_spec(q) == negate_spec(q.minus_spec(p)));
    let r = a[2].times_spec(b[0]);
    let s = a[0].times_spec(b[2]);
    assert(r.minus_spec(s) == negate_spec(s.minus_spec(r)));
    let t = a[0].times_spec(b[1]);
    let u = a[1].times_spec(b[0]);
    assert(t.minus_spec(u) == negate_spec(u.minus_spec(t)));
}

/// Over a scalar whose operations are total, every operation on vectors can be
/// carried out.
pub proof fn lemma_total_vectors<T: NumLike>(a: Seq<T>, b: Seq<T>, k: int)
    requires
        ops_total::<T>(),
    ensures
        dot_req(a, b, k),
        norm_req(a),
        normalize_req(a),
        cross_req(a, b),
        plus_req_all(a, b),
        minus_req_all(a, b),
        times_req_all(a, b),
        over_req_all(a, b),
    decreases k,
{
    lemma_total_dot(a, b, k);
    lemma_total_dot(a, a, a.len() as int);
}

/// Over a scalar whose operations are total, every dot product can be computed.
pub proof fn lemma_total_dot<T: NumLike>(a: Seq<T>, b: Seq<T>, k: int)
    requires
        ops_total::<T>(),
    ensures
        dot_req(a, b, k),
    decreases k,
{
    if k > 0 {
        lemma_total_dot(a, b, k - 1);
    }
}

impl<T: NumLike> Vec_<T, 3> {
    /// The vector rounded to integers: each component plus one half, its fraction
    /// cut off.
    pub fn to_vec3i(&self) -> (r: Vec3i)
        requires
            usable::<T>(),
        ensures
            T::obeys_num_spec() ==> r@ == Seq::new(3, |i: int| round_spec(self@[i])),
    {
        let r = Vec_ { data: [round(self.data[0]), round(self.data[1]), round(self.data[2])] };
        assert(T::obeys_num_spec() ==> r@ =~= Seq::new(3, |i: int| round_spec(self@[i])));
        r
    }

    /// The vector of the scalars that stand for the integers of `v`.
    pub fn from_vec3i(v: &Vec3i) -> (r: Self)
        ensures
            T::obeys_num_spec() ==> r@ == Seq::new(3, |i: int| T::from_i32_spec(v@[i])),
    {
        let r = Vec_ {
            data: [T::from_i32(v.data[0]), T::from_i32(v.data[1]), T::from_i32(v.data[2])],
        };
        assert(T::obeys_num_spec() ==> r@ =~= Seq::new(3, |i: int| T::from_i32_spec(v@[i])));
        r
    }
}

/// One half, formed in `T` as one over two.
pub open spec fn half_spec<T: NumLike>() -> T {
    T::from_i32_spec(1i32).over_spec(T::from_i32_spec(2i32))
}

/// `a` rounded to an integer: `a` plus one half, its fraction cut off.
pub open spec fn round_spec<T: NumLike>(a: T) -> i32 {
    a.plus_spec(half_spec::<T>()).to_i32_spec()
}

/// `a` rounded to an integer: `a` plus one half, its fraction cut off.
pub fn round<T: NumLike>(a: T) -> (r: i32)
    requires
        usable::<T>(),
    ensures
        T::obeys_num_spec() ==> r == round_spec(a),
{
    let half = T::from_i32(1).over(T::from_i32(2));
    a.plus(half).to_i32()
}

/// The vector with the components `s`, where `s` has `N` of them.
pub open spec fn vector_of<T: NumLike, const N: usize>(s: Seq<T>) -> Vec_<T, N> {
    choose|v: Vec_<T, N>| v@ == s
}

/// A vector is the vector of its components.
pub proof fn lemma_vector_of_view<T: NumLike, const N: usize>(v: Vec_<T, N>)
    ensures
        vector_of::<T, N>(v@) == v,
{
    let w = vector_of::<T, N>(v@);
    assert(w@ == v@);
    assert(w.data =~= v.data);
}

impl<T: NumLike, const N: usize> vstd::std_specs::ops::AddSpecImpl for Vec_<T, N> {
    open spec fn obeys_add_spec() -> bool {
        T::obeys_num_spec()
    }

    open spec fn add_req(self, rhs: Self) -> bool {
        T::obeys_num_spec() ==> plus_req_all(self@, rhs@)
    }

    open spec fn add_spec(self, rhs: Self) -> Self {
        vector_of(plus_spec_all(self@, rhs@))
    }
}

impl<T: NumLike, const N: usize> std::ops::Add for Vec_<T, N> {
    type Output = Vec_<T, N>;

    /// The sum, component by component.
    fn add(self, rhs: Self) -> (r: Self) {
        let r = self.plus(&rhs);
        proof {
            lemma_vector_of_view(r);
        }
        r
    }
}

impl<T: NumLike, const N: usize> vstd::std_specs::ops::SubSpecImpl for Vec_<T, N> {
    open spec fn obeys_sub_spec() -> bool {
        T::obeys_num_spec()
    }

    open spec fn sub_req(self, rhs: Self) -> bool {
        T::obeys_num_spec() ==> minus_req_all(self@, rhs@)
    }

    open spec fn sub_spec(self, rhs: Self) -> Self {
        vector_of(minus_spec_all(self@, rhs@))
    }
}

impl<T: NumLike, const N: usize> std::ops::Sub for Vec_<T, N> {
    type Output = Vec_<T, N>;

    /// The difference, component by component.
    fn sub(self, rhs: Self) -> (r: Self) {
        let r = self.minus(&rhs);
        proof {
            lemma_vector_of_view(r);
        }
        r
    }
}

impl<T: NumLike, const N: usize> vstd::std_specs::ops::MulSpecImpl<Vec_<T, N>> for Vec_<T, N> {
    open spec fn obeys_mul_spec() -> bool {
        T::obeys_num_spec()
    }

    open spec fn mul_req(self, rhs: Vec_<T, N>) -> bool {
        T::obeys_num_spec() ==> times_req_all(self@, rhs@)
    }

    open spec fn mul_spec(self, rhs: Vec_<T, N>) -> Self {
        vector_of(times_spec_all(self@, rhs@))
    }
}

impl<T: NumLike, const N: usize> std::ops::Mul<Vec_<T, N>> for Vec_<T, N> {
    type Output = Vec_<T, N>;

    /// The product, component by component.
    fn mul(self, rhs: Vec_<T, N>) -> (r: Self) {
        let r = self.times(&rhs);
        proof {
            lemma_vector_of_view(r);
        }
        r
    }
}

impl<T: NumLike, const N: usize> vstd::std_specs::ops::MulSpecImpl<T> for Vec_<T, N> {
    open spec fn obeys_mul_spec() -> bool {
        T::obeys_num_spec()
    }

    open spec fn mul_req(self, rhs: T) -> bool {
        T::obeys_num_spec() ==> times_req_all(self@, repeat(rhs, N as nat))
    }

    open spec fn mul_spec(self, rhs: T) -> Self {
        vector_of(times_spec_all(self@, repeat(rhs, N as nat)))
    }
}

impl<T: NumLike, const N: usize> std::ops::Mul<T> for Vec_<T, N> {
    type Output = Vec_<T, N>;

    /// Each component times `rhs`.
    fn mul(self, rhs: T) -> (r: Self) {
        let r = self.scale(rhs);
        proof {
            lemma_vector_of_view(r);
        }
        r
    }
}

impl<T: NumLike, const N: usize> vstd::std_specs::ops::DivSpecImpl<Vec_<T, N>> for Vec_<T, N> {
    open spec fn obeys_div_spec() -> bool {
        T::obeys_num_spec()
    }

    open spec fn div_req(self, rhs: Vec_<T, N>) -> bool {
        T::obeys_num_spec() ==> over_req_all(self@, rhs@)
    }

    open spec fn div_spec(self, rhs: Vec_<T, N>) -> Self {
        vector_of(over_spec_all(self@, rhs@))
    }
}

impl<T: NumLike, const N: usize> std::ops::Div<Vec_<T, N>> for Vec_<T, N> {
    type Output = Vec_<T, N>;

    /// The quotient, component by component.
    fn div(self, rhs: Vec_<T, N>) -> (r: Self) {
        let r = self.over(&rhs);
        proof {
            lemma_vector_of_view(r);
        }
        r
    }
}

impl<T: NumLike, const N: usize> vstd::std_specs::ops::DivSpecImpl<T> for Vec_<T, N> {
    open spec fn obeys_div_spec() -> bool {
        T::obeys_num_spec()
    }

    open spec fn div_req(self, rhs: T) -> bool {
        T::obeys_num_spec() ==> over_req_all(self@, repeat(rhs, N as nat))
    }

    open spec fn div_spec(self, rhs: T) -> Self {
        vector_of(over_spec_all(self@, repeat(rhs, N as nat)))
    }
}

impl<T: NumLike, const N: usize> std::ops::Div<T> for Vec_<T, N> {
    type Output = Vec_<T, N>;

    /// Each component over `rhs`.
    fn div(self, rhs: T) -> (r: Self) {
        let r = self.shrink(rhs);
        proof {
            lemma_vector_of_view(r);
        }
        r
    }
}

impl<T: NumLike> vstd::std_specs::ops::BitXorSpecImpl for Vec_<T, 3> {
    open spec fn obeys_bitxor_spec() -> bool {
        T::obeys_num_spec()
    }

    open spec fn bitxor_req(self, rhs: Self) -> bool {
        T::obeys_num_spec() ==> cross_req(self@, rhs@)
    }

    open spec fn bitxor_spec(self, rhs: Self) -> Self {
        vector_of(cross_spec(self@, rhs@))
    }
}

impl<T: NumLike> std::ops::BitXor for Vec_<T, 3> {
    type Output = Vec_<T, 3>;

    /// The cross product.
    fn bitxor(self, rhs: Self) -> (r: Self) {
        let r = cross(&self, &rhs);
        proof {
            lemma_vector_of_view(r);
        }
        r
    }
}

} // verus!
