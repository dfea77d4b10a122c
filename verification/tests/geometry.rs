use tinyrender::error::RenderError;
use tinyrender::geometry::{cross, embed, proj, Vec3, Vec_};
use tinyrender::util::NumLike;

/// A double-precision scalar: every operation is defined, and rounds.
#[derive(Clone, Copy, Debug, PartialEq)]
struct Real(f64);

impl NumLike for Real {
    fn zero() -> Self {
        Real(0.0)
    }

    fn one() -> Self {
        Real(1.0)
    }

    fn from_i32(v: i32) -> Self {
        Real(v as f64)
    }

    fn to_i32(self) -> i32 {
        self.0 as i32
    }

    fn plus(self, rhs: Self) -> Self {
        Real(self.0 + rhs.0)
    }

    fn minus(self, rhs: Self) -> Self {
        Real(self.0 - rhs.0)
    }

    fn times(self, rhs: Self) -> Self {
        Real(self.0 * rhs.0)
    }

    fn over(self, rhs: Self) -> Self {
        Real(self.0 / rhs.0)
    }

    fn sqrt(self) -> Self {
        Real(self.0.sqrt())
    }

    fn equals(self, rhs: Self) -> bool {
        self.0 == rhs.0
    }

    fn less(self, rhs: Self) -> bool {
        self.0 < rhs.0
    }
}

fn reals<const N: usize>(v: [f64; N]) -> [Real; N] {
    v.map(Real)
}

#[test]
fn geometry_test_new() {
    let v: Vec_<Real, 3> = Vec_::new();
    assert_eq!(v.data, reals([0.0, 0.0, 0.0]));
}

#[test]
fn test_dot() {
    let v1 = Vec_ {
        data: reals([1.0, 2.0, 3.0]),
    };
    let v2 = Vec_ {
        data: reals([4.0, 5.0, 6.0]),
    };
    assert_eq!(v1.dot(&v2), Real(32.0));
}

#[test]
fn test_norm() {
    let v = Vec_ {
        data: reals([1.0, 2.0, 2.0]),
    };
    assert_eq!(v.norm(), Real(3.0));
}

#[test]
fn test_normalize() {
    let mut v = Vec_ {
        data: reals([1.0, 2.0, 2.0]),
    };
    let r = v.normalize();
    assert_eq!(v.data, reals([1.0 / 3.0, 2.0 / 3.0, 2.0 / 3.0]));
    assert_eq!(r, Ok(v));
}

#[test]
fn test_add() {
    let v1 = Vec_ {
        data: reals([1.0, 2.0, 3.0]),
    };
    let v2 = Vec_ {
        data: reals([4.0, 5.0, 6.0]),
    };
    let v3 = Vec_ {
        data: reals([5.0, 7.0, 9.0]),
    };
    assert_eq!(v1 + v2, v3);
}

#[test]
fn test_bitxor() {
    let v1 = Vec3 {
        data: reals([1.0, 2.0, 3.0]),
    };
    let v2 = Vec3 {
        data: reals([4.0, 5.0, 6.0]),
    };
    let expected = Vec3 {
        data: reals([-3.0, 6.0, -3.0]),
    };
    assert_eq!(v1 ^ v2, expected);
}

#[test]
fn dot_of_integers_is_exact_and_commutes() {
    let a: Vec_<i32, 3> = Vec_::from([1, -2, 3]);
    let b: Vec_<i32, 3> = Vec_::from([4, 5, -6]);
    assert_eq!(a.dot(&b), -24);
    assert_eq!(b.dot(&a), -24);
}

#[test]
fn cross_of_the_first_two_axes_is_the_third() {
    let x: Vec3<i32> = Vec_::from([1, 0, 0]);
    let y: Vec3<i32> = Vec_::from([0, 1, 0]);
    assert_eq!(cross(&x, &y).data, [0, 0, 1]);
    assert_eq!(cross(&y, &x).data, [0, 0, -1]);
}

#[test]
fn cross_is_anticommutative_on_integers() {
    let a: Vec3<i64> = Vec_::from([3, -7, 11]);
    let b: Vec3<i64> = Vec_::from([-5, 2, 13]);
    let ab = cross(&a, &b);
    let ba = cross(&b, &a);
    assert_eq!(ab.data, [-113, -94, -29]);
    assert_eq!(ba.scale(-1), ab);
}

#[test]
fn normalized_real_vector_has_norm_one() {
    let mut v = Vec_ {
        data: reals([3.0, -4.0, 12.0]),
    };
    v.normalize().unwrap();
    assert!((v.norm().0 - 1.0).abs() < 1e-12);
}

#[test]
fn normalize_rejects_the_zero_vector() {
    let mut v: Vec_<i32, 3> = Vec_::zero();
    assert_eq!(v.normalize(), Err(RenderError::ZeroNorm));
    assert_eq!(v.data, [0, 0, 0]);
    let mut r: Vec_<Real, 2> = Vec_::new();
    assert_eq!(r.normalize(), Err(RenderError::ZeroNorm));
}

#[test]
fn normalize_of_integers_divides_by_the_integer_root() {
    let mut v: Vec_<i32, 2> = Vec_::from([6, 8]);
    assert_eq!(v.norm(), 10);
    v.data = [30, -40];
    assert_eq!(v.norm(), 50);
    let n = v.normalize().unwrap();
    assert_eq!(n.data, [0, 0]);
    let mut w: Vec_<i64, 3> = Vec_::from([2, 0, 0]);
    assert_eq!(w.normalize().unwrap().data, [1, 0, 0]);
}

#[test]
fn embed_fills_and_proj_truncates() {
    let v: Vec_<i32, 2> = Vec_::from([7, 9]);
    let e: Vec_<i32, 4> = embed(&v, 1);
    assert_eq!(e.data, [7, 9, 1, 1]);
    let p: Vec_<i32, 3> = proj(&e);
    assert_eq!(p.data, [7, 9, 1]);
    let same: Vec_<i32, 2> = embed(&v, 5);
    assert_eq!(same.data, [7, 9]);
    let shorter: Vec_<i32, 1> = embed(&v, 5);
    assert_eq!(shorter.data, [7]);
}

#[test]
fn from_vec_takes_a_prefix_or_fails() {
    let v: Vec_<i32, 3> = Vec_::from_vec(vec![1, 2, 3, 4]).unwrap();
    assert_eq!(v.data, [1, 2, 3]);
    assert_eq!(v.to_vec(), vec![1, 2, 3]);
    let short: Result<Vec_<i32, 3>, RenderError> = Vec_::from_vec(vec![1, 2]);
    assert_eq!(short, Err(RenderError::DimensionMismatch));
}

#[test]
fn operators_on_vectors() {
    let a: Vec_<i32, 3> = Vec_::from([8, -9, 10]);
    let b: Vec_<i32, 3> = Vec_::from([2, 3, -4]);
    assert_eq!((a + b).data, [10, -6, 6]);
    assert_eq!((a - b).data, [6, -12, 14]);
    assert_eq!((a * b).data, [16, -27, -40]);
    assert_eq!((a / b).data, [4, -3, -2]);
    assert_eq!((a * 3).data, [24, -27, 30]);
    assert_eq!((a / 4).data, [2, -2, 2]);
    assert_eq!((a ^ b).data, [6, 52, 42]);
    assert_eq!(a ^ b, cross(&a, &b));
}

#[test]
fn componentwise_arithmetic() {
    let a: Vec_<i32, 3> = Vec_::from([8, -9, 10]);
    let b: Vec_<i32, 3> = Vec_::from([2, 3, -4]);
    assert_eq!(a.minus(&b).data, [6, -12, 14]);
    assert_eq!(a.times(&b).data, [16, -27, -40]);
    assert_eq!(a.over(&b).data, [4, -3, -2]);
    assert_eq!(a.scale(3).data, [24, -27, 30]);
    assert_eq!(a.shrink(4).data, [2, -2, 2]);
    assert_eq!(a.get(1), -9);
    let mut c = a;
    c.set(1, 5);
    assert_eq!(c.data, [8, 5, 10]);
}
