use tinyrender::fixed::{Fixed, ONE};
use tinyrender::geometry::Vec_;
use tinyrender::matrix::Mat;
use tinyrender::util::NumLike;

fn fx(v: f64) -> Fixed {
    Fixed {
        raw: (v * ONE as f64) as i64,
    }
}

#[test]
fn fixed_point_arithmetic_is_exact_within_its_places() {
    assert_eq!(Fixed::zero().raw, 0);
    assert_eq!(Fixed::one().raw, 65536);
    assert_eq!(Fixed::from_i32(-3).raw, -196608);
    assert_eq!(fx(1.5).plus(fx(2.25)), fx(3.75));
    assert_eq!(fx(1.5).minus(fx(2.25)), fx(-0.75));
    assert_eq!(fx(1.5).times(fx(-2.5)), fx(-3.75));
    assert_eq!(fx(7.0).over(fx(2.0)), fx(3.5));
    assert_eq!(fx(-7.0).over(fx(2.0)), fx(-3.5));
    assert_eq!(fx(1.0).over(fx(3.0)).raw, 21845);
    assert_eq!(fx(-1.0).over(fx(3.0)).raw, -21845);
    assert_eq!(fx(2.25).sqrt(), fx(1.5));
    assert_eq!(fx(2.0).sqrt().raw, 92681);
    assert_eq!(fx(3.99).to_i32(), 3);
    assert_eq!(fx(-3.99).to_i32(), -3);
    assert!(fx(1.0).less(fx(1.5)));
    assert!(!fx(1.5).less(fx(1.5)));
    assert!(fx(1.5).equals(fx(1.5)));
    assert!(!fx(1.5).equals(fx(-1.5)));
}

#[test]
fn fixed_point_arithmetic_saturates() {
    let most = Fixed { raw: i64::MAX };
    let least = Fixed { raw: i64::MIN };
    assert_eq!(most.plus(fx(1.0)), most);
    assert_eq!(least.minus(fx(1.0)), least);
    assert_eq!(least.plus(most).raw, -1);
    assert_eq!(most.times(fx(2.0)), most);
    assert_eq!(most.times(fx(-2.0)), least);
    assert_eq!(least.times(least), most);
    assert_eq!(most.over(fx(0.5)), most);
    assert_eq!(fx(5.0).over(Fixed::zero()), most);
    assert_eq!(fx(-5.0).over(Fixed::zero()), least);
    assert_eq!(Fixed::zero().over(Fixed::zero()), Fixed::zero());
    assert_eq!(fx(-4.0).sqrt(), Fixed::zero());
    assert_eq!(most.sqrt().raw, 777472127993);
    assert_eq!(most.to_i32(), i32::MAX);
    assert_eq!(least.to_i32(), i32::MIN);
    assert_eq!(least.over(Fixed { raw: -1 }), most);
}

#[test]
fn vectors_and_matrices_over_fixed_point_numbers() {
    let mut v: Vec_<Fixed, 3> = Vec_::from([fx(3.0), fx(-4.0), fx(12.0)]);
    assert_eq!(v.norm(), fx(13.0));
    v.normalize().unwrap();
    assert_eq!(v.data.map(|c| c.raw), [15123, -20164, 60494]);
    let m: Mat<Fixed> =
        Mat::from_vec(2, 2, vec![fx(2.0), fx(1.0), fx(1.0), fx(1.0)]).unwrap();
    assert_eq!(m.det(), Ok(fx(1.0)));
    let inv = m.invert().unwrap();
    assert_eq!(inv.data, [[fx(1.0), fx(-1.0)], [fx(-1.0), fx(2.0)]]);
    assert_eq!(m.mul_mat(&inv).unwrap(), Mat::identity(2));
}
