use tinyrender::error::RenderError;
use tinyrender::geometry::Vec_;
use tinyrender::matrix::Mat;
use tinyrender::util::NumLike;

/// A double-precision scalar: every operation is defined, and rounds.
#[derive(Clone, Copy, Debug, PartialEq)]
struct Real(f64);

impl NumLike for Real {
    fn zero() -> Self {
        Real(0.0)
    }

    fn one() -> Self {
        Real(1.0)
    }

    fn from_i32(v: i32) -> Self {
        Real(v as f64)
    }

    fn to_i32(self) -> i32 {
        self.0 as i32
    }

    fn plus(self, rhs: Self) -> Self {
        Real(self.0 + rhs.0)
    }

    fn minus(self, rhs: Self) -> Self {
        Real(self.0 - rhs.0)
    }

    fn times(self, rhs: Self) -> Self {
        Real(self.0 * rhs.0)
    }

    fn over(self, rhs: Self) -> Self {
        Real(self.0 / rhs.0)
    }

    fn sqrt(self) -> Self {
        Real(self.0.sqrt())
    }

    fn equals(self, rhs: Self) -> bool {
        self.0 == rhs.0
    }

    fn less(self, rhs: Self) -> bool {
        self.0 < rhs.0
    }
}

fn reals(v: [f64; 9]) -> Vec<Real> {
    v.iter().map(|x| Real(*x)).collect()
}

#[test]
fn matrix_test_new() {
    let mat: Mat<i32> = Mat::new(2, 3);
    assert_eq!(mat.data, vec![[0, 0, 0], [0, 0, 0]]);
}

#[test]
fn test_identity() {
    let mat: Mat<i32> = Mat::identity(3);
    assert_eq!(mat.data, vec![[1, 0, 0], [0, 1, 0], [0, 0, 1]]);
}

#[test]
fn test_col() {
    let data: Vec<Vec<i32>> = vec![vec![1, 2, 3], vec![4, 5, 6]];
    let mat: Mat<i32> = Mat::from(&data).unwrap();
    println!("{:?}", mat.col(0));
    assert_eq!(mat.col(0).unwrap(), [1 as i32, 4 as i32]);
    assert_eq!(mat.col(1).unwrap(), [2 as i32, 5 as i32]);
    assert_eq!(mat.col(2).unwrap(), [3 as i32, 6 as i32]);
}

#[test]
fn test_set_col() {
    let mut mat: Mat<i32> = Mat::new(2, 3);
    mat.set_col(0, &vec![1, 4]).unwrap();
    mat.set_col(1, &vec![2, 5]).unwrap();
    mat.set_col(2, &vec![3, 6]).unwrap();
    assert_eq!(mat.data, [[1, 2, 3], [4, 5, 6]]);
}

#[test]
fn test_submatrix() {
    let data = vec![vec![1, 2, 3], vec![4, 5, 6], vec![7, 8, 9]];
    let mat: Mat<i32> = Mat::from(&data).unwrap();
    let sub: Mat<i32> = mat.submatrix(1, 1).unwrap();
    assert_eq!(sub.data, [[1, 3], [7, 9]]);
}

#[test]
fn test_cofactor() {
    let data = vec![vec![1, 2, 3], vec![4, 5, 6], vec![7, 8, 9]];
    let mat: Mat<i32> = Mat::from(&data).unwrap();
    assert_eq!(mat.cofactor(0, 0), Ok(-3));
    assert_eq!(mat.cofactor(0, 1), Ok(6));
    assert_eq!(mat.cofactor(0, 2), Ok(-3));
    assert_eq!(mat.cofactor(1, 0), Ok(6));
    assert_eq!(mat.cofactor(1, 1), Ok(-12));
    assert_eq!(mat.cofactor(1, 2), Ok(6));
    assert_eq!(mat.cofactor(2, 0), Ok(-3));
    assert_eq!(mat.cofactor(2, 1), Ok(6));
    assert_eq!(mat.cofactor(2, 2), Ok(-3));
}

#[test]
fn test_det() {
    let data = vec![vec![1, 2], vec![3, 4]];
    let mat: Mat<i32> = Mat::from(&data).unwrap();
    assert_eq!(mat.det(), Ok(-2));

    let data = vec![vec![1, 2], vec![4, 5]];
    let mat: Mat<i32> = Mat::from(&data).unwrap();
    assert_eq!(mat.det(), Ok(-3));

    let data = vec![vec![5, 6], vec![8, 9]];
    let mat: Mat<i32> = Mat::from(&data).unwrap();
    assert_eq!(mat.det(), Ok(-3));

    let data = vec![vec![2, 3], vec![5, 6]];
    let mat: Mat<i32> = Mat::from(&data).unwrap();
    assert_eq!(mat.det(), Ok(-3));

    let data = vec![vec![4, 5], vec![7, 8]];
    let mat: Mat<i32> = Mat::from(&data).unwrap();
    assert_eq!(mat.det(), Ok(-3));

    let data = vec![vec![1, 3], vec![7, 9]];
    let mat: Mat<i32> = Mat::from(&data).unwrap();
    assert_eq!(mat.det(), Ok(-12));

    let data = vec![vec![1, 2, 3], vec![4, 5, 6], vec![7, 8, 9]];
    let mat: Mat<i32> = Mat::from(&data).unwrap();
    assert_eq!(mat.det(), Ok(0));
}

#[test]
fn test_transpose() {
    let mat = Mat::from(&vec![vec![1, 2, 3], vec![4, 5, 6]]).unwrap();
    let transposed = mat.transpose();
    assert_eq!(transposed.M, 3);
    assert_eq!(transposed.N, 2);
    assert_eq!(transposed.data, vec![vec![1, 4], vec![2, 5], vec![3, 6]]);
}

#[test]
fn test_invert_transpose() {
    let mat: Mat<Real> =
        Mat::from_vec(3, 3, reals([1.0, 2.0, 3.0, 4.0, 5.0, 6.0, 7.0, 8.0, 0.0])).unwrap();
    let inverted_transposed = mat.invert_transpose().unwrap();
    println!("{:?}", inverted_transposed.data);
    let expected = [
        [-48.0 / 27.0, 42.0 / 27.0, -3.0 / 27.0],
        [24.0 / 27.0, -21.0 / 27.0, 6.0 / 27.0],
        [-3.0 / 27.0, 6.0 / 27.0, -3.0 / 27.0],
    ];
    for i in 0..3 {
        for j in 0..3 {
            assert!((inverted_transposed.data[i][j].0 - expected[i][j]).abs() < 1e-12);
        }
    }
}

#[test]
fn test_invert() {
    let mat: Mat<Real> =
        Mat::from_vec(3, 3, reals([1.0, 2.0, 3.0, 4.0, 5.0, 6.0, 7.0, 8.0, 0.0])).unwrap();
    let inverted = mat.invert().unwrap();
    println!("{:?}", inverted.data);
    let product = mat.mul_mat(&inverted).unwrap();
    for i in 0..3 {
        for j in 0..3 {
            let want = if i == j { 1.0 } else { 0.0 };
            assert!((product.data[i][j].0 - want).abs() < 1e-12);
        }
    }
}

#[test]
fn test_mul_matrix_vector() {
    let mat: Mat<i32> = Mat::new(2, 3);
    let vec = vec![1, 2, 3];
    let result = &mat * &vec;
    assert_eq!(result, vec![0, 0]);
    assert_eq!(mat.mul_vec(&vec), Ok(vec![0, 0]));

    let mat: Mat<i32> = Mat::from_vec(2, 2, vec![1, 1, 2, 2]).unwrap();
    let vec = vec![1, 1];
    let result = &mat * &vec;
    assert_eq!(result, vec![2, 4]);
    assert_eq!(mat.mul_vec(&vec), Ok(vec![2, 4]));
}

#[test]
#[should_panic]
fn test_mul_matrix_vector_incompatible_dimensions() {
    let mat: Mat<i32> = Mat::new(2, 3);
    let vec = vec![1, 2];
    let _result = &mat * &vec;
}

#[test]
fn a_vector_of_another_size_is_not_multiplied() {
    let mat: Mat<i32> = Mat::new(2, 3);
    let vec = vec![1, 2];
    assert_eq!(mat.mul_vec(&vec), Err(RenderError::DimensionMismatch));
}

#[test]
fn test_matrix_multiplication() {
    let a = Mat::from_vec(2, 3, vec![1, 2, 3, 4, 5, 6]).unwrap();
    let b = Mat::from_vec(3, 2, vec![7, 8, 9, 10, 11, 12]).unwrap();
    let c = Mat::from_vec(2, 2, vec![58, 64, 139, 154]).unwrap();
    assert_eq!(&a * &b, c);
    assert_eq!(a.mul_mat(&b), Ok(c));
}

#[test]
#[should_panic]
fn test_matrix_multiplication_incompatible_dimensions() {
    let a = Mat::from_vec(2, 3, vec![1, 2, 3, 4, 5, 6]).unwrap();
    let b = Mat::from_vec(2, 2, vec![7, 8, 9, 10]).unwrap();
    let _c = &a * &b;
}

#[test]
fn matrices_that_do_not_fit_are_not_multiplied() {
    let a = Mat::from_vec(2, 3, vec![1, 2, 3, 4, 5, 6]).unwrap();
    let b = Mat::from_vec(2, 2, vec![7, 8, 9, 10]).unwrap();
    assert_eq!(a.mul_mat(&b), Err(RenderError::DimensionMismatch));
}

#[test]
fn constructors_reject_bad_shapes() {
    let empty: Vec<Vec<i32>> = Vec::new();
    assert_eq!(Mat::from(&empty), Err(RenderError::DimensionMismatch));
    let ragged = vec![vec![1, 2], vec![3]];
    assert_eq!(Mat::from(&ragged), Err(RenderError::DimensionMismatch));
    let longer = vec![vec![1], vec![2, 3]];
    assert_eq!(Mat::from(&longer), Err(RenderError::DimensionMismatch));
    assert_eq!(
        Mat::from_vec(2, 2, vec![1, 2, 3]),
        Err(RenderError::DimensionMismatch)
    );
    assert_eq!(
        Mat::<i32>::from_vec(usize::MAX, 2, vec![]),
        Err(RenderError::DimensionMismatch)
    );
}

#[test]
fn columns_and_minors_outside_the_matrix_are_rejected() {
    let mut mat: Mat<i32> = Mat::from_vec(2, 3, vec![1, 2, 3, 4, 5, 6]).unwrap();
    assert_eq!(mat.col(3), Err(RenderError::DimensionMismatch));
    assert_eq!(mat.set_col(3, &vec![0, 0]), Err(RenderError::DimensionMismatch));
    assert_eq!(mat.set_col(0, &vec![0]), Err(RenderError::DimensionMismatch));
    assert_eq!(mat.data, [[1, 2, 3], [4, 5, 6]]);
    assert_eq!(mat.set_col(1, &vec![8, 9, 10]), Ok(()));
    assert_eq!(mat.data, [[1, 8, 3], [4, 9, 6]]);
    assert_eq!(mat.submatrix(2, 0), Err(RenderError::DimensionMismatch));
    assert_eq!(mat.submatrix(0, 3), Err(RenderError::DimensionMismatch));
    assert_eq!(mat.submatrix(1, 2).unwrap().data, [[1, 8]]);
}

#[test]
fn determinant_needs_a_square_matrix() {
    let mat: Mat<i32> = Mat::new(2, 3);
    assert_eq!(mat.det(), Err(RenderError::DimensionMismatch));
    assert_eq!(mat.cofactor(0, 0), Err(RenderError::DimensionMismatch));
    assert_eq!(mat.adjugate(), Err(RenderError::DimensionMismatch));
    assert_eq!(mat.invert(), Err(RenderError::DimensionMismatch));
    assert_eq!(mat.invert_transpose(), Err(RenderError::DimensionMismatch));
    let square: Mat<i32> = Mat::identity(3);
    assert_eq!(square.cofactor(3, 0), Err(RenderError::DimensionMismatch));
}

#[test]
fn determinants_of_small_and_larger_matrices() {
    let one: Mat<i32> = Mat::from_vec(1, 1, vec![7]).unwrap();
    assert_eq!(one.det(), Ok(7));
    let none: Mat<i32> = Mat::new(0, 0);
    assert_eq!(none.det(), Ok(1));
    let four: Mat<i64> = Mat::from_vec(
        4,
        4,
        vec![2, 0, 1, 3, -1, 4, 0, 2, 5, 1, -2, 0, 3, -3, 1, 1],
    )
    .unwrap();
    assert_eq!(four.det(), Ok(24));
    let id: Mat<i64> = Mat::identity(4);
    assert_eq!(id.det(), Ok(1));
}

#[test]
fn adjugate_is_the_matrix_of_cofactors() {
    let mat: Mat<i32> = Mat::from_vec(3, 3, vec![1, 2, 3, 0, 1, 4, 5, 6, 0]).unwrap();
    assert_eq!(mat.det(), Ok(1));
    let adj = mat.adjugate().unwrap();
    assert_eq!(adj.data, [[-24, 20, -5], [18, -15, 4], [5, -4, 1]]);
    let inv = mat.invert().unwrap();
    assert_eq!(inv.data, [[-24, 18, 5], [20, -15, -4], [-5, 4, 1]]);
    assert_eq!(mat.mul_mat(&inv).unwrap(), Mat::identity(3));
}

#[test]
fn singular_matrices_are_not_inverted() {
    let mat: Mat<i32> = Mat::from_vec(3, 3, vec![1, 2, 3, 4, 5, 6, 7, 8, 9]).unwrap();
    assert_eq!(mat.invert(), Err(RenderError::SingularMatrix));
    assert_eq!(mat.invert_transpose(), Err(RenderError::SingularMatrix));
    let real: Mat<Real> =
        Mat::from_vec(3, 3, reals([1.0, 2.0, 3.0, 2.0, 4.0, 6.0, 0.0, 1.0, 5.0])).unwrap();
    assert_eq!(real.invert(), Err(RenderError::SingularMatrix));
}

#[test]
fn scaling_and_transforming() {
    let mat: Mat<i32> = Mat::from_vec(2, 3, vec![1, 2, 3, 4, 5, 6]).unwrap();
    assert_eq!(mat.scale(-2).data, [[-2, -4, -6], [-8, -10, -12]]);
    assert_eq!((&mat * -2).data, [[-2, -4, -6], [-8, -10, -12]]);
    let v: Vec_<i32, 3> = Vec_::from([1, 0, -1]);
    assert_eq!(mat.transform(&v), Ok(vec![-2, -2]));
    assert_eq!(&mat * &v, vec![-2, -2]);
    let w: Vec_<i32, 2> = Vec_::from([1, 0]);
    assert_eq!(mat.transform(&w), Err(RenderError::DimensionMismatch));
}

#[test]
fn a_matrix_of_one_row_is_inverted() {
    let two: Mat<Real> = Mat::from_vec(1, 1, vec![Real(2.0)]).unwrap();
    assert_eq!(two.cofactor(0, 0), Ok(Real(1.0)));
    assert_eq!(two.adjugate().unwrap().data, [[Real(1.0)]]);
    let inv = two.invert().unwrap();
    assert_eq!(inv.data, [[Real(0.5)]]);
    assert_eq!(two.invert_transpose().unwrap().data, [[Real(0.5)]]);
    assert_eq!(two.mul_mat(&inv).unwrap(), Mat::identity(1));
    let four: Mat<i32> = Mat::from_vec(1, 1, vec![1]).unwrap();
    assert_eq!(four.invert().unwrap().data, [[1]]);
    let zero: Mat<i32> = Mat::from_vec(1, 1, vec![0]).unwrap();
    assert_eq!(zero.invert().err(), Some(RenderError::SingularMatrix));
}
