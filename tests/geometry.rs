use mathvis::error::MathError;
use mathvis::matrix::Matrix;
use mathvis::number::Number;
use mathvis::point::{Point, PointLike};
use mathvis::vector::Vector;

fn rows<T: Number + Clone>(m: &Matrix<T>) -> Vec<Vec<T>> {
    m.values().clone()
}

#[test]
fn test_empty() {
    let vals: Vec<Vec<i32>> = Vec::new();
    assert!(Matrix::new(vals).is_none());
}

#[test]
fn test_different_lengths() {
    let vals = vec![vec![1, 2, 3], vec![1, 2]];
    assert!(Matrix::new(vals).is_none());
}

#[test]
fn test_multiply_identity() {
    let a: Matrix<i32> = Matrix::identity(2).unwrap();
    let b: Matrix<i32> = Matrix::random((2, 2)).unwrap();
    assert!(rows(&a.mul(b.clone()).unwrap()) == rows(&b));
}

#[test]
fn test_multiply() {
    let a = Matrix::new(vec![vec![1, 1], vec![1, 1]]).unwrap();
    let b = Matrix::new(vec![vec![1, 1], vec![0, 1]]).unwrap();
    let c = Matrix::new(vec![vec![1, 2], vec![1, 2]]).unwrap();
    assert!(rows(&a.mul(b).unwrap()) == rows(&c));
}

#[test]
fn test_determinant() {
    let a = Matrix::new(vec![vec![1, 2, 3], vec![3, 2, 1], vec![1, 2, 2]]).unwrap();
    assert!(a.determinant().unwrap() == 4);
}

#[test]
fn test_matrix_vector_mult() {
    let a = Matrix::new(vec![vec![1, -1, 2], vec![0, -3, 1]]).unwrap();
    let v = Vector::new(vec![2, 1, 0]).unwrap();
    assert!(a.mul_vector(v).unwrap().values() == &vec![1, -3]);
}

#[test]
fn test_transpose() {
    let a = Matrix::new(vec![vec![1, 0], vec![1, 1]]).unwrap();
    let v = a.transpose();
    assert!(rows(&v) == vec![vec![1, 1], vec![0, 1]]);
}

#[test]
fn test_add() {
    let a = Vector::new(vec![1, 2, 3]).unwrap();
    let b = Vector::new(vec![0, 1, 0]).unwrap();
    assert!(a.add(b).unwrap().values() == &vec![1, 3, 3]);
}

#[test]
fn test_add_wrong_dimensions() {
    let a = Vector::new(vec![1, 2, 3]).unwrap();
    let b = Vector::<i32>::random(2).unwrap();
    assert!(a.add(b).unwrap_err() == MathError::DimensionMismatch);
}

#[test]
fn test_dot() {
    let a = Vector::new(vec![1, 2, 3]).unwrap();
    let b = Vector::new(vec![3, 2, 1]).unwrap();
    assert!(a.dot(b).unwrap() == 10);
}

#[test]
fn test_cross() {
    let a: Vector<i32> = Vector::new(vec![1, 2, 3]).unwrap();
    let b: Vector<i32> = Vector::new(vec![3, 2, 1]).unwrap();
    assert!(a.cross(b).unwrap().values() == &vec![-4, 8, -4]);
}

#[test]
fn identity_times_matrix_on_both_sides() {
    let a = Matrix::new(vec![vec![4i64, -7, 2], vec![0, 9, -1], vec![3, 3, 5]]).unwrap();
    let i: Matrix<i64> = Matrix::identity(3).unwrap();
    assert_eq!(rows(&i.clone().mul(a.clone()).unwrap()), rows(&a));
    assert_eq!(rows(&a.clone().mul(i).unwrap()), rows(&a));
}

#[test]
fn determinant_of_identity_is_one() {
    for n in 1..6 {
        let i: Matrix<i32> = Matrix::identity(n).unwrap();
        assert_eq!(i.determinant().unwrap(), 1);
    }
    assert!(Matrix::<i32>::identity(0).is_none());
}

#[test]
fn dot_is_symmetric() {
    let a = Vector::new(vec![5, -2, 7, 1]).unwrap();
    let b = Vector::new(vec![-3, 4, 0, 9]).unwrap();
    assert_eq!(a.dot(b.clone()).unwrap(), b.dot(a).unwrap());
}

#[test]
fn normalize_gives_unit_norm() {
    let v = Vector::new(vec![0, 6]).unwrap();
    let n = v.normalize().unwrap();
    assert_eq!(n.values(), &vec![0, 1]);
    assert_eq!(n.norm(), 1);
    let w = Vector::new(vec![2, 2]).unwrap();
    assert_eq!(w.norm(), 2);
    assert_eq!(w.normalize().unwrap().values(), &vec![1, 1]);
}

#[test]
fn normalize_zero_vector_is_degenerate() {
    let z: Vector<i32> = Vector::origin(3).unwrap();
    assert_eq!(z.normalize().unwrap_err(), MathError::DegenerateValue);
}

#[test]
fn transpose_twice_is_identity() {
    let a = Matrix::new(vec![vec![1, 2, 3], vec![4, 5, 6]]).unwrap();
    let t = a.transpose();
    assert_eq!(t.get_dimensions(), (3, 2));
    assert_eq!(rows(&t.transpose()), rows(&a));
}

#[test]
fn determinant_needs_square() {
    let a = Matrix::new(vec![vec![1, 2, 3], vec![4, 5, 6]]).unwrap();
    assert_eq!(a.determinant().unwrap_err(), MathError::InvalidShape);
}

#[test]
fn multiply_wrong_dimensions() {
    let a = Matrix::new(vec![vec![1, 2, 3], vec![4, 5, 6]]).unwrap();
    let b = Matrix::new(vec![vec![1, 2], vec![4, 5]]).unwrap();
    assert_eq!(a.mul(b).unwrap_err(), MathError::DimensionMismatch);
    let c = Matrix::new(vec![vec![1, 2], vec![4, 5]]).unwrap();
    let v = Vector::new(vec![1, 2, 3]).unwrap();
    assert_eq!(c.mul_vector(v).unwrap_err(), MathError::DimensionMismatch);
}

#[test]
fn multiply_overflow() {
    let a = Matrix::new(vec![vec![i32::MAX, 1], vec![1, 1]]).unwrap();
    let b = Matrix::new(vec![vec![2, 0], vec![0, 2]]).unwrap();
    assert_eq!(a.mul(b).unwrap_err(), MathError::Overflow);
}

#[test]
fn cross_needs_three_dimensions() {
    let a = Vector::new(vec![1, 2]).unwrap();
    let b = Vector::new(vec![3, 4]).unwrap();
    assert_eq!(a.cross(b).unwrap_err(), MathError::DimensionMismatch);
}

#[test]
fn scale_changes_type() {
    let v = Vector::new(vec![1i32, -2, 3]).unwrap();
    assert_eq!(v.scale(3_000_000_000i64).unwrap().values(), &vec![3_000_000_000i64, -6_000_000_000, 9_000_000_000]);
    let m: Matrix<i32> = Matrix::identity(2).unwrap();
    assert_eq!(rows(&m.scale(2i32).unwrap()), vec![vec![2, 0], vec![0, 2]]);
    assert_eq!(v.scale(i32::MAX).unwrap_err(), MathError::Overflow);
}

#[test]
fn eigenvalues_and_eigenvectors() {
    let m = Matrix::new(vec![vec![2, 1], vec![1, 2]]).unwrap();
    assert_eq!(m.clone().eigenvalues_2d().unwrap(), (3, 1));
    let (v1, v2) = m.eigenvectors_2d().unwrap();
    assert_eq!(v1.values(), &vec![1, 1]);
    assert_eq!(v2.values(), &vec![-1, 1]);
    let i: Matrix<i32> = Matrix::identity(2).unwrap();
    assert_eq!(i.clone().eigenvalues_2d().unwrap(), (1, 1));
    assert_eq!(i.eigenvectors_2d().unwrap_err(), MathError::DegenerateValue);
    let big: Matrix<i32> = Matrix::identity(3).unwrap();
    assert_eq!(big.eigenvalues_2d().unwrap_err(), MathError::InvalidShape);
}

#[test]
fn invert_two_by_two() {
    let i: Matrix<i32> = Matrix::identity(2).unwrap();
    assert_eq!(rows(&i.invert_2d().unwrap()), vec![vec![1, 0], vec![0, 1]]);
    let m = Matrix::new(vec![vec![2, 1], vec![1, 1]]).unwrap();
    assert_eq!(rows(&m.invert_2d().unwrap()), vec![vec![1, -1], vec![-1, 2]]);
    let s = Matrix::new(vec![vec![1, 2], vec![2, 4]]).unwrap();
    assert_eq!(s.invert_2d().unwrap_err(), MathError::DegenerateValue);
}

#[test]
fn rotation_polar_decomposition_degenerates() {
    // A quarter turn has AtA = I, whose eigenvalues coincide, so its eigenvectors degenerate.
    let r = Matrix::new(vec![vec![0, -1], vec![1, 0]]).unwrap();
    assert_eq!(r.polar_decomposition_2d().unwrap_err(), MathError::DegenerateValue);
}

#[test]
fn polar_decomposition_of_shear() {
    let m = Matrix::new(vec![vec![1, 0], vec![1, 1]]).unwrap();
    let (u, sigma, v) = m.clone().svd_2d().unwrap();
    assert_eq!(rows(&u), vec![vec![0, -1], vec![1, 1]]);
    assert_eq!(rows(&sigma), vec![vec![1, 0], vec![0, 0]]);
    assert_eq!(rows(&v), vec![vec![1, 1], vec![-1, 0]]);
    assert_eq!(m.polar_decomposition_2d().unwrap_err(), MathError::DegenerateValue);
}

#[test]
fn point_distance_and_add() {
    let p: Point<i32> = Point::origin(2).unwrap();
    let q = Point::new(vec![3, 4]).unwrap();
    assert_eq!(p.distance_to(&q).unwrap(), 5);
    let r = Point::new(vec![1, 1, 1]).unwrap();
    assert_eq!(p.distance_to(&r).unwrap_err(), MathError::DimensionMismatch);
    let moved = q.add(Vector::new(vec![1, 0]).unwrap()).unwrap();
    assert_eq!(moved.values(), &vec![4, 4]);
    assert!(Point::<i32>::new(Vec::new()).is_none());
    assert_eq!(Point::<i64>::random(4).unwrap().get_dimensions(), 4);
}

#[test]
fn number_operations() {
    assert_eq!(Number::sqrt(17i32), 4);
    assert_eq!(Number::sqrt(-4i32), 0);
    assert_eq!(Number::sqrt(i64::MAX), 3037000499);
    assert_eq!(Number::pow(3i32, 4), 81);
    assert_eq!(Number::pow(2i64, -1), 0);
    assert_eq!(Number::pow(-1i32, -3), -1);
    assert_eq!(Number::pow(0i32, -2), i32::MAX);
    assert_eq!(Number::abs(-7i32), 7);
    assert_eq!(Number::checked_div(7i32, -2), Some(-3));
    assert_eq!(Number::checked_div(i32::MIN, -1), None);
    assert_eq!(Number::checked_neg(i32::MIN), None);
    assert_eq!(<i32 as Number>::checked_from_i64(1 << 40), None);
    assert_eq!(<i64 as Number>::from_i32(-5), -5);
    assert_eq!(Number::to_i64(-5i32), -5);
    assert!(Number::is_negative(&-3i64) && Number::is_positive(&3i64) && Number::is_zero(0i32));
}

#[test]
fn point_like_matches_inherent_methods() {
    let p = <Point<i32> as PointLike<i32>>::origin(3).unwrap();
    assert_eq!(PointLike::get_dimensions(&p), 3);
    assert_eq!(PointLike::values(&p), &vec![0, 0, 0]);
    let v = <Vector<i64> as PointLike<i64>>::new(vec![1, 2]).unwrap();
    assert_eq!(PointLike::values(&v), &vec![1, 2]);
    assert!(<Vector<i64> as PointLike<i64>>::new(Vec::new()).is_none());
    assert_eq!(<Vector<i32> as PointLike<i32>>::random(5).unwrap().get_dimensions(), 5);
}

#[test]
fn quadsolve_roots() {
    assert_eq!(mathvis::util::quadsolve(1i32, -5, 6).unwrap(), (3, 2));
    assert_eq!(mathvis::util::quadsolve(2i64, 0, -8).unwrap(), (2, -2));
    assert_eq!(mathvis::util::quadsolve(1i32, 0, 1).unwrap(), (0, 0));
    assert_eq!(mathvis::util::quadsolve(0i32, 1, 1).unwrap_err(), MathError::DegenerateValue);
    assert_eq!(mathvis::util::quadsolve(1i32, i32::MAX, 0).unwrap_err(), MathError::Overflow);
}
