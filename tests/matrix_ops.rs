use neuralnet::{Matrix, MatrixError, ONE, TENTH};

fn matrix_of(values: Vec<Vec<i64>>) -> Matrix {
    let rows = values.len();
    let columns = if rows == 0 { 0 } else { values[0].len() };
    let mut m = Matrix::new(rows, columns);
    m.set_matrix(values).unwrap();
    m
}

#[test]
fn new_is_zero_filled() {
    let m = Matrix::new(2, 3);
    assert_eq!(m.rows(), 2);
    assert_eq!(m.columns(), 3);
    assert_eq!(m.get_matrix(), vec![vec![0, 0, 0], vec![0, 0, 0]]);
}

#[test]
fn new_with_no_rows() {
    let m = Matrix::new(0, 4);
    assert_eq!(m.rows(), 0);
    assert_eq!(m.columns(), 4);
    assert!(m.get_matrix().is_empty());
}

#[test]
fn set_matrix_replaces_entries() {
    let mut m = Matrix::new(2, 2);
    assert_eq!(m.set_matrix(vec![vec![1, 2], vec![3, 4]]), Ok(()));
    assert_eq!(m.get_matrix(), vec![vec![1, 2], vec![3, 4]]);
}

#[test]
fn set_matrix_rejects_wrong_shapes() {
    let mut m = Matrix::new(2, 2);
    assert_eq!(m.set_matrix(vec![vec![1, 2]]), Err(MatrixError::Shape));
    assert_eq!(m.set_matrix(vec![vec![1, 2], vec![3]]), Err(MatrixError::Shape));
    assert_eq!(m.set_matrix(vec![vec![1, 2], vec![3, 4, 5]]), Err(MatrixError::Shape));
    assert_eq!(m.get_matrix(), vec![vec![0, 0], vec![0, 0]]);
}

#[test]
fn set_and_get_value() {
    let mut m = Matrix::new(2, 3);
    assert_eq!(m.set_value(1, 2, 7), Ok(()));
    assert_eq!(m.get_value(1, 2), Some(7));
    assert_eq!(m.get_value(0, 2), Some(0));
    assert_eq!(m.set_value(2, 0, 1), Err(MatrixError::OutOfBounds));
    assert_eq!(m.set_value(0, 3, 1), Err(MatrixError::OutOfBounds));
    assert_eq!(m.get_value(2, 0), None);
    assert_eq!(m.get_value(0, 3), None);
}

#[test]
fn get_matrix_is_a_copy() {
    let mut m = matrix_of(vec![vec![1, 2]]);
    let copy = m.get_matrix();
    m.set_value(0, 0, 9).unwrap();
    assert_eq!(copy, vec![vec![1, 2]]);
    let dup = m.duplicate();
    m.set_value(0, 1, 9).unwrap();
    assert_eq!(dup.get_matrix(), vec![vec![9, 2]]);
}

#[test]
fn add_subtract_hadamard_values() {
    let a = matrix_of(vec![vec![ONE, 2 * ONE], vec![-ONE, 0]]);
    let b = matrix_of(vec![vec![ONE / 2, ONE], vec![3 * ONE, -ONE]]);
    let sum = Matrix::add(&a, &b).unwrap();
    assert_eq!(sum.get_matrix(), vec![vec![3 * ONE / 2, 3 * ONE], vec![2 * ONE, -ONE]]);
    let diff = Matrix::subtract(&a, &b).unwrap();
    assert_eq!(diff.get_matrix(), vec![vec![ONE / 2, ONE], vec![-4 * ONE, ONE]]);
    let prod = Matrix::hadamard_product(&a, &b).unwrap();
    assert_eq!(prod.get_matrix(), vec![vec![ONE / 2, 2 * ONE], vec![-3 * ONE, 0]]);
    assert_eq!(a.get_matrix(), vec![vec![ONE, 2 * ONE], vec![-ONE, 0]]);
}

#[test]
fn elementwise_operations_reject_mismatched_shapes() {
    let a = Matrix::new(2, 2);
    let b = Matrix::new(2, 3);
    assert!(matches!(Matrix::add(&a, &b), Err(MatrixError::ShapeMismatch)));
    assert!(matches!(Matrix::subtract(&a, &b), Err(MatrixError::ShapeMismatch)));
    assert!(matches!(Matrix::hadamard_product(&a, &b), Err(MatrixError::ShapeMismatch)));
}

#[test]
fn multiply_values() {
    let a = matrix_of(vec![vec![ONE, 2 * ONE, 3 * ONE], vec![4 * ONE, 5 * ONE, 6 * ONE]]);
    let b = matrix_of(vec![vec![7 * ONE, 8 * ONE], vec![9 * ONE, 10 * ONE], vec![11 * ONE, 12 * ONE]]);
    let m = Matrix::multiply(&a, &b).unwrap();
    assert_eq!(m.rows(), 2);
    assert_eq!(m.columns(), 2);
    assert_eq!(m.get_matrix(), vec![vec![58 * ONE, 64 * ONE], vec![139 * ONE, 154 * ONE]]);
}

#[test]
fn multiply_rejects_mismatched_shapes() {
    let a = Matrix::new(2, 3);
    let b = Matrix::new(2, 3);
    assert!(matches!(Matrix::multiply(&a, &b), Err(MatrixError::ShapeMismatch)));
}

#[test]
fn multiply_with_empty_inner_dimension() {
    let a = Matrix::new(2, 0);
    let b = Matrix::new(0, 3);
    let m = Matrix::multiply(&a, &b).unwrap();
    assert_eq!(m.get_matrix(), vec![vec![0, 0, 0], vec![0, 0, 0]]);
}

#[test]
fn transpose_values() {
    let a = matrix_of(vec![vec![1, 2, 3], vec![4, 5, 6]]);
    let t = Matrix::transpose(&a);
    assert_eq!(t.rows(), 3);
    assert_eq!(t.columns(), 2);
    assert_eq!(t.get_matrix(), vec![vec![1, 4], vec![2, 5], vec![3, 6]]);
}

#[test]
fn scalar_values() {
    let a = matrix_of(vec![vec![ONE, -2 * ONE]]);
    let s = Matrix::scalar(&a, ONE / 2);
    assert_eq!(s.get_matrix(), vec![vec![ONE / 2, -ONE]]);
}

#[test]
fn activate_and_activate_prime_values() {
    let a = matrix_of(vec![vec![2 * ONE, 0, -3 * ONE]]);
    assert_eq!(Matrix::activate(&a).get_matrix(), vec![vec![2 * ONE, 0, -3 * TENTH]]);
    assert_eq!(Matrix::activate_prime(&a).get_matrix(), vec![vec![ONE, ONE, TENTH]]);
}

#[test]
fn randomize_fills_with_values_in_unit_range() {
    let mut m = Matrix::new(4, 5);
    m.randomize();
    let values = m.get_matrix();
    assert_eq!(values.len(), 4);
    let mut all_low = true;
    for row in &values {
        assert_eq!(row.len(), 5);
        for &v in row {
            assert!((-ONE..ONE).contains(&v));
            if v != -ONE {
                all_low = false;
            }
        }
    }
    assert!(!all_low);
}

#[test]
fn add_then_subtract_restores() {
    let a = matrix_of(vec![vec![ONE, -2 * ONE, 7], vec![0, 5 * ONE, -13]]);
    let b = matrix_of(vec![vec![-3 * ONE, ONE / 3, 11], vec![ONE, -ONE, 2 * ONE]]);
    let sum = Matrix::add(&a, &b).unwrap();
    let back = Matrix::subtract(&sum, &b).unwrap();
    assert_eq!(back.get_matrix(), a.get_matrix());
}

#[test]
fn transpose_twice_restores() {
    let a = matrix_of(vec![vec![1, 2, 3], vec![4, 5, 6]]);
    let back = Matrix::transpose(&Matrix::transpose(&a));
    assert_eq!(back.rows(), 2);
    assert_eq!(back.columns(), 3);
    assert_eq!(back.get_matrix(), a.get_matrix());
}

#[test]
fn multiply_by_identity_restores() {
    let a = matrix_of(vec![vec![ONE, -2 * ONE, 7], vec![0, 5 * ONE / 4, -13]]);
    let id = matrix_of(vec![vec![ONE, 0, 0], vec![0, ONE, 0], vec![0, 0, ONE]]);
    let m = Matrix::multiply(&a, &id).unwrap();
    assert_eq!(m.get_matrix(), a.get_matrix());
}
