use rtracer::MatrixMethods;

#[test]
fn create_a_submatrix_from_a_3x3_matrix() {
    let data: Vec<i64> = vec![1, 5, 0, -3, 2, 7, 0, 6, -3];
    let m = MatrixMethods::new(&data, 3);

    let result = m.submatrix_data(0, 2);

    assert_eq!(result, vec![-3, 2, 0, 6]);
}

#[test]
fn entries_are_read_row_major() {
    let data: Vec<i64> = vec![1, 2, 3, 4, 5, 6, 7, 8, 9];
    let m = MatrixMethods::new(&data, 3);

    assert_eq!(m.at(0, 0), 1);
    assert_eq!(m.at(0, 2), 3);
    assert_eq!(m.at(1, 0), 4);
    assert_eq!(m.at(2, 1), 8);
}

#[test]
fn create_a_submatrix_from_a_4x4_matrix() {
    let data: Vec<i64> = (0..16).collect();
    let m = MatrixMethods::new(&data, 4);

    let result = m.submatrix_data(1, 1);

    assert_eq!(result, vec![0, 2, 3, 8, 10, 11, 12, 14, 15]);
}

#[test]
fn matrices_can_be_transposed() {
    let data: Vec<i64> = vec![0, 9, 3, 0, 9, 8, 0, 8, 1, 8, 5, 3, 0, 0, 5, 8];
    let m = MatrixMethods::new(&data, 4);

    let transposed = m.transpose_data();

    assert_eq!(
        transposed,
        vec![0, 9, 1, 0, 9, 8, 8, 0, 3, 0, 5, 5, 0, 8, 3, 8]
    );
}

#[test]
fn a_submatrix_of_a_2x2_matrix_is_a_single_entry() {
    let data: Vec<i64> = vec![1, 5, -3, 2];
    let m = MatrixMethods::new(&data, 2);

    assert_eq!(m.submatrix_data(0, 0), vec![2]);
    assert_eq!(m.submatrix_data(1, 0), vec![5]);
}
