use raytracer::{submatrix3, submatrix4, transpose};

#[test]
fn can_transpose_matrix() {
    let m1 = [
        [1.0, 2.0, 3.0, 4.0],
        [2.0, 4.0, 4.0, 2.0],
        [8.0, 6.0, 4.0, 1.0],
        [0.0, 0.0, 0.0, 1.0],
    ];
    let m2 = [
        [1.0, 2.0, 8.0, 0.0],
        [2.0, 4.0, 6.0, 0.0],
        [3.0, 4.0, 4.0, 0.0],
        [4.0, 2.0, 1.0, 1.0],
    ];
    assert_eq!(transpose(&m1), m2);
}

#[test]
fn transposing_the_identity_gives_the_identity() {
    let id = [
        [1.0, 0.0, 0.0, 0.0],
        [0.0, 1.0, 0.0, 0.0],
        [0.0, 0.0, 1.0, 0.0],
        [0.0, 0.0, 0.0, 1.0],
    ];
    assert_eq!(transpose(&id), id);
}

#[test]
fn transposing_twice_gives_the_matrix_back() {
    let m: [[i32; 4]; 4] = [[1, 2, 3, 4], [5, 6, 7, 8], [9, 10, 11, 12], [13, 14, 15, 16]];
    assert_eq!(transpose(&transpose(&m)), m);
}

#[test]
fn can_calculate_3x3_submatrix() {
    let a = [[1.0, 5.0, 0.0], [-3.0, 2.0, 7.0], [0.0, 6.0, -3.0]];
    let b = [[-3.0, 2.0], [0.0, 6.0]];
    assert_eq!(submatrix3(&a, 0, 2), b);
}

#[test]
fn can_calculate_4x4_submatrix() {
    let a = [
        [-6.0, 1.0, 1.0, 6.0],
        [-8.0, 5.0, 8.0, 6.0],
        [-1.0, 0.0, 8.0, 2.0],
        [-7.0, 1.0, -1.0, 1.0],
    ];
    let b = [[-6.0, 1.0, 6.0], [-8.0, 8.0, 6.0], [-7.0, -1.0, 1.0]];
    assert_eq!(submatrix4(&a, 2, 1), b);
}

#[test]
fn submatrix_of_the_first_and_last_lines() {
    let m: [[i32; 4]; 4] = [[1, 2, 3, 4], [5, 6, 7, 8], [9, 10, 11, 12], [13, 14, 15, 16]];
    assert_eq!(submatrix4(&m, 0, 0), [[6, 7, 8], [10, 11, 12], [14, 15, 16]]);
    assert_eq!(submatrix4(&m, 3, 3), [[1, 2, 3], [5, 6, 7], [9, 10, 11]]);
    let s: [[i32; 3]; 3] = [[1, 2, 3], [4, 5, 6], [7, 8, 9]];
    assert_eq!(submatrix3(&s, 2, 0), [[2, 3], [5, 6]]);
    assert_eq!(submatrix3(&s, 1, 1), [[1, 3], [7, 9]]);
}
