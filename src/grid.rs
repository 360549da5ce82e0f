use vstd::prelude::*;

verus! {

/// The row (or column) of a full matrix that row (or column) `i` of a
/// submatrix comes from, when row (or column) `removed` was taken out.
pub open spec fn source_line(i: int, removed: int) -> int {
    if i < removed {
        i
    } else {
        i + 1
    }
}

fn source_index(i: usize, removed: usize) -> (r: usize)
    requires
        i < 3,
    ensures
        r == source_line(i as int, removed as int),
{
    if i < removed {
        i
    } else {
        i + 1
    }
}

/// The transpose of a 4x4 matrix: entry (row, col) becomes entry (col, row).
pub fn transpose<T: Copy>(m: &[[T; 4]; 4]) -> (r: [[T; 4]; 4])
    ensures
        forall|i: int, j: int| 0 <= i < 4 && 0 <= j < 4 ==> #[trigger] r[i][j] == m[j][i],
{
    [
        [m[0][0], m[1][0], m[2][0], m[3][0]],
        [m[0][1], m[1][1], m[2][1], m[3][1]],
        [m[0][2], m[1][2], m[2][2], m[3][2]],
        [m[0][3], m[1][3], m[2][3], m[3][3]],
    ]
}

/// The 3x3 matrix left when row `row` and column `col` are taken out of `m`.
pub fn submatrix4<T: Copy>(m: &[[T; 4]; 4], row: usize, col: usize) -> (r: [[T; 3]; 3])
    requires
        row < 4,
        col < 4,
    ensures
        forall|i: int, j: int| 0 <= i < 3 && 0 <= j < 3
            ==> #[trigger] r[i][j] == m[source_line(i, row as int)][source_line(j, col as int)],
{
    let r0 = source_index(0, row);
    let r1 = source_index(1, row);
    let r2 = source_index(2, row);
    let c0 = source_index(0, col);
    let c1 = source_index(1, col);
    let c2 = source_index(2, col);
    [
        [m[r0][c0], m[r0][c1], m[r0][c2]],
        [m[r1][c0], m[r1][c1], m[r1][c2]],
        [m[r2][c0], m[r2][c1], m[r2][c2]],
    ]
}

/// The 2x2 matrix left when row `row` and column `col` are taken out of `m`.
pub fn submatrix3<T: Copy>(m: &[[T; 3]; 3], row: usize, col: usize) -> (r: [[T; 2]; 2])
    requires
        row < 3,
        col < 3,
    ensures
        forall|i: int, j: int| 0 <= i < 2 && 0 <= j < 2
            ==> #[trigger] r[i][j] == m[source_line(i, row as int)][source_line(j, col as int)],
{
    let r0 = source_index(0, row);
    let r1 = source_index(1, row);
    let c0 = source_index(0, col);
    let c1 = source_index(1, col);
    [[m[r0][c0], m[r0][c1]], [m[r1][c0], m[r1][c1]]]
}

} // verus!
