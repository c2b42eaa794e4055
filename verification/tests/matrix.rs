use raytracer::matrix::Matrix4;

#[test]
fn transpose_swaps_rows_and_columns() {
    let matrix = Matrix4::raw([
        0.0f64, 1.0, 2.0, 3.0, 4.0, 5.0, 6.0, 7.0, 8.0, 9.0, 10.0, 11.0, 12.0, 13.0, 14.0, 15.0,
    ]);
    let flipped = matrix.transpose();
    assert_eq!(
        *flipped.cells(),
        [0.0, 4.0, 8.0, 12.0, 1.0, 5.0, 9.0, 13.0, 2.0, 6.0, 10.0, 14.0, 3.0, 7.0, 11.0, 15.0]
    );
}

#[test]
fn transpose_moves_a_translation_to_the_last_row() {
    let mut cells = [0i32; 16];
    cells[0] = 1;
    cells[5] = 1;
    cells[10] = 1;
    cells[15] = 1;
    cells[3] = 5;
    cells[7] = 6;
    cells[11] = 7;
    let flipped = Matrix4::raw(cells).transpose();
    assert_eq!(
        *flipped.cells(),
        [1, 0, 0, 0, 0, 1, 0, 0, 0, 0, 1, 0, 5, 6, 7, 1]
    );
}

#[test]
fn transposing_twice_gives_the_matrix_back() {
    let mut cells = [0u32; 16];
    for (i, cell) in cells.iter_mut().enumerate() {
        *cell = (i * i + 3) as u32;
    }
    let matrix = Matrix4::raw(cells);
    assert_eq!(*matrix.transpose().transpose().cells(), cells);
}

#[test]
fn raw_keeps_the_coefficients() {
    let cells = [7u8; 16];
    assert_eq!(*Matrix4::raw(cells).cells(), cells);
}
