use lgbm::mat::{AsMat, ColMajor, Endpoint, Mat, MatLayout, MatLayouts, RowMajor};
use lgbm::{Error, MatBuf};

fn sample() -> MatBuf<i32, RowMajor> {
    MatBuf::from_rows(vec![[1, 2, 3], [4, 5, 6]])
}

#[test]
fn new_is_filled_with_defaults() {
    let m: MatBuf<i32, RowMajor> = MatBuf::new(3, 4);
    assert_eq!(m.nrow(), 3);
    assert_eq!(m.ncol(), 4);
    assert_eq!(m.layout(), MatLayouts::RowMajor);
    assert_eq!(m.as_slice(), &[0; 12]);
}

#[test]
fn new_defaults_to_column_major() {
    let m: MatBuf<u8> = MatBuf::new(2, 2);
    assert_eq!(m.layout(), MatLayouts::ColMajor);
    let m: MatBuf<u8, MatLayouts> = MatBuf::new(2, 2);
    assert_eq!(m.layout(), MatLayouts::ColMajor);
}

#[test]
fn new_with_no_rows_or_no_columns_is_empty() {
    let m: MatBuf<i64, RowMajor> = MatBuf::new(0, 5);
    assert_eq!(m.as_slice().len(), 0);
    let m: MatBuf<i64, ColMajor> = MatBuf::new(5, 0);
    assert_eq!(m.as_slice().len(), 0);
    assert_eq!(m.nrow(), 5);
    assert_eq!(m.ncol(), 0);
}

#[test]
fn rows_round_trip() {
    let m = sample();
    assert_eq!(m.nrow(), 2);
    assert_eq!(m.ncol(), 3);
    assert_eq!(m.row(0), &[1, 2, 3]);
    assert_eq!(m.row(1), &[4, 5, 6]);
    assert_eq!(m.as_slice(), &[1, 2, 3, 4, 5, 6]);
}

#[test]
fn column_major_holds_columns_together() {
    let m = MatBuf::from_vec(vec![1, 4, 2, 5, 3, 6], 2, 3, ColMajor).unwrap();
    assert_eq!(m.as_slice(), &[1, 4, 2, 5, 3, 6]);
    assert_eq!(m.col(0), &[1, 4]);
    assert_eq!(m.col(1), &[2, 5]);
    assert_eq!(m.col(2), &[3, 6]);
    let rows = [[1, 2, 3], [4, 5, 6]];
    for row in 0..2 {
        for col in 0..3 {
            assert_eq!(*m.at(row, col), rows[row][col]);
            assert_eq!(m[[row, col]], rows[row][col]);
        }
    }
}

#[test]
fn both_layouts_show_the_same_grid() {
    let by_row = MatBuf::from_vec(vec![1, 2, 3, 4, 5, 6], 2, 3, MatLayouts::RowMajor).unwrap();
    let by_col = MatBuf::from_vec(vec![1, 4, 2, 5, 3, 6], 2, 3, MatLayouts::ColMajor).unwrap();
    for row in 0..2 {
        for col in 0..3 {
            assert_eq!(by_row.at(row, col), by_col.at(row, col));
        }
    }
}

#[test]
fn from_vec_rejects_a_wrong_length() {
    assert_eq!(MatBuf::from_vec(vec![1, 2, 3], 2, 2, RowMajor).err(), Some(Error::ShapeMismatch));
    assert_eq!(MatBuf::from_vec(vec![1, 2, 3, 4, 5], 2, 2, ColMajor).err(), Some(Error::ShapeMismatch));
    assert_eq!(
        MatBuf::from_vec(vec![1u8], usize::MAX, 2, ColMajor).err(),
        Some(Error::ShapeMismatch)
    );
    assert!(MatBuf::from_vec(Vec::<i32>::new(), 0, 7, RowMajor).is_ok());
}

#[test]
fn from_slice_rejects_a_wrong_length() {
    let values = [1, 2, 3, 4, 5, 6];
    assert!(Mat::from_slice(&values, 2, 3, RowMajor).is_ok());
    assert_eq!(Mat::from_slice(&values, 2, 2, RowMajor).err(), Some(Error::ShapeMismatch));
    assert_eq!(
        Mat::from_slice(&values, usize::MAX, usize::MAX, RowMajor).err(),
        Some(Error::ShapeMismatch)
    );
}

#[test]
fn from_rows_non_empty_tells_empty_from_malformed() {
    let none: Vec<Vec<i32>> = Vec::new();
    assert!(matches!(MatBuf::from_rows_non_empty(&none), Ok(None)));
    let ragged = vec![vec![1, 2], vec![1]];
    assert_eq!(MatBuf::from_rows_non_empty(&ragged).err(), Some(Error::ColumnCountMismatch));
    let even = vec![vec![1, 2], vec![3, 4], vec![5, 6]];
    let m = MatBuf::from_rows_non_empty(&even).unwrap().unwrap();
    assert_eq!(m.nrow(), 3);
    assert_eq!(m.ncol(), 2);
    assert_eq!(m.as_slice(), &[1, 2, 3, 4, 5, 6]);
    assert_eq!(m.row(2), &[5, 6]);
}

#[test]
fn from_rows_non_empty_takes_rows_without_columns() {
    let rows: Vec<Vec<i32>> = vec![vec![], vec![]];
    let m = MatBuf::from_rows_non_empty(&rows).unwrap().unwrap();
    assert_eq!(m.nrow(), 2);
    assert_eq!(m.ncol(), 0);
    let rows: Vec<Vec<i32>> = vec![vec![], vec![1]];
    assert_eq!(MatBuf::from_rows_non_empty(&rows).err(), Some(Error::ColumnCountMismatch));
}

#[test]
fn a_written_element_is_read_back_and_moves_no_other() {
    for layout in [MatLayouts::RowMajor, MatLayouts::ColMajor] {
        let mut m = MatBuf::from_vec(vec![0; 12], 3, 4, layout).unwrap();
        *m.at_mut(1, 2) = 7;
        for row in 0..3 {
            for col in 0..4 {
                let expected = if (row, col) == (1, 2) { 7 } else { 0 };
                assert_eq!(*m.at(row, col), expected);
            }
        }
        *m.at_mut(2, 1) = 9;
        assert_eq!(*m.at(1, 2), 7);
        assert_eq!(*m.at(2, 1), 9);
    }
}

#[test]
fn a_written_row_is_read_back() {
    let mut m = sample();
    m.row_mut(1).copy_from_slice(&[7, 8, 9]);
    assert_eq!(m.row(0), &[1, 2, 3]);
    assert_eq!(m.row(1), &[7, 8, 9]);
    assert_eq!(m.as_slice(), &[1, 2, 3, 7, 8, 9]);
}

#[test]
fn a_written_column_is_read_back() {
    let mut m = MatBuf::from_vec(vec![1, 4, 2, 5, 3, 6], 2, 3, ColMajor).unwrap();
    m.col_mut(1).copy_from_slice(&[7, 8]);
    assert_eq!(m.col(0), &[1, 4]);
    assert_eq!(m.col(1), &[7, 8]);
    assert_eq!(m.col(2), &[3, 6]);
}

#[test]
fn the_buffer_can_be_written_as_a_whole() {
    let mut m = sample();
    m.as_mut_slice()[4] = 50;
    assert_eq!(*m.at(1, 1), 50);
    assert_eq!(m.nrow(), 2);
    assert_eq!(m.ncol(), 3);
}

#[test]
fn rows_of_a_range_are_rows_of_the_whole() {
    let m = MatBuf::from_rows(vec![[0, 1], [10, 11], [20, 21], [30, 31], [40, 41]]);
    let part = m.rows(Endpoint::Included(1), Endpoint::Excluded(3));
    assert_eq!(part.nrow(), 2);
    assert_eq!(part.ncol(), 2);
    assert_eq!(part.row(0), m.row(1));
    assert_eq!(part.row(1), m.row(2));
    assert_eq!(part.as_slice(), &[10, 11, 20, 21]);
    assert_eq!(part.layout(), MatLayouts::RowMajor);
}

#[test]
fn rows_take_every_kind_of_endpoint() {
    let m = MatBuf::from_rows(vec![[0], [1], [2], [3], [4]]);
    assert_eq!(m.rows(Endpoint::Unbounded, Endpoint::Unbounded).as_slice(), &[0, 1, 2, 3, 4]);
    assert_eq!(m.rows(Endpoint::Included(2), Endpoint::Included(3)).as_slice(), &[2, 3]);
    assert_eq!(m.rows(Endpoint::Excluded(2), Endpoint::Unbounded).as_slice(), &[3, 4]);
    assert_eq!(m.rows(Endpoint::Unbounded, Endpoint::Excluded(0)).nrow(), 0);
    assert_eq!(m.rows(Endpoint::Included(5), Endpoint::Excluded(5)).nrow(), 0);
    assert_eq!(m.rows(Endpoint::Excluded(4), Endpoint::Unbounded).nrow(), 0);
}

#[test]
fn cols_of_a_range_are_cols_of_the_whole() {
    let m = MatBuf::from_vec(vec![1, 4, 2, 5, 3, 6], 2, 3, ColMajor).unwrap();
    let part = m.cols(Endpoint::Included(1), Endpoint::Unbounded);
    assert_eq!(part.nrow(), 2);
    assert_eq!(part.ncol(), 2);
    assert_eq!(part.col(0), m.col(1));
    assert_eq!(part.col(1), m.col(2));
    assert_eq!(*part.at(1, 0), 5);
    let inner = part.cols(Endpoint::Included(1), Endpoint::Included(1));
    assert_eq!(inner.as_slice(), &[3, 6]);
}

#[test]
fn map_keeps_the_shape_and_doubles() {
    let m = sample();
    let twice = m.map(|x| x * 2);
    assert_eq!(twice.nrow(), 2);
    assert_eq!(twice.ncol(), 3);
    assert_eq!(twice.layout(), MatLayouts::RowMajor);
    assert_eq!(twice.as_slice(), &[2, 4, 6, 8, 10, 12]);
    let four = twice.map(|x| x * 2);
    assert_eq!(four.as_slice(), m.map(|x| x * 4).as_slice());
    assert_eq!(m.as_slice(), &[1, 2, 3, 4, 5, 6]);
}

#[test]
fn map_may_change_the_element_type() {
    let m = MatBuf::from_vec(vec![1, 4, 2, 5, 3, 6], 2, 3, ColMajor).unwrap();
    let odd = m.map(|x| x % 2 == 1);
    assert_eq!(odd.layout(), MatLayouts::ColMajor);
    assert_eq!(odd.col(0), &[true, false]);
    assert_eq!(*odd.at(0, 2), true);
}

#[test]
fn an_access_outside_the_matrix_is_an_error() {
    let m: MatBuf<i32, RowMajor> = MatBuf::new(3, 2);
    assert_eq!(m.get(5, 0).err(), Some(Error::IndexOutOfBounds));
    assert_eq!(m.get(3, 0).err(), Some(Error::IndexOutOfBounds));
    assert_eq!(m.get(0, 2).err(), Some(Error::IndexOutOfBounds));
    assert_eq!(m.get(usize::MAX, usize::MAX).err(), Some(Error::IndexOutOfBounds));
    assert_eq!(m.get(2, 1), Ok(&0));
    let view = m.as_mat();
    assert_eq!(view.get(5, 0).err(), Some(Error::IndexOutOfBounds));
    assert_eq!(view.get(0, 5).err(), Some(Error::IndexOutOfBounds));
    assert_eq!(view.get(0, 1), Ok(&0));
}

#[test]
fn a_view_shows_the_matrix() {
    let m = sample();
    let view = m.as_mat();
    assert_eq!(view.nrow(), 2);
    assert_eq!(view.ncol(), 3);
    assert_eq!(view.as_slice(), m.as_slice());
    assert_eq!(view.is_row_major(), 1);
    assert_eq!(view.row(1), &[4, 5, 6]);
    assert_eq!(view[[1, 0]], 4);
    let again = (&m).as_mat();
    assert_eq!(again.as_slice(), view.as_slice());
    let copy = view;
    assert_eq!(copy.as_mat().as_slice(), view.as_slice());
}

#[test]
fn from_row_is_one_row() {
    let values = [7, 8, 9];
    let m = Mat::from_row(&values);
    assert_eq!(m.nrow(), 1);
    assert_eq!(m.ncol(), 3);
    assert_eq!(m.row(0), &values);
    assert_eq!(m.is_row_major(), 1);
}

#[test]
fn is_row_major_is_zero_for_columns() {
    let values = [1, 2, 3, 4];
    let m = Mat::from_slice(&values, 2, 2, ColMajor).unwrap();
    assert_eq!(m.is_row_major(), 0);
    assert_eq!(m.col(1), &[3, 4]);
    let m = Mat::from_slice(&values, 2, 2, MatLayouts::RowMajor).unwrap();
    assert_eq!(m.is_row_major(), 1);
}

#[test]
fn to_index_follows_the_layout() {
    assert_eq!(RowMajor.to_index(1, 2, 3, 4), 6);
    assert_eq!(ColMajor.to_index(1, 2, 3, 4), 7);
    assert_eq!(MatLayouts::RowMajor.to_index(2, 3, 3, 4), 11);
    assert_eq!(MatLayouts::ColMajor.to_index(2, 3, 3, 4), 11);
    assert_eq!(RowMajor.layout(), MatLayouts::RowMajor);
    assert_eq!(ColMajor.layout(), MatLayouts::ColMajor);
    assert_eq!(MatLayouts::default(), MatLayouts::ColMajor);
}

#[test]
fn a_clone_is_a_matrix_of_its_own() {
    let m = sample();
    let mut copy = m.clone();
    *copy.at_mut(0, 0) = 100;
    assert_eq!(*m.at(0, 0), 1);
    assert_eq!(*copy.at(0, 0), 100);
    assert_eq!(copy.nrow(), 2);
    assert_eq!(copy.ncol(), 3);
}

#[test]
fn from_rows_non_empty_clones_the_elements() {
    let rows = vec![
        vec!["a".to_string(), "b".to_string()],
        vec!["c".to_string(), "d".to_string()],
    ];
    let m = MatBuf::from_rows_non_empty(&rows).unwrap().unwrap();
    assert_eq!(m.row(1), &["c".to_string(), "d".to_string()]);
    assert_eq!(rows[1][0], "c");
    assert_eq!(*m.at(0, 1), "b");
}

#[test]
fn from_rows_takes_elements_that_cannot_be_copied() {
    let m = MatBuf::from_rows(vec![[vec![1], vec![2, 2]], [vec![], vec![4]]]);
    assert_eq!(m.nrow(), 2);
    assert_eq!(m.ncol(), 2);
    assert_eq!(*m.at(0, 1), vec![2, 2]);
    assert_eq!(m.row(1), &[vec![], vec![4]]);
}

#[test]
fn from_rows_without_rows_is_empty() {
    let m: MatBuf<i32, RowMajor> = MatBuf::from_rows(Vec::<[i32; 3]>::new());
    assert_eq!(m.nrow(), 0);
    assert_eq!(m.ncol(), 3);
    assert_eq!(m.as_slice().len(), 0);
    let m: MatBuf<i32, RowMajor> = MatBuf::from_rows(vec![[], []]);
    assert_eq!(m.nrow(), 2);
    assert_eq!(m.ncol(), 0);
}

#[test]
fn a_written_element_shows_in_the_buffer_at_its_offset() {
    let mut by_row: MatBuf<i32, RowMajor> = MatBuf::new(2, 3);
    *by_row.at_mut(1, 0) = 5;
    assert_eq!(by_row.as_slice(), &[0, 0, 0, 5, 0, 0]);
    let mut by_col: MatBuf<i32, ColMajor> = MatBuf::new(2, 3);
    *by_col.at_mut(1, 0) = 5;
    assert_eq!(by_col.as_slice(), &[0, 5, 0, 0, 0, 0]);
}

#[test]
fn a_write_outside_the_matrix_is_an_error_and_writes_nothing() {
    for layout in [MatLayouts::RowMajor, MatLayouts::ColMajor] {
        let mut m = MatBuf::from_vec(vec![1, 2, 3, 4, 5, 6], 3, 2, layout).unwrap();
        assert_eq!(m.get_mut(5, 0).err(), Some(Error::IndexOutOfBounds));
        assert_eq!(m.get_mut(3, 0).err(), Some(Error::IndexOutOfBounds));
        assert_eq!(m.get_mut(0, 2).err(), Some(Error::IndexOutOfBounds));
        assert_eq!(m.get_mut(usize::MAX, usize::MAX).err(), Some(Error::IndexOutOfBounds));
        assert_eq!(m.as_slice(), &[1, 2, 3, 4, 5, 6]);
        assert_eq!(m.nrow(), 3);
        assert_eq!(m.ncol(), 2);
    }
}

#[test]
fn a_checked_write_is_read_back() {
    let mut m: MatBuf<i32, ColMajor> = MatBuf::new(3, 2);
    *m.get_mut(2, 1).unwrap() = 8;
    assert_eq!(m.get(2, 1), Ok(&8));
    assert_eq!(m.as_slice(), &[0, 0, 0, 0, 0, 8]);
    assert_eq!(*m.at(2, 0), 0);
}
