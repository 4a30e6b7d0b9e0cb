use whitedog::sheet::index::MatrixIndex;
use whitedog::sheet::iter::{ColIterMut, RowIterMut};
use whitedog::sheet::matrix::Matrix;
use whitedog::sheet::shape::MatrixShape;

fn grid(rows: &[&[&str]]) -> Vec<Vec<String>> {
    rows.iter().map(|r| r.iter().map(|c| c.to_string()).collect()).collect()
}

fn matrix(range: &str, rows: &[&[&str]]) -> Matrix {
    Matrix::new(MatrixShape::from_str(range).unwrap(), grid(rows))
}

#[test]
fn shape_is_kept() {
    let m = matrix("S!A1:C3", &[&["a"]]);
    assert_eq!(m.shape().to_string(), "S!A1:C3");
    assert_eq!(m.shape().cols(), 3);
    assert_eq!(m.shape().rows(), Some(3));
}

#[test]
fn asked_row_is_filled_in() {
    let mut m = matrix("S!A1:C3", &[&["a"]]);
    m.fill_default_on_row(1);
    assert_eq!(m.clone().into_rows(), grid(&[&["a", "", ""], &["", "", ""], &["", "", ""]]));
    let mut n = matrix("S!A1:C3", &[&["a"]]);
    n.fill_default_on_row(2);
    assert_eq!(n.get_row(0).map(|r| r.to_vec()), Some(vec!["a".to_string(), "".to_string(), "".to_string()]));
    assert_eq!(n.get_row(1).map(|r| r.to_vec()), Some(vec!["".to_string(); 3]));
}

#[test]
fn rows_beyond_the_range_are_not_made() {
    let mut m = matrix("S!A1:C2", &[&["a"]]);
    m.fill_default_on_row(2);
    assert_eq!(m.get_row(2).map(|r| r.to_vec()), None);
    assert_eq!(m.get_row(7).map(|r| r.to_vec()), None);
    let mut long = matrix("S!A1:B1", &[&["a"], &["b"], &["c", "d", "e"]]);
    assert_eq!(long.get_row(1).map(|r| r.to_vec()), Some(vec!["b".to_string()]));
    assert_eq!(long.get_row(2).map(|r| r.len()), Some(3));
    assert_eq!(long.get_row(0).map(|r| r.to_vec()), Some(vec!["a".to_string(), "".to_string()]));
}

#[test]
fn rows_can_be_changed_in_place() {
    let mut m = matrix("S!A1:B2", &[&["a", "b"]]);
    if let Some(row) = m.get_row(1) {
        row[1] = "new".to_string();
    }
    assert_eq!(m.into_rows(), grid(&[&["a", "b"], &["", "new"]]));
}

#[test]
fn cells_can_be_read_and_changed() {
    let mut m = matrix("S!A1:C2", &[&["a", "b"]]);
    assert_eq!(m.get(MatrixIndex::new(1, Some(0))).map(|c| c.clone()), Some("b".to_string()));
    assert_eq!(m.get(MatrixIndex::new(2, Some(0))).map(|c| c.clone()), Some("".to_string()));
    assert_eq!(m.get(MatrixIndex::new(3, Some(0))).map(|c| c.clone()), None);
    assert_eq!(m.get(MatrixIndex::new(0, Some(2))).map(|c| c.clone()), None);
    *m.get(MatrixIndex::new(2, Some(1))).unwrap() = "z".to_string();
    assert_eq!(m.into_rows(), grid(&[&["a", "b", ""], &["", "", "z"]]));
}

#[test]
fn columns_are_read_top_down() {
    let mut m = matrix("S!A1:B3", &[&["a", "b"], &["c"]]);
    assert_eq!(m.get_col(0), Some(vec!["a".to_string(), "c".to_string(), "".to_string()]));
    assert_eq!(m.get_col(1), Some(vec!["b".to_string(), "".to_string(), "".to_string()]));
    assert_eq!(m.get_col(2), None);
    assert_eq!(m.into_rows(), grid(&[&["a", "b"], &["c", ""], &["", ""]]));
    let mut untouched = matrix("S!A1:B3", &[&["a"]]);
    assert_eq!(untouched.get_col(5), None);
    assert_eq!(untouched.get_row(0).map(|r| r.len()), Some(2));
}

#[test]
fn rows_are_walked_in_order() {
    let mut m = matrix("S!A1:B2", &[&["a"], &["b", "c"], &["extra"]]);
    let mut walk = m.rows();
    assert_eq!(walk.next().map(|r| r.to_vec()), Some(vec!["a".to_string(), "".to_string()]));
    assert_eq!(walk.next().map(|r| r.to_vec()), Some(vec!["b".to_string(), "c".to_string()]));
    assert_eq!(walk.next().map(|r| r.to_vec()), Some(vec!["extra".to_string()]));
    assert_eq!(walk.next().map(|r| r.to_vec()), None);
    assert_eq!(walk.index, 4);
    let mut other = matrix("S!A1:A1", &[]);
    let mut again = RowIterMut::new(&mut other);
    assert_eq!(again.index, 0);
    assert_eq!(again.next().map(|r| r.to_vec()), Some(vec!["".to_string()]));
    assert_eq!(again.next().map(|r| r.to_vec()), None);
}

#[test]
fn columns_are_walked_in_order() {
    let mut m = matrix("S!A1:B2", &[&["a", "b"], &["c", "d"]]);
    let mut walk = m.cols();
    assert_eq!(walk.next(), Some(vec!["a".to_string(), "c".to_string()]));
    assert_eq!(walk.next(), Some(vec!["b".to_string(), "d".to_string()]));
    assert_eq!(walk.next(), None);
    assert_eq!(walk.index, 3);
    let mut other = matrix("S!C1:C2", &[&["x"]]);
    let mut again = ColIterMut::new(&mut other);
    assert_eq!(again.next(), Some(vec!["x".to_string(), "".to_string()]));
    assert_eq!(again.next(), None);
}

#[test]
fn all_rows_of_the_range_come_out() {
    assert_eq!(matrix("S!A2:B3", &[]).into_rows(), grid(&[&["", ""], &["", ""]]));
    assert_eq!(
        matrix("S!A2:B3", &[&["1", "2", "3"], &[], &["x"]]).into_rows(),
        grid(&[&["1", "2", "3"], &["", ""], &["x"]])
    );
    let open = matrix("S!A:B2", &[&["1"]]);
    assert_eq!(open.into_rows(), grid(&[&["1", ""]]));
}
