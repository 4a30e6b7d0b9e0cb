use whitedog::sheet::error::SheetError;
use whitedog::sheet::index::{is_letter_char, letter_place, MatrixIndex, MAX_COL, MAX_ROW, NUM_ALPHABETS};
use whitedog::sheet::shape::MatrixShape;

fn index(col: u16, row: Option<u32>) -> MatrixIndex {
    MatrixIndex::new(col, row)
}

#[test]
fn limits_are_those_of_a_sheet() {
    assert_eq!(MAX_ROW, 5_000_000);
    assert_eq!(MAX_COL, 17_576);
    assert_eq!(NUM_ALPHABETS, 26);
}

#[test]
fn new_index_holds_its_parts() {
    let i = MatrixIndex::new(3, Some(9));
    assert_eq!(i.col, 3);
    assert_eq!(i.row, Some(9));
    assert_eq!(MatrixIndex::new(0, None), MatrixIndex::default());
}

#[test]
fn addresses_are_read() {
    assert_eq!(MatrixIndex::from_str("A1"), Ok(index(0, Some(0))));
    assert_eq!(MatrixIndex::from_str("B7"), Ok(index(1, Some(6))));
    assert_eq!(MatrixIndex::from_str("b7"), Ok(index(1, Some(6))));
    assert_eq!(MatrixIndex::from_str("Z"), Ok(index(25, None)));
    assert_eq!(MatrixIndex::from_str("AA"), Ok(index(0, None)));
    assert_eq!(MatrixIndex::from_str("BA"), Ok(index(26, None)));
    assert_eq!(MatrixIndex::from_str("BC12"), Ok(index(28, Some(11))));
    assert_eq!(MatrixIndex::from_str("ZZZ"), Ok(index(17_575, None)));
    assert_eq!(MatrixIndex::from_str("zzz5000000"), Ok(index(17_575, Some(4_999_999))));
    assert_eq!(MatrixIndex::from_str("12"), Ok(index(0, Some(11))));
    assert_eq!(MatrixIndex::from_str("A+3"), Ok(index(0, Some(2))));
    assert_eq!(MatrixIndex::from_str("A007"), Ok(index(0, Some(6))));
}

#[test]
fn bad_addresses_are_turned_down() {
    assert_eq!(MatrixIndex::from_str(""), Err(SheetError::EmptyIndex));
    assert_eq!(MatrixIndex::from_str("É1"), Err(SheetError::NonAsciiIndex));
    assert_eq!(MatrixIndex::from_str("A1é"), Err(SheetError::NonAsciiIndex));
    assert_eq!(MatrixIndex::from_str("ZZZZ"), Err(SheetError::ColumnOutOfRange));
    assert_eq!(MatrixIndex::from_str("BAAA"), Err(SheetError::ColumnOutOfRange));
    assert_eq!(MatrixIndex::from_str("ZZZZZZZZZZZZ1"), Err(SheetError::ColumnOutOfRange));
    assert_eq!(MatrixIndex::from_str("ZZZZx!"), Err(SheetError::ColumnOutOfRange));
    assert_eq!(MatrixIndex::from_str("A0"), Err(SheetError::ZeroRow));
    assert_eq!(MatrixIndex::from_str("A000"), Err(SheetError::ZeroRow));
    assert_eq!(MatrixIndex::from_str("A5000001"), Err(SheetError::RowOutOfRange));
    assert_eq!(MatrixIndex::from_str("A4294967295"), Err(SheetError::RowOutOfRange));
    assert_eq!(MatrixIndex::from_str("A4294967296"), Err(SheetError::InvalidRow));
    assert_eq!(MatrixIndex::from_str("A1B"), Err(SheetError::InvalidRow));
    assert_eq!(MatrixIndex::from_str("A-1"), Err(SheetError::InvalidRow));
    assert_eq!(MatrixIndex::from_str("A 1"), Err(SheetError::InvalidRow));
    assert_eq!(MatrixIndex::from_str("$A$1"), Err(SheetError::InvalidRow));
    assert_eq!(MatrixIndex::from_str("A+"), Err(SheetError::InvalidRow));
}

#[test]
fn letters_have_places() {
    assert!(is_letter_char('A') && is_letter_char('z') && is_letter_char('m'));
    assert!(!is_letter_char('@') && !is_letter_char('[') && !is_letter_char('`') && !is_letter_char('{') && !is_letter_char('1'));
    assert_eq!(letter_place('A'), 0);
    assert_eq!(letter_place('a'), 0);
    assert_eq!(letter_place('Z'), 25);
    assert_eq!(letter_place('q'), 16);
}

#[test]
fn addresses_are_written_least_letter_first() {
    assert_eq!(index(0, Some(0)).to_string(), "A1");
    assert_eq!(index(25, None).to_string(), "Z");
    assert_eq!(index(26, None).to_string(), "AB");
    assert_eq!(index(27, Some(41)).to_string(), "BB42");
    assert_eq!(index(17_575, Some(4_999_999)).to_string(), "ZZZ5000000");
    assert_eq!(index(65_535, Some(u32::MAX)).to_string(), "PYSD4294967296");
    assert_eq!(index(3, Some(9)).to_chars(), vec!['D', '1', '0']);
}

#[test]
fn single_letter_addresses_read_back() {
    for col in 0..26u16 {
        for row in [None, Some(0u32), Some(41), Some(4_999_999)] {
            let i = index(col, row);
            assert_eq!(MatrixIndex::from_str(&i.to_string()), Ok(i));
        }
    }
}

#[test]
fn addresses_are_ordered_by_column_then_row() {
    assert!(index(0, Some(5)).precedes(&index(1, Some(0))));
    assert!(!index(1, Some(0)).precedes(&index(0, Some(5))));
    assert!(index(2, None).precedes(&index(2, Some(0))));
    assert!(!index(2, Some(0)).precedes(&index(2, None)));
    assert!(index(2, Some(3)).precedes(&index(2, Some(3))));
    assert!(index(2, None).precedes(&index(2, None)));
    assert!(index(2, Some(3)).precedes(&index(2, Some(4))));
    assert!(!index(2, Some(4)).precedes(&index(2, Some(3))));
    for (a, b) in [(index(0, Some(5)), index(1, Some(0))), (index(2, None), index(2, Some(0))), (index(4, Some(1)), index(4, Some(1)))] {
        assert_eq!(a.precedes(&b), a <= b);
        assert_eq!(b.precedes(&a), b <= a);
        assert_eq!(a.same(&b), a == b);
    }
}

#[test]
fn ranges_are_read() {
    let shape = MatrixShape::from_str("Sheet1!A1:B2").unwrap();
    assert_eq!(shape.sheet, "Sheet1");
    assert_eq!(shape.start, index(0, Some(0)));
    assert_eq!(shape.end, index(1, Some(1)));
    assert_eq!(shape.cols(), 2);
    assert_eq!(shape.rows(), Some(2));

    let swapped = MatrixShape::from_str("Data!C9:A2").unwrap();
    assert_eq!(swapped.start, index(0, Some(1)));
    assert_eq!(swapped.end, index(2, Some(8)));
    assert_eq!(swapped.cols(), 3);
    assert_eq!(swapped.rows(), Some(8));

    let single = MatrixShape::from_str("Metadata!G1").unwrap();
    assert_eq!(single.start, index(6, Some(0)));
    assert_eq!(single.end, index(6, Some(0)));
    assert_eq!(single.cols(), 1);
    assert_eq!(single.rows(), Some(1));

    let open = MatrixShape::from_str("S!A2:G").unwrap();
    assert_eq!(open.start, index(0, Some(1)));
    assert_eq!(open.end, index(6, None));
    assert!(open.columns_countable());
    assert!(open.rows_countable());
    assert_eq!(open.cols(), 7);
    assert_eq!(open.rows(), None);

    let reversed = MatrixShape {
        sheet: "S".to_string(),
        start: index(6, None),
        end: index(0, Some(1)),
    };
    assert!(!reversed.columns_countable());

    let columns = MatrixShape::from_str("S!A:C").unwrap();
    assert_eq!(columns.cols(), 3);
    assert_eq!(columns.rows(), None);

    let below = MatrixShape::from_str("S!A:C7").unwrap();
    assert_eq!(below.rows(), Some(6));

    let ignored = MatrixShape::from_str("!A1:B2:C3").unwrap();
    assert_eq!(ignored.sheet, "");
    assert_eq!(ignored.end, index(1, Some(1)));
}

#[test]
fn lexicographic_order_can_leave_rows_uncountable() {
    let shape = MatrixShape::from_str("S!A5:B2").unwrap();
    assert_eq!(shape.start, index(0, Some(4)));
    assert_eq!(shape.end, index(1, Some(1)));
    assert!(shape.columns_countable());
    assert!(!shape.rows_countable());
    assert_eq!(shape.cols(), 2);
}

#[test]
fn bad_ranges_are_turned_down() {
    assert!(matches!(MatrixShape::from_str("A1:B2"), Err(SheetError::MissingSheetName)));
    assert!(matches!(MatrixShape::from_str(""), Err(SheetError::MissingSheetName)));
    assert!(matches!(MatrixShape::from_str("a!b!c"), Err(SheetError::MalformedShape)));
    assert!(matches!(MatrixShape::from_str("S!"), Err(SheetError::EmptyIndex)));
    assert!(matches!(MatrixShape::from_str("S!A1:"), Err(SheetError::EmptyIndex)));
    assert!(matches!(MatrixShape::from_str("S!:A1"), Err(SheetError::EmptyIndex)));
    assert!(matches!(MatrixShape::from_str("S!A0:B2"), Err(SheetError::ZeroRow)));
    assert!(matches!(MatrixShape::from_str("S!A1:ZZZZ"), Err(SheetError::ColumnOutOfRange)));
    assert!(matches!(MatrixShape::from_str("S!A0:ZZZZ"), Err(SheetError::ZeroRow)));
}

#[test]
fn ranges_are_written() {
    assert_eq!(MatrixShape::from_str("Sheet1!A1:B2").unwrap().to_string(), "Sheet1!A1:B2");
    assert_eq!(MatrixShape::from_str("Sheet1!B2:A1").unwrap().to_string(), "Sheet1!A1:B2");
    assert_eq!(MatrixShape::from_str("Metadata!G1").unwrap().to_string(), "Metadata!G1");
    assert_eq!(MatrixShape::from_str("Metadata!G1:G1").unwrap().to_string(), "Metadata!G1");
    assert_eq!(MatrixShape::from_str("S!A:C").unwrap().to_string(), "S!A:C");
    let wide = MatrixShape {
        sheet: "T".to_string(),
        start: index(26, Some(0)),
        end: index(27, None),
    };
    assert_eq!(wide.to_string(), "T!AB1:BB");
}
