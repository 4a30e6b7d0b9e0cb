//! Ranges of cells: a sheet and two corner addresses.

use vstd::prelude::*;
use crate::sheet::error::{SheetError, SheetErrorView};
use crate::sheet::index::{index_text, parse_index, precedes, MatrixIndex, MAX_COL};
use crate::text::{split, split_on, to_chars, to_string};

verus! {

/// A range of cells on one sheet, from `start` to `end`.
#[derive(Clone, Debug)]
pub struct MatrixShape {
    pub sheet: String,
    pub start: MatrixIndex,
    pub end: MatrixIndex,
}

/// A `MatrixShape` with the name of its sheet as a character sequence.
pub struct ShapeView {
    pub sheet: Seq<char>,
    pub start: MatrixIndex,
    pub end: MatrixIndex,
}

impl View for MatrixShape {
    type V = ShapeView;

    open spec fn view(&self) -> ShapeView {
        ShapeView { sheet: self.sheet@, start: self.start, end: self.end }
    }
}

/// The range that `s` writes, in the form `Sheet!A1:B2` or `Sheet!A1`. Of the
/// two corners the one that comes first becomes the start. What follows a
/// second `:` is not read.
pub open spec fn parse_shape(s: Seq<char>) -> Result<ShapeView, SheetErrorView> {
    let parts = split(s, '!');
    if parts.len() < 2 {
        Err(SheetErrorView::MissingSheetName)
    } else if parts.len() > 2 {
        Err(SheetErrorView::MalformedShape)
    } else {
        let grid = split(parts[1], ':');
        let first = grid[0];
        let second = if grid.len() > 1 {
            grid[1]
        } else {
            grid[0]
        };
        match parse_index(first) {
            Err(e) => Err(e),
            Ok(a) => match parse_index(second) {
                Err(e) => Err(e),
                Ok(b) => if precedes(a, b) {
                    Ok(ShapeView { sheet: parts[0], start: a, end: b })
                } else {
                    Ok(ShapeView { sheet: parts[0], start: b, end: a })
                },
            },
        }
    }
}

/// The text of the range `shape`: the sheet, a `!`, the start and, where the
/// end is another address, a `:` and the end.
pub open spec fn shape_text(shape: ShapeView) -> Seq<char> {
    let head = shape.sheet + seq!['!'] + index_text(shape.start);
    if shape.start == shape.end {
        head
    } else {
        head + seq![':'] + index_text(shape.end)
    }
}

/// Whether the columns of `shape` can be counted: the end is not left of the
/// start, and the count fits 16 bits.
pub open spec fn columns_countable(shape: ShapeView) -> bool {
    shape.start.col <= shape.end.col && shape.end.col - shape.start.col < u16::MAX
}

/// Whether the rows of `shape` can be counted: where both corners have a
/// row, the end is not above the start, and the count fits 32 bits.
pub open spec fn rows_countable(shape: ShapeView) -> bool {
    match (shape.start.row, shape.end.row) {
        (Some(start), Some(end)) => start <= end && end - start < u32::MAX,
        _ => true,
    }
}

/// The number of columns of `shape`.
pub open spec fn cols_of(shape: ShapeView) -> int {
    shape.end.col - shape.start.col + 1
}

/// The number of rows of `shape`: from the start to the end where both have
/// a row, the row of the end where only the end has one, unknown where the
/// end has none.
pub open spec fn rows_of(shape: ShapeView) -> Option<int> {
    match (shape.start.row, shape.end.row) {
        (Some(start), Some(end)) => Some(end - start + 1),
        (None, Some(end)) => Some(end as int),
        (_, None) => None,
    }
}

/// A range that was read from text has columns that can be counted.
pub proof fn lemma_parsed_shape_columns(s: Seq<char>)
    ensures
        parse_shape(s) matches Ok(shape) ==> columns_countable(shape) && shape.end.col < MAX_COL
            && precedes(shape.start, shape.end),
{
}

impl MatrixShape {
    /// Reads a range such as `Sheet!A1:B2`.
    pub fn from_str(s: &str) -> (r: Result<MatrixShape, SheetError>)
        ensures
            match r {
                Ok(shape) => parse_shape(s@) == Ok::<ShapeView, SheetErrorView>(shape@),
                Err(e) => parse_shape(s@) == Err::<ShapeView, SheetErrorView>(e@),
            },
    {
        let text = to_chars(s);
        let parts = split_on(&text, '!');
        if parts.len() < 2 {
            return Err(SheetError::MissingSheetName);
        }
        if parts.len() > 2 {
            return Err(SheetError::MalformedShape);
        }
        let grid = split_on(&parts[1], ':');
        let a = match MatrixIndex::from_chars(&grid[0]) {
            Ok(a) => a,
            Err(e) => {
                return Err(e);
            },
        };
        let second = if grid.len() > 1 {
            &grid[1]
        } else {
            &grid[0]
        };
        let b = match MatrixIndex::from_chars(second) {
            Ok(b) => b,
            Err(e) => {
                return Err(e);
            },
        };
        let sheet = to_string(&parts[0]);
        if a.precedes(&b) {
            Ok(MatrixShape { sheet, start: a, end: b })
        } else {
            Ok(MatrixShape { sheet, start: b, end: a })
        }
    }

    /// The text of the range.
    pub fn to_string(&self) -> (r: String)
        ensures
            r@ == shape_text(self@),
    {
        let mut out = to_chars(self.sheet.as_str());
        out.push('!');
        let mut start = self.start.to_chars();
        out.append(&mut start);
        if !self.start.same(&self.end) {
            out.push(':');
            let mut end = self.end.to_chars();
            out.append(&mut end);
        }
        to_string(&out)
    }

    /// Whether the columns of the range can be counted.
    pub fn columns_countable(&self) -> (r: bool)
        ensures
            r == columns_countable(self@),
    {
        self.start.col <= self.end.col && self.end.col - self.start.col < u16::MAX
    }

    /// Whether the rows of the range can be counted.
    pub fn rows_countable(&self) -> (r: bool)
        ensures
            r == rows_countable(self@),
    {
        match (self.start.row, self.end.row) {
            (Some(start), Some(end)) => start <= end && end - start < u32::MAX,
            _ => true,
        }
    }

    /// The number of columns of the range.
    pub fn cols(&self) -> (r: u16)
        requires
            columns_countable(self@),
        ensures
            r == cols_of(self@),
    {
        self.end.col - self.start.col + 1
    }

    /// The number of rows of the range, where its end has a row.
    pub fn rows(&self) -> (r: Option<u32>)
        requires
            rows_countable(self@),
        ensures
            match r {
                Some(n) => rows_of(self@) == Some(n as int),
                None => rows_of(self@) is None,
            },
    {
        match (self.start.row, self.end.row) {
            (Some(start), Some(end)) => Some(end - start + 1),
            (None, Some(end)) => Some(end),
            (_, None) => None,
        }
    }
}

} // verus!
