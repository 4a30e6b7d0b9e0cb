//! Tables: a row structure, the columns of its fields, the range of the
//! values below the header, and the reading of the rows.

use vstd::prelude::*;
use crate::sheet::cell::{
    all_readable, is_readable, parse_cells, readable, row_values, value_views, CellValue,
    CellValueView,
};
use crate::sheet::column::{name_views, parse_matrix, table_fields, FieldName, FieldNameView};
use crate::sheet::error::{SheetError, SheetErrorView};
use crate::sheet::index::MatrixIndex;
use crate::sheet::matrix::{filled_all, grid_view, row_limit, Matrix};
use crate::sheet::schema::{field_views, InstanceType};
use crate::sheet::shape::{rows_of, MatrixShape};

verus! {

/// A table: a row structure, the columns that the header range names for
/// its fields, and the header range itself, below which the values stand.
#[derive(Clone, Debug)]
pub struct Table {
    /// The name of the row structure.
    pub name: String,
    /// The columns, from left to right.
    pub fields: Vec<FieldName>,
    /// The range of the header.
    pub fields_shape: MatrixShape,
}

/// The named values of each row of `rows`, or the error of the first row
/// that holds a cell that cannot be read.
pub open spec fn table_rows(fields: Seq<FieldNameView>, rows: Seq<Seq<Seq<char>>>) -> Result<
    Seq<Seq<(Seq<char>, CellValueView)>>,
    SheetErrorView,
>
    decreases rows.len(),
{
    if rows.len() == 0 {
        Ok(Seq::<Seq<(Seq<char>, CellValueView)>>::empty())
    } else {
        match table_rows(fields, rows.drop_last()) {
            Err(e) => Err(e),
            Ok(before) => match row_values(fields, rows.last()) {
                Err(e) => Err(e),
                Ok(values) => Ok(before.push(values)),
            },
        }
    }
}

/// The views of the rows of named values `rows`.
pub open spec fn rows_views(rows: Seq<Vec<(String, CellValue)>>) -> Seq<
    Seq<(Seq<char>, CellValueView)>,
> {
    rows.map_values(|r: Vec<(String, CellValue)>| value_views(r@))
}

/// An error among the first `k` rows is the error of the table.
pub proof fn lemma_table_error_stays(
    fields: Seq<FieldNameView>,
    rows: Seq<Seq<Seq<char>>>,
    k: int,
)
    requires
        0 <= k <= rows.len(),
        table_rows(fields, rows.take(k)) is Err,
    ensures
        table_rows(fields, rows) == table_rows(fields, rows.take(k)),
    decreases rows.len() - k,
{
    if k == rows.len() {
        assert(rows.take(k) =~= rows);
    } else {
        assert(rows.drop_last().take(k) =~= rows.take(k));
        lemma_table_error_stays(fields, rows.drop_last(), k);
    }
}

impl Table {
    /// The table of the row structure `name` with the fields `fields_struct`
    /// whose header is `fields_matrix`. The range of the header must have a
    /// last row.
    pub fn new(
        name: String,
        fields_struct: Vec<(String, InstanceType)>,
        fields_matrix: Matrix,
    ) -> (r: Result<Table, SheetError>)
        requires
            fields_matrix.wf(),
            rows_of(fields_matrix.spec_shape()) is Some,
        ensures
            ({
                let columns = table_fields(
                    name@,
                    field_views(fields_struct@),
                    fields_matrix.cells(),
                    fields_matrix.spec_shape(),
                );
                match r {
                    Ok(table) => {
                        &&& columns == Ok::<Seq<FieldNameView>, SheetErrorView>(
                            name_views(table.fields@),
                        )
                        &&& table.name@ == name@
                        &&& table.fields_shape@ == fields_matrix.spec_shape()
                    },
                    Err(e) => columns == Err::<Seq<FieldNameView>, SheetErrorView>(e@),
                }
            }),
    {
        let fields_shape = MatrixShape {
            sheet: fields_matrix.shape().sheet.clone(),
            start: fields_matrix.shape().start,
            end: fields_matrix.shape().end,
        };
        match parse_matrix(name.as_str(), fields_struct, fields_matrix) {
            Ok(fields) => Ok(Table { name, fields, fields_shape }),
            Err(e) => Err(e),
        }
    }

    /// The first cell of the values: in the first column of the header, one
    /// row below its last row. The header must have a last row.
    pub fn values_start(&self) -> (r: MatrixIndex)
        requires
            self.fields_shape.end.row is Some,
            self.fields_shape.end.row->0 < u32::MAX,
        ensures
            r.col == self.fields_shape.start.col,
            r.row == Some((self.fields_shape.end.row->0 + 1) as u32),
    {
        let last = match self.fields_shape.end.row {
            Some(last) => last,
            None => 0,
        };
        MatrixIndex { col: self.fields_shape.start.col, row: Some(last + 1) }
    }

    /// The last cell of the values: in the last column of the header, `row`
    /// rows below its last row; the whole column where no `row` is given.
    pub fn values_end(&self, row: Option<u32>) -> (r: MatrixIndex)
        requires
            row is Some ==> self.fields_shape.end.row is Some && self.fields_shape.end.row->0
                + row->0 <= u32::MAX,
        ensures
            r.col == self.fields_shape.end.col,
            r.row == match row {
                Some(n) => Some((self.fields_shape.end.row->0 + n) as u32),
                None => None,
            },
    {
        let below = match row {
            Some(n) => {
                let last = match self.fields_shape.end.row {
                    Some(last) => last,
                    None => 0,
                };
                Some(last + n)
            },
            None => None,
        };
        MatrixIndex { col: self.fields_shape.end.col, row: below }
    }

    /// The range of the values: the first `row` rows below the header, or
    /// all that is below it where no `row` is given.
    pub fn values_shape(&self, row: Option<u32>) -> (r: MatrixShape)
        requires
            self.fields_shape.end.row is Some,
            self.fields_shape.end.row->0 < u32::MAX,
            row is Some ==> self.fields_shape.end.row->0 + row->0 <= u32::MAX,
        ensures
            r@.sheet == self.fields_shape@.sheet,
            r.start.col == self.fields_shape.start.col,
            r.start.row == Some((self.fields_shape.end.row->0 + 1) as u32),
            r.end.col == self.fields_shape.end.col,
            r.end.row == match row {
                Some(n) => Some((self.fields_shape.end.row->0 + n) as u32),
                None => None,
            },
    {
        MatrixShape {
            sheet: self.fields_shape.sheet.clone(),
            start: self.values_start(),
            end: self.values_end(row),
        }
    }

    /// Whether the cells of every column can be read.
    pub fn is_readable(&self) -> (r: bool)
        ensures
            r == all_readable(name_views(self.fields@)),
    {
        let mut i: usize = 0;
        while i < self.fields.len()
            invariant
                i <= self.fields.len(),
                forall|j: int|
                    0 <= j < i ==> readable((#[trigger] name_views(self.fields@)[j]).ty),
            decreases self.fields.len() - i,
        {
            if !is_readable(self.fields[i].ty) {
                assert(!readable(name_views(self.fields@)[i as int].ty));
                return false;
            }
            i += 1;
        }
        true
    }

    /// The named values of every row of `matrix`, the cells of the range of
    /// the values, after each row within the limit was filled in.
    pub fn get_rows(&self, matrix: Matrix) -> (r: Result<
        Vec<Vec<(String, CellValue)>>,
        SheetError,
    >)
        requires
            matrix.wf(),
            all_readable(name_views(self.fields@)),
        ensures
            ({
                let rows = filled_all(
                    matrix.cells(),
                    matrix.spec_shape(),
                    row_limit(matrix.spec_shape()) as nat,
                );
                match r {
                    Ok(values) => table_rows(name_views(self.fields@), rows) == Ok::<
                        Seq<Seq<(Seq<char>, CellValueView)>>,
                        SheetErrorView,
                    >(rows_views(values@)),
                    Err(e) => table_rows(name_views(self.fields@), rows) == Err::<
                        Seq<Seq<(Seq<char>, CellValueView)>>,
                        SheetErrorView,
                    >(e@),
                }
            }),
    {
        let rows = matrix.into_rows();
        let ghost grid = grid_view(rows@);
        let ghost names = name_views(self.fields@);
        let mut values: Vec<Vec<(String, CellValue)>> = Vec::new();
        let mut i: usize = 0;
        assert(rows_views(values@) =~= Seq::<Seq<(Seq<char>, CellValueView)>>::empty());
        while i < rows.len()
            invariant
                i <= rows.len(),
                grid == grid_view(rows@),
                grid == filled_all(
                    matrix.cells(),
                    matrix.spec_shape(),
                    row_limit(matrix.spec_shape()) as nat,
                ),
                names == name_views(self.fields@),
                all_readable(names),
                table_rows(names, grid.take(i as int)) == Ok::<
                    Seq<Seq<(Seq<char>, CellValueView)>>,
                    SheetErrorView,
                >(rows_views(values@)),
            decreases rows.len() - i,
        {
            let ghost before = rows_views(values@);
            proof {
                assert(grid.take(i + 1).drop_last() =~= grid.take(i as int));
            }
            match parse_cells(&self.fields, &rows[i]) {
                Ok(row) => {
                    values.push(row);
                    assert(rows_views(values@) =~= before.push(value_views(row@)));
                },
                Err(e) => {
                    proof {
                        lemma_table_error_stays(names, grid, i + 1);
                    }
                    return Err(e);
                },
            }
            i += 1;
        }
        assert(grid.take(rows.len() as int) =~= grid);
        Ok(values)
    }
}

} // verus!
