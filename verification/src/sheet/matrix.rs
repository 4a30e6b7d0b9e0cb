//! The cells of a range, row by row.

use vstd::prelude::*;
use crate::sheet::index::{MatrixIndex, MAX_ROW};
use crate::sheet::iter::{ColIterMut, RowIterMut};
use crate::sheet::shape::{
    cols_of, columns_countable, rows_countable, rows_of, MatrixShape, ShapeView,
};

verus! {

/// The cells of a range. Rows and cells that the sheet left out are filled in
/// with empty text when they are asked for.
#[derive(Clone, Debug)]
pub struct Matrix {
    shape: MatrixShape,
    data: Vec<Vec<String>>,
}

/// The texts of a row of cells.
pub open spec fn row_view(row: Seq<String>) -> Seq<Seq<char>> {
    row.map_values(|cell: String| cell@)
}

/// The texts of rows of cells.
pub open spec fn grid_view(data: Seq<Vec<String>>) -> Seq<Seq<Seq<char>>> {
    data.map_values(|row: Vec<String>| row_view(row@))
}

/// The row `row`, with empty cells behind it until it has `cols` cells.
pub open spec fn padded(row: Seq<Seq<char>>, cols: int) -> Seq<Seq<char>> {
    if row.len() < cols {
        row + Seq::new((cols - row.len()) as nat, |i: int| Seq::<char>::empty())
    } else {
        row
    }
}

/// The number of rows that are filled in on demand: those of the range, or
/// as many as a sheet may have where the range has no last row.
pub open spec fn row_limit(shape: ShapeView) -> int {
    match rows_of(shape) {
        Some(n) => n,
        None => MAX_ROW as int,
    }
}

/// The cells `cells` after the row `row` was asked for: where the row lies
/// within the limit, there are rows up to it, the new ones empty, and the row
/// itself has a cell for every column of the range.
pub open spec fn filled(cells: Seq<Seq<Seq<char>>>, shape: ShapeView, row: int) -> Seq<
    Seq<Seq<char>>,
> {
    if 0 <= row < row_limit(shape) {
        let grown = if cells.len() <= row {
            cells + Seq::new((row + 1 - cells.len()) as nat, |i: int| Seq::<Seq<char>>::empty())
        } else {
            cells
        };
        grown.update(row, padded(grown[row], cols_of(shape)))
    } else {
        cells
    }
}

/// The cells `cells` after each of the first `n` rows was asked for.
pub open spec fn filled_all(cells: Seq<Seq<Seq<char>>>, shape: ShapeView, n: nat) -> Seq<
    Seq<Seq<char>>,
>
    decreases n,
{
    if n == 0 {
        cells
    } else {
        filled(filled_all(cells, shape, (n - 1) as nat), shape, n - 1)
    }
}

/// After the first `n` rows were asked for, and none of them lies beyond the
/// limit, each of them is there with a cell for every column.
pub proof fn lemma_filled_all(cells: Seq<Seq<Seq<char>>>, shape: ShapeView, n: nat)
    requires
        n <= row_limit(shape),
    ensures
        filled_all(cells, shape, n).len() >= n,
        filled_all(cells, shape, n).len() >= cells.len(),
        forall|r: int|
            0 <= r < n ==> (#[trigger] filled_all(cells, shape, n)[r]).len() >= cols_of(shape),
    decreases n,
{
    if n > 0 {
        lemma_filled_all(cells, shape, (n - 1) as nat);
        let before = filled_all(cells, shape, (n - 1) as nat);
        let after = filled_all(cells, shape, n);
        assert forall|r: int| 0 <= r < n implies (#[trigger] after[r]).len() >= cols_of(shape) by {
            if r < n - 1 {
                assert(after[r] == before[r]);
            }
        }
    }
}

impl Matrix {
    /// The range of the cells.
    pub closed spec fn spec_shape(&self) -> ShapeView {
        self.shape@
    }

    /// The texts of the cells, row by row.
    pub closed spec fn cells(&self) -> Seq<Seq<Seq<char>>> {
        grid_view(self.data@)
    }

    /// Whether the rows and columns of the range can be counted.
    pub open spec fn wf(&self) -> bool {
        columns_countable(self.spec_shape()) && rows_countable(self.spec_shape())
    }

    /// The cells `data` of the range `shape`.
    pub fn new(shape: MatrixShape, data: Vec<Vec<String>>) -> (r: Matrix)
        requires
            columns_countable(shape@),
            rows_countable(shape@),
        ensures
            r.wf(),
            r.spec_shape() == shape@,
            r.cells() == grid_view(data@),
    {
        Matrix { shape, data }
    }

    /// The range of the cells.
    pub fn shape(&self) -> (r: &MatrixShape)
        ensures
            r@ == self.spec_shape(),
    {
        &self.shape
    }

    /// The rows of the cells as they stand, with nothing filled in.
    pub fn into_data(self) -> (r: Vec<Vec<String>>)
        ensures
            grid_view(r@) == self.cells(),
    {
        self.data
    }

    /// A walk over the rows, from the first on.
    pub fn rows(&mut self) -> (r: RowIterMut<'_>)
        ensures
            r.index == 0,
            *r.matrix == *old(self),
            *final(r.matrix) == *final(self),
    {
        RowIterMut::new(self)
    }

    /// A walk over the columns, from the first on.
    pub fn cols(&mut self) -> (r: ColIterMut<'_>)
        ensures
            r.index == 0,
            *r.matrix == *old(self),
            *final(r.matrix) == *final(self),
    {
        ColIterMut::new(self)
    }

    /// Fills in the row `row`, where it lies within the limit: rows up to it,
    /// and in it a cell for every column.
    pub fn fill_default_on_row(&mut self, row: u32)
        requires
            old(self).wf(),
        ensures
            final(self).wf(),
            final(self).spec_shape() == old(self).spec_shape(),
            final(self).cells() == filled(old(self).cells(), old(self).spec_shape(), row as int),
    {
        let row_index = row as usize;
        let row_length = match self.shape.rows() {
            Some(n) => n,
            None => MAX_ROW,
        };
        let col_length = self.shape.cols() as usize;
        let ghost start = self.cells();
        if row < row_length {
            while self.data.len() <= row_index
                invariant
                    self.shape == old(self).shape,
                    row_index == row,
                    self.data@.len() >= old(self).data@.len(),
                    self.data@.len() == start.len() || self.data@.len() <= row + 1,
                    grid_view(self.data@) == start + Seq::new(
                        (self.data@.len() - start.len()) as nat,
                        |i: int| Seq::<Seq<char>>::empty(),
                    ),
                    start == grid_view(old(self).data@),
                decreases row_index + 1 - self.data.len(),
            {
                let ghost before = grid_view(self.data@);
                let fresh: Vec<String> = Vec::new();
                assert(row_view(fresh@) =~= Seq::<Seq<char>>::empty());
                self.data.push(fresh);
                assert(grid_view(self.data@) =~= before.push(Seq::<Seq<char>>::empty()));
                assert(grid_view(self.data@) =~= start + Seq::new(
                    (self.data@.len() - start.len()) as nat,
                    |i: int| Seq::<Seq<char>>::empty(),
                ));
            }
            let ghost grown = grid_view(self.data@);
            assert(grown =~= if start.len() <= row {
                start + Seq::new(
                    (row + 1 - start.len()) as nat,
                    |i: int| Seq::<Seq<char>>::empty(),
                )
            } else {
                start
            });
            let cells = &mut self.data[row_index];
            let ghost first = row_view(cells@);
            while cells.len() < col_length
                invariant
                    cells@.len() >= first.len(),
                    cells@.len() == first.len() || cells@.len() <= col_length,
                    row_view(cells@) == first + Seq::new(
                        (cells@.len() - first.len()) as nat,
                        |i: int| Seq::<char>::empty(),
                    ),
                decreases col_length - cells.len(),
            {
                let ghost before = row_view(cells@);
                cells.push(String::new());
                assert(row_view(cells@) =~= before.push(Seq::<char>::empty()));
                assert(row_view(cells@) =~= first + Seq::new(
                    (cells@.len() - first.len()) as nat,
                    |i: int| Seq::<char>::empty(),
                ));
            }
            assert(grid_view(self.data@) =~= grown.update(
                row as int,
                padded(grown[row as int], col_length as int),
            ));
        }
    }

    /// The row `row`, filled in where it lies within the limit, if there is
    /// such a row.
    pub fn get_row(&mut self, row: u32) -> (r: Option<&mut [String]>)
        requires
            old(self).wf(),
        ensures
            final(self).wf(),
            final(self).spec_shape() == old(self).spec_shape(),
            ({
                let before = filled(old(self).cells(), old(self).spec_shape(), row as int);
                match r {
                    Some(cells) => {
                        &&& row < before.len()
                        &&& row_view(cells@) == before[row as int]
                        &&& final(self).cells() == before.update(
                            row as int,
                            row_view(final(cells)@),
                        )
                    },
                    None => row >= before.len() && final(self).cells() == before,
                }
            }),
    {
        self.fill_default_on_row(row);
        if (row as usize) < self.data.len() {
            let cells = &mut self.data[row as usize];
            Some(cells.as_mut_slice())
        } else {
            None
        }
    }

    /// The cell at `index`, whose row is filled in where it lies within the
    /// limit, if there is such a cell. The address must name a row.
    pub fn get(&mut self, index: MatrixIndex) -> (r: Option<&mut String>)
        requires
            old(self).wf(),
            index.row is Some,
        ensures
            final(self).wf(),
            final(self).spec_shape() == old(self).spec_shape(),
            ({
                let row = index.row->0 as int;
                let col = index.col as int;
                let before = filled(old(self).cells(), old(self).spec_shape(), row);
                match r {
                    Some(cell) => {
                        &&& row < before.len()
                        &&& col < before[row].len()
                        &&& cell@ == before[row][col]
                        &&& final(self).cells() =~~= before.update(
                            row,
                            before[row].update(col, final(cell)@),
                        )
                    },
                    None => !(row < before.len() && col < before[row].len()) && final(self).cells() == before,
                }
            }),
    {
        let row = match index.row {
            Some(row) => row,
            None => 0,
        };
        self.fill_default_on_row(row);
        if (row as usize) < self.data.len() {
            let cells = &mut self.data[row as usize];
            if (index.col as usize) < cells.len() {
                let cell = &mut cells[index.col as usize];
                Some(cell)
            } else {
                None
            }
        } else {
            None
        }
    }

    /// The texts of the column `col`, one for each row of the range, after
    /// every row of the range was filled in; nothing where the range has no
    /// such column. The range must have a last row.
    pub fn get_col(&mut self, col: u16) -> (r: Option<Vec<String>>)
        requires
            old(self).wf(),
            rows_of(old(self).spec_shape()) is Some,
        ensures
            final(self).wf(),
            final(self).spec_shape() == old(self).spec_shape(),
            ({
                let shape = old(self).spec_shape();
                let rows = rows_of(shape)->0;
                match r {
                    Some(column) => {
                        &&& col < cols_of(shape)
                        &&& final(self).cells() == filled_all(
                            old(self).cells(),
                            shape,
                            rows as nat,
                        )
                        &&& column@.len() == rows
                        &&& forall|i: int|
                            0 <= i < rows ==> (#[trigger] column@[i])@ == final(self).cells()[i][col as int]
                    },
                    None => col >= cols_of(shape) && final(self).cells() == old(self).cells(),
                }
            }),
    {
        if col >= self.shape.cols() {
            return None;
        }
        let rows = match self.shape.rows() {
            Some(rows) => rows,
            None => 0,
        };
        let ghost shape = self.spec_shape();
        let ghost start = self.cells();
        let mut row: u32 = 0;
        while row < rows
            invariant
                row <= rows,
                self.wf(),
                self.spec_shape() == shape,
                rows_of(shape) == Some(rows as int),
                self.cells() == filled_all(start, shape, row as nat),
            decreases rows - row,
        {
            self.fill_default_on_row(row);
            row += 1;
        }
        proof {
            lemma_filled_all(start, shape, rows as nat);
        }
        let mut column: Vec<String> = Vec::new();
        let mut row: u32 = 0;
        while row < rows
            invariant
                row <= rows,
                col < cols_of(shape),
                self.spec_shape() == shape,
                self.cells() == filled_all(start, shape, rows as nat),
                self.cells().len() >= rows,
                forall|r: int| 0 <= r < rows ==> (#[trigger] self.cells()[r]).len() >= cols_of(shape),
                column@.len() == row,
                forall|i: int|
                    0 <= i < row ==> (#[trigger] column@[i])@ == self.cells()[i][col as int],
            decreases rows - row,
        {
            let cells = &self.data[row as usize];
            assert(row_view(cells@) == self.cells()[row as int]);
            let cell = cells[col as usize].clone();
            column.push(cell);
            row += 1;
        }
        Some(column)
    }

    /// The rows of the cells, after every row within the limit was filled
    /// in.
    pub fn into_rows(self) -> (r: Vec<Vec<String>>)
        requires
            self.wf(),
        ensures
            grid_view(r@) == filled_all(
                self.cells(),
                self.spec_shape(),
                row_limit(self.spec_shape()) as nat,
            ),
    {
        let mut matrix = self;
        let rows = match matrix.shape.rows() {
            Some(rows) => rows,
            None => MAX_ROW,
        };
        let mut row: u32 = 0;
        while row < rows
            invariant
                row <= rows,
                matrix.wf(),
                matrix.spec_shape() == self.spec_shape(),
                row_limit(self.spec_shape()) == rows,
                matrix.cells() == filled_all(self.cells(), self.spec_shape(), row as nat),
            decreases rows - row,
        {
            matrix.fill_default_on_row(row);
            row += 1;
        }
        matrix.data
    }
}

} // verus!
