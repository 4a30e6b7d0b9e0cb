//! Walking over the rows and the columns of a matrix.

use vstd::prelude::*;
use crate::sheet::matrix::{filled, filled_all, row_view, Matrix};
use crate::sheet::shape::{cols_of, rows_of};

verus! {

/// Walks over the rows of a matrix, from the first on.
#[derive(Debug)]
pub struct RowIterMut<'a> {
    /// The matrix that is walked over.
    pub matrix: &'a mut Matrix,
    /// The row that comes next.
    pub index: u32,
}

/// Walks over the columns of a matrix, from the first on.
#[derive(Debug)]
pub struct ColIterMut<'a> {
    /// The matrix that is walked over.
    pub matrix: &'a mut Matrix,
    /// The column that comes next.
    pub index: u16,
}

impl<'a> RowIterMut<'a> {
    /// Starts at the first row of `matrix`.
    pub fn new(matrix: &'a mut Matrix) -> (r: RowIterMut<'a>)
        ensures
            r.index == 0,
            *r.matrix == *old(matrix),
            *final(r.matrix) == *final(matrix),
    {
        RowIterMut { matrix, index: 0 }
    }

    /// The row that comes next, filled in where it lies within the limit;
    /// nothing where the matrix has no such row.
    pub fn next(&mut self) -> (r: Option<&mut [String]>)
        requires
            old(self).matrix.wf(),
            old(self).index < u32::MAX,
        ensures
            final(self).index == old(self).index + 1,
            *final(final(self).matrix) == *final(old(self).matrix),
            final(self).matrix.wf(),
            final(self).matrix.spec_shape() == old(self).matrix.spec_shape(),
            ({
                let row = old(self).index as int;
                let before = filled(old(self).matrix.cells(), old(self).matrix.spec_shape(), row);
                match r {
                    Some(cells) => {
                        &&& row < before.len()
                        &&& row_view(cells@) == before[row]
                        &&& final(self).matrix.cells() == before.update(
                            row,
                            row_view(final(cells)@),
                        )
                    },
                    None => row >= before.len() && final(self).matrix.cells() == before,
                }
            }),
    {
        let index = self.index;
        self.index += 1;
        self.matrix.get_row(index)
    }
}

impl<'a> ColIterMut<'a> {
    /// Starts at the first column of `matrix`.
    pub fn new(matrix: &'a mut Matrix) -> (r: ColIterMut<'a>)
        ensures
            r.index == 0,
            *r.matrix == *old(matrix),
            *final(r.matrix) == *final(matrix),
    {
        ColIterMut { matrix, index: 0 }
    }

    /// The texts of the column that comes next, one for each row of the
    /// range, after every row of the range was filled in; nothing where the
    /// range has no such column. The range must have a last row.
    pub fn next(&mut self) -> (r: Option<Vec<String>>)
        requires
            old(self).matrix.wf(),
            rows_of(old(self).matrix.spec_shape()) is Some,
            old(self).index < u16::MAX,
        ensures
            final(self).index == old(self).index + 1,
            *final(final(self).matrix) == *final(old(self).matrix),
            final(self).matrix.wf(),
            final(self).matrix.spec_shape() == old(self).matrix.spec_shape(),
            ({
                let shape = old(self).matrix.spec_shape();
                let rows = rows_of(shape)->0;
                let col = old(self).index as int;
                let after = final(self).matrix.cells();
                match r {
                    Some(column) => {
                        &&& col < cols_of(shape)
                        &&& after == filled_all(old(self).matrix.cells(), shape, rows as nat)
                        &&& column@.len() == rows
                        &&& forall|i: int|
                            0 <= i < rows ==> (#[trigger] column@[i])@ == after[i][col]
                    },
                    None => col >= cols_of(shape) && after == old(self).matrix.cells(),
                }
            }),
    {
        let index = self.index;
        self.index += 1;
        self.matrix.get_col(index)
    }
}

} // verus!
