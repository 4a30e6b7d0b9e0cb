//! Columns: the fields of a row structure that the cells of a header range
//! name, looked up in snake case.

use vstd::prelude::*;
use crate::sheet::error::{SheetError, SheetErrorView};
use crate::sheet::matrix::{filled, filled_all, lemma_filled_all, row_limit, Matrix};
use crate::sheet::schema::{field_views, InstanceType};
use crate::sheet::shape::{cols_of, rows_of, shape_text, ShapeView};
use crate::text::{same_chars, to_chars, views};

verus! {

/// A column of a table: the field of the row structure that it holds.
#[derive(Clone, Debug)]
pub struct FieldName {
    /// The place of the field in the row structure, kept to 16 bits.
    pub index: u16,
    /// The name in the header cell, in snake case.
    pub name: String,
    /// The name of the field in the row structure.
    pub field: String,
    /// The type as which the cells of the column are read.
    pub ty: InstanceType,
}

/// A `FieldName` with its texts as character sequences.
pub struct FieldNameView {
    pub index: u16,
    pub name: Seq<char>,
    pub field: Seq<char>,
    pub ty: InstanceType,
}

impl View for FieldName {
    type V = FieldNameView;

    open spec fn view(&self) -> FieldNameView {
        FieldNameView { index: self.index, name: self.name@, field: self.field@, ty: self.ty }
    }
}

/// The views of the columns `names`.
pub open spec fn name_views(names: Seq<FieldName>) -> Seq<FieldNameView> {
    names.map_values(|n: FieldName| n@)
}

/// The texts of the strings `cells`.
pub open spec fn texts(cells: Seq<String>) -> Seq<Seq<char>> {
    cells.map_values(|c: String| c@)
}

/// The snake-case form that `Inflector` gives to the text `s`.
pub uninterp spec fn snake_case_of(s: Seq<char>) -> Seq<char>;

/// `Inflector::to_snake_case` of the crate `Inflector`: the snake-case form
/// of `s`, which depends on `s` alone. The function walks over the characters
/// once and returns for every text.
#[verifier::external_body]
fn snake_case(s: &str) -> (r: String)
    ensures
        r@ == snake_case_of(s@),
{
    inflector::Inflector::to_snake_case(s)
}

/// The place of the first field of `fields` that bears the name `name`.
pub open spec fn field_position(fields: Seq<(Seq<char>, InstanceType)>, name: Seq<char>) -> Option<
    int,
>
    decreases fields.len(),
{
    if fields.len() == 0 {
        None
    } else {
        match field_position(fields.drop_last(), name) {
            Some(k) => Some(k),
            None => if fields.last().0 == name {
                Some(fields.len() - 1)
            } else {
                None
            },
        }
    }
}

/// The column that the header cell `cell` names, if its snake-case form is
/// the name of a field.
pub open spec fn cell_field(fields: Seq<(Seq<char>, InstanceType)>, cell: Seq<char>) -> Option<
    FieldNameView,
> {
    let name = snake_case_of(cell);
    match field_position(fields, name) {
        Some(k) => Some(
            FieldNameView {
                index: (k % 0x10000) as u16,
                name,
                field: fields[k].0,
                ty: fields[k].1,
            },
        ),
        None => None,
    }
}

/// The column that the first cell of `column`, from the top, names.
pub open spec fn column_field(
    fields: Seq<(Seq<char>, InstanceType)>,
    column: Seq<Seq<char>>,
) -> Option<FieldNameView>
    decreases column.len(),
{
    if column.len() == 0 {
        None
    } else {
        match column_field(fields, column.drop_last()) {
            Some(f) => Some(f),
            None => cell_field(fields, column.last()),
        }
    }
}

/// The cells of the column `col`, for the first `rows` rows.
pub open spec fn column_of(cells: Seq<Seq<Seq<char>>>, rows: int, col: int) -> Seq<Seq<char>> {
    Seq::new(rows as nat, |r: int| cells[r][col])
}

/// The columns that the first `cols` columns of the header name, from left
/// to right. A column whose cells name no field is left out.
pub open spec fn header_fields(
    fields: Seq<(Seq<char>, InstanceType)>,
    cells: Seq<Seq<Seq<char>>>,
    rows: int,
    cols: nat,
) -> Seq<FieldNameView>
    decreases cols,
{
    if cols == 0 {
        Seq::<FieldNameView>::empty()
    } else {
        let before = header_fields(fields, cells, rows, (cols - 1) as nat);
        match column_field(fields, column_of(cells, rows, cols - 1)) {
            Some(f) => before.push(f),
            None => before,
        }
    }
}

/// Whether some column of `found` holds the field `field`.
pub open spec fn is_named(found: Seq<FieldNameView>, field: Seq<char>) -> bool {
    exists|i: int| 0 <= i < found.len() && (#[trigger] found[i]).field == field
}

/// The first field of `fields` that no column of `found` holds.
pub open spec fn first_missing(
    fields: Seq<(Seq<char>, InstanceType)>,
    found: Seq<FieldNameView>,
) -> Option<Seq<char>>
    decreases fields.len(),
{
    if fields.len() == 0 {
        None
    } else {
        match first_missing(fields.drop_last(), found) {
            Some(name) => Some(name),
            None => if is_named(found, fields.last().0) {
                None
            } else {
                Some(fields.last().0)
            },
        }
    }
}

/// The columns of the table `table` whose row structure has the fields
/// `fields` and whose header holds `cells` in the range `shape`: every row
/// of the range is filled in, each column is looked up, and every field must
/// have found a column.
pub open spec fn table_fields(
    table: Seq<char>,
    fields: Seq<(Seq<char>, InstanceType)>,
    cells: Seq<Seq<Seq<char>>>,
    shape: ShapeView,
) -> Result<Seq<FieldNameView>, SheetErrorView> {
    let rows = rows_of(shape)->0;
    let found = header_fields(
        fields,
        filled_all(cells, shape, rows as nat),
        rows,
        cols_of(shape) as nat,
    );
    match first_missing(fields, found) {
        Some(field) => Err(
            SheetErrorView::FieldNotFound { field, table, shape: shape_text(shape) },
        ),
        None => Ok(found),
    }
}

/// Whether the column `col` of the header names the field `field`: whether
/// the first of its cells that names a field names this one.
pub open spec fn names_field(
    fields: Seq<(Seq<char>, InstanceType)>,
    cells: Seq<Seq<Seq<char>>>,
    rows: int,
    col: int,
    field: Seq<char>,
) -> bool {
    column_field(fields, column_of(cells, rows, col)) matches Some(f) && f.field == field
}

/// The place that is found for a name bears the name, and no place before
/// it does; no place is found if and only if no field bears the name.
pub proof fn lemma_field_position(fields: Seq<(Seq<char>, InstanceType)>, name: Seq<char>)
    ensures
        match field_position(fields, name) {
            Some(k) => {
                &&& 0 <= k < fields.len()
                &&& fields[k].0 == name
                &&& forall|j: int| 0 <= j < k ==> (#[trigger] fields[j]).0 != name
            },
            None => forall|j: int| 0 <= j < fields.len() ==> (#[trigger] fields[j]).0 != name,
        },
    decreases fields.len(),
{
    if fields.len() > 0 {
        let init = fields.drop_last();
        lemma_field_position(init, name);
        assert forall|j: int| 0 <= j < init.len() implies init[j] == fields[j] by {}
    }
}

/// The column that a header column names is the one that the first of its
/// cells to name a field names; it names none if and only if no cell of it
/// does.
pub proof fn lemma_column_field(fields: Seq<(Seq<char>, InstanceType)>, column: Seq<Seq<char>>)
    ensures
        match column_field(fields, column) {
            Some(f) => exists|r: int|
                {
                    &&& 0 <= r < column.len()
                    &&& cell_field(fields, #[trigger] column[r]) == Some(f)
                    &&& forall|q: int|
                        0 <= q < r ==> cell_field(fields, #[trigger] column[q]) is None
                },
            None => forall|r: int|
                0 <= r < column.len() ==> cell_field(fields, #[trigger] column[r]) is None,
        },
    decreases column.len(),
{
    if column.len() > 0 {
        let init = column.drop_last();
        lemma_column_field(fields, init);
        assert forall|q: int| 0 <= q < init.len() implies init[q] == column[q] by {}
        match column_field(fields, init) {
            Some(f) => {
                let r = choose|r: int|
                    {
                        &&& 0 <= r < init.len()
                        &&& cell_field(fields, #[trigger] init[r]) == Some(f)
                        &&& forall|q: int|
                            0 <= q < r ==> cell_field(fields, #[trigger] init[q]) is None
                    };
                assert(column[r] == init[r]);
                assert(forall|q: int|
                    0 <= q < r ==> cell_field(fields, #[trigger] column[q]) is None);
            },
            None => {
                if cell_field(fields, column.last()) is Some {
                    let r = column.len() - 1;
                    assert(column[r] == column.last());
                    assert(forall|q: int|
                        0 <= q < r ==> cell_field(fields, #[trigger] column[q]) is None);
                }
            },
        }
    }
}

/// Whether one of the first `cols` columns of the header names the field
/// `field`.
pub open spec fn has_column(
    fields: Seq<(Seq<char>, InstanceType)>,
    cells: Seq<Seq<Seq<char>>>,
    rows: int,
    cols: nat,
    field: Seq<char>,
) -> bool {
    exists|c: int| 0 <= c < cols && #[trigger] names_field(fields, cells, rows, c, field)
}

/// A field is among the columns read from the first `cols` columns of the
/// header if and only if one of these columns names it.
pub proof fn lemma_header_names(
    fields: Seq<(Seq<char>, InstanceType)>,
    cells: Seq<Seq<Seq<char>>>,
    rows: int,
    cols: nat,
    field: Seq<char>,
)
    ensures
        is_named(header_fields(fields, cells, rows, cols), field) <==> has_column(
            fields,
            cells,
            rows,
            cols,
            field,
        ),
    decreases cols,
{
    if cols > 0 {
        let before = header_fields(fields, cells, rows, (cols - 1) as nat);
        let all = header_fields(fields, cells, rows, cols);
        lemma_header_names(fields, cells, rows, (cols - 1) as nat, field);
        if is_named(all, field) {
            let i = choose|i: int| 0 <= i < all.len() && (#[trigger] all[i]).field == field;
            if i < before.len() {
                assert(before[i].field == field);
                let c = choose|c: int|
                    0 <= c < cols - 1 && #[trigger] names_field(fields, cells, rows, c, field);
                assert(names_field(fields, cells, rows, c, field));
            } else {
                assert(names_field(fields, cells, rows, cols - 1, field));
            }
        }
        if has_column(fields, cells, rows, cols, field) {
            let c = choose|c: int|
                0 <= c < cols && #[trigger] names_field(fields, cells, rows, c, field);
            if c < cols - 1 {
                assert(names_field(fields, cells, rows, c, field));
                let i = choose|i: int|
                    0 <= i < before.len() && (#[trigger] before[i]).field == field;
                assert(all[i] == before[i]);
            } else {
                assert(all[all.len() - 1].field == field);
            }
        }
    }
}

/// No field is missing if and only if every field has a column; a missing
/// field is the first without one.
pub proof fn lemma_first_missing(
    fields: Seq<(Seq<char>, InstanceType)>,
    found: Seq<FieldNameView>,
)
    ensures
        match first_missing(fields, found) {
            None => forall|k: int|
                0 <= k < fields.len() ==> is_named(found, (#[trigger] fields[k]).0),
            Some(name) => exists|k: int|
                {
                    &&& 0 <= k < fields.len()
                    &&& (#[trigger] fields[k]).0 == name
                    &&& !is_named(found, name)
                    &&& forall|j: int| 0 <= j < k ==> is_named(found, (#[trigger] fields[j]).0)
                },
        },
    decreases fields.len(),
{
    if fields.len() > 0 {
        let init = fields.drop_last();
        lemma_first_missing(init, found);
        assert forall|j: int| 0 <= j < init.len() implies init[j] == fields[j] by {}
        match first_missing(init, found) {
            Some(name) => {
                let k = choose|k: int|
                    {
                        &&& 0 <= k < init.len()
                        &&& (#[trigger] init[k]).0 == name
                        &&& !is_named(found, name)
                        &&& forall|j: int| 0 <= j < k ==> is_named(found, (#[trigger] init[j]).0)
                    };
                assert(fields[k].0 == name);
                assert(forall|j: int| 0 <= j < k ==> is_named(found, (#[trigger] fields[j]).0));
            },
            None => {
                if !is_named(found, fields.last().0) {
                    let k = fields.len() - 1;
                    assert(fields[k].0 == fields.last().0);
                    assert(forall|j: int|
                        0 <= j < k ==> is_named(found, (#[trigger] fields[j]).0));
                }
            },
        }
    }
}

/// A table has its columns if and only if every field of the row structure
/// is named by a column of the header, after every row of the header was
/// filled in. The columns are then those that name a field, from left to
/// right.
pub proof fn lemma_table_columns(
    table: Seq<char>,
    fields: Seq<(Seq<char>, InstanceType)>,
    cells: Seq<Seq<Seq<char>>>,
    shape: ShapeView,
)
    ensures
        ({
            let rows = rows_of(shape)->0;
            let after = filled_all(cells, shape, rows as nat);
            table_fields(table, fields, cells, shape) is Ok <==> forall|k: int|
                0 <= k < fields.len() ==> has_column(
                    fields,
                    after,
                    rows,
                    cols_of(shape) as nat,
                    (#[trigger] fields[k]).0,
                )
        }),
{
    let rows = rows_of(shape)->0;
    let after = filled_all(cells, shape, rows as nat);
    let cols = cols_of(shape) as nat;
    let found = header_fields(fields, after, rows, cols);
    lemma_first_missing(fields, found);
    assert forall|k: int| 0 <= k < fields.len() implies (is_named(found, (#[trigger] fields[k]).0)
        <==> has_column(fields, after, rows, cols, fields[k].0)) by {
        lemma_header_names(fields, after, rows, cols, fields[k].0);
    }
}

/// A missing field among the first `k` fields is the first missing field.
pub proof fn lemma_missing_stays(
    fields: Seq<(Seq<char>, InstanceType)>,
    found: Seq<FieldNameView>,
    k: int,
)
    requires
        0 <= k <= fields.len(),
        first_missing(fields.take(k), found) is Some,
    ensures
        first_missing(fields, found) == first_missing(fields.take(k), found),
    decreases fields.len() - k,
{
    if k == fields.len() {
        assert(fields.take(k) =~= fields);
    } else {
        assert(fields.drop_last().take(k) =~= fields.take(k));
        lemma_missing_stays(fields.drop_last(), found, k);
    }
}

/// A field found among the first `k` fields is the field found among all.
pub proof fn lemma_position_stays(fields: Seq<(Seq<char>, InstanceType)>, name: Seq<char>, k: int)
    requires
        0 <= k <= fields.len(),
        field_position(fields.take(k), name) is Some,
    ensures
        field_position(fields, name) == field_position(fields.take(k), name),
    decreases fields.len() - k,
{
    if k == fields.len() {
        assert(fields.take(k) =~= fields);
    } else {
        assert(fields.drop_last().take(k) =~= fields.take(k));
        lemma_position_stays(fields.drop_last(), name, k);
    }
}

/// A column named among the first `k` cells is the column that all name.
pub proof fn lemma_column_field_stays(
    fields: Seq<(Seq<char>, InstanceType)>,
    column: Seq<Seq<char>>,
    k: int,
)
    requires
        0 <= k <= column.len(),
        column_field(fields, column.take(k)) is Some,
    ensures
        column_field(fields, column) == column_field(fields, column.take(k)),
    decreases column.len() - k,
{
    if k == column.len() {
        assert(column.take(k) =~= column);
    } else {
        assert(column.drop_last().take(k) =~= column.take(k));
        lemma_column_field_stays(fields, column.drop_last(), k);
    }
}

/// Filling in rows that are there with all their cells changes nothing.
pub proof fn lemma_filled_again(cells: Seq<Seq<Seq<char>>>, shape: ShapeView, n: nat, k: nat)
    requires
        k <= n <= row_limit(shape),
        cells.len() >= n,
        forall|r: int| 0 <= r < n ==> (#[trigger] cells[r]).len() >= cols_of(shape),
    ensures
        filled_all(cells, shape, k) == cells,
    decreases k,
{
    if k > 0 {
        lemma_filled_again(cells, shape, n, (k - 1) as nat);
    }
}

/// The place of the first field of `fields` that bears the name `name`.
pub fn find_field(fields: &Vec<(String, InstanceType)>, name: &String) -> (r: Option<usize>)
    ensures
        match r {
            Some(k) => field_position(field_views(fields@), name@) == Some(k as int) && k
                < fields.len(),
            None => field_position(field_views(fields@), name@) is None,
        },
{
    let ghost all = field_views(fields@);
    let wanted = to_chars(name.as_str());
    let mut k: usize = 0;
    while k < fields.len()
        invariant
            k <= fields.len(),
            all == field_views(fields@),
            wanted@ == name@,
            field_position(all.take(k as int), name@) is None,
        decreases fields.len() - k,
    {
        proof {
            assert(all.take(k + 1).drop_last() =~= all.take(k as int));
        }
        if same_chars(&to_chars(fields[k].0.as_str()), &wanted) {
            proof {
                lemma_position_stays(all, name@, k + 1);
            }
            return Some(k);
        }
        k += 1;
    }
    assert(all.take(fields.len() as int) =~= all);
    None
}

/// The column that the first cell of `column`, from the top, names.
pub fn find_in_column(fields: &Vec<(String, InstanceType)>, column: &Vec<String>) -> (r: Option<
    FieldName,
>)
    ensures
        match r {
            Some(f) => column_field(field_views(fields@), texts(column@)) == Some(f@),
            None => column_field(field_views(fields@), texts(column@)) is None,
        },
{
    let ghost all = field_views(fields@);
    let ghost cells = texts(column@);
    let mut i: usize = 0;
    while i < column.len()
        invariant
            i <= column.len(),
            all == field_views(fields@),
            cells == texts(column@),
            column_field(all, cells.take(i as int)) is None,
        decreases column.len() - i,
    {
        proof {
            assert(cells.take(i + 1).drop_last() =~= cells.take(i as int));
        }
        let name = snake_case(column[i].as_str());
        match find_field(fields, &name) {
            Some(k) => {
                let found = FieldName {
                    index: (k % 0x10000) as u16,
                    name,
                    field: fields[k].0.clone(),
                    ty: fields[k].1,
                };
                proof {
                    lemma_column_field_stays(all, cells, i + 1);
                }
                return Some(found);
            },
            None => {},
        }
        i += 1;
    }
    assert(cells.take(column.len() as int) =~= cells);
    None
}

/// Whether some column of `found` holds the field `field`.
pub fn holds_field(found: &Vec<FieldName>, field: &String) -> (r: bool)
    ensures
        r == is_named(name_views(found@), field@),
{
    let wanted = to_chars(field.as_str());
    let mut i: usize = 0;
    while i < found.len()
        invariant
            i <= found.len(),
            wanted@ == field@,
            forall|j: int| 0 <= j < i ==> (#[trigger] name_views(found@)[j]).field != field@,
        decreases found.len() - i,
    {
        if same_chars(&to_chars(found[i].field.as_str()), &wanted) {
            assert(name_views(found@)[i as int].field == field@);
            return true;
        }
        i += 1;
    }
    false
}

/// The columns of the table `struct_name` whose row structure has the fields
/// `fields_struct` and whose header is `matrix`. The range of the header
/// must have a last row.
pub fn parse_matrix(
    struct_name: &str,
    fields_struct: Vec<(String, InstanceType)>,
    matrix: Matrix,
) -> (r: Result<Vec<FieldName>, SheetError>)
    requires
        matrix.wf(),
        rows_of(matrix.spec_shape()) is Some,
    ensures
        match r {
            Ok(found) => table_fields(
                struct_name@,
                field_views(fields_struct@),
                matrix.cells(),
                matrix.spec_shape(),
            ) == Ok::<Seq<FieldNameView>, SheetErrorView>(name_views(found@)),
            Err(e) => table_fields(
                struct_name@,
                field_views(fields_struct@),
                matrix.cells(),
                matrix.spec_shape(),
            ) == Err::<Seq<FieldNameView>, SheetErrorView>(e@),
        },
{
    let mut grid = matrix;
    let ghost shape = matrix.spec_shape();
    let ghost rows = rows_of(shape)->0;
    let ghost start = matrix.cells();
    let ghost after = filled_all(start, shape, rows as nat);
    let ghost all = field_views(fields_struct@);
    let cols = grid.shape().cols();
    let mut found: Vec<FieldName> = Vec::new();
    let mut col: u16 = 0;
    proof {
        lemma_filled_all(start, shape, rows as nat);
    }
    while col < cols
        invariant
            col <= cols,
            cols == cols_of(shape),
            grid.wf(),
            grid.spec_shape() == shape,
            rows_of(shape) == Some(rows),
            rows <= row_limit(shape),
            after == filled_all(start, shape, rows as nat),
            after.len() >= rows,
            forall|r: int| 0 <= r < rows ==> (#[trigger] after[r]).len() >= cols_of(shape),
            col == 0 ==> grid.cells() == start,
            col > 0 ==> grid.cells() == after,
            all == field_views(fields_struct@),
            name_views(found@) == header_fields(all, after, rows, col as nat),
        decreases cols - col,
    {
        proof {
            if col > 0 {
                lemma_filled_again(after, shape, rows as nat, rows as nat);
            }
        }
        let column = match grid.get_col(col) {
            Some(column) => column,
            None => Vec::new(),
        };
        assert(texts(column@) =~= column_of(after, rows, col as int));
        match find_in_column(&fields_struct, &column) {
            Some(f) => {
                found.push(f);
            },
            None => {},
        }
        col += 1;
    }
    let mut k: usize = 0;
    while k < fields_struct.len()
        invariant
            k <= fields_struct.len(),
            all == field_views(fields_struct@),
            shape == matrix.spec_shape(),
            grid.spec_shape() == shape,
            rows_of(shape) == Some(rows),
            name_views(found@) == header_fields(
                all,
                filled_all(matrix.cells(), shape, rows as nat),
                rows,
                cols_of(shape) as nat,
            ),
            first_missing(all.take(k as int), name_views(found@)) is None,
        decreases fields_struct.len() - k,
    {
        proof {
            assert(all.take(k + 1).drop_last() =~= all.take(k as int));
            assert(all.take(k + 1).last() == (
                fields_struct@[k as int].0@,
                fields_struct@[k as int].1,
            ));
        }
        if !holds_field(&found, &fields_struct[k].0) {
            proof {
                lemma_missing_stays(all, name_views(found@), k + 1);
            }
            return Err(
                SheetError::FieldNotFound {
                    field: fields_struct[k].0.clone(),
                    table: struct_name.to_owned(),
                    shape: grid.shape().to_string(),
                },
            );
        }
        k += 1;
    }
    assert(all.take(fields_struct.len() as int) =~= all);
    Ok(found)
}

} // verus!
