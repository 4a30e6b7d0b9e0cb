//! Reading the cells of a row as values of the types of their columns.

use vstd::prelude::*;
use crate::sheet::error::{SheetError, SheetErrorView};
use crate::sheet::schema::InstanceType;
use crate::sheet::column::{name_views, texts, FieldName, FieldNameView};
use crate::text::{same_chars, to_chars};

verus! {

/// The value of a cell.
#[derive(Clone, Debug, PartialEq, Eq)]
pub enum CellValue {
    Null,
    Bool(bool),
    /// A JSON number, held as the text that writes it.
    Number(String),
    Text(String),
}

/// A `CellValue` with its texts as character sequences.
pub enum CellValueView {
    Null,
    Bool(bool),
    Number(Seq<char>),
    Text(Seq<char>),
}

impl View for CellValue {
    type V = CellValueView;

    open spec fn view(&self) -> CellValueView {
        match *self {
            CellValue::Null => CellValueView::Null,
            CellValue::Bool(b) => CellValueView::Bool(b),
            CellValue::Number(s) => CellValueView::Number(s@),
            CellValue::Text(s) => CellValueView::Text(s@),
        }
    }
}

/// The upper-case form that `str::to_uppercase` gives to the text `s`.
pub uninterp spec fn uppercase_of(s: Seq<char>) -> Seq<char>;

/// Whether `serde_json` reads the text `s` as a JSON number.
pub uninterp spec fn is_json_number(s: Seq<char>) -> bool;

/// `str::to_uppercase` of std: the upper-case form of `s` under the Unicode
/// rules that std was built with, which depends on `s` alone.
#[verifier::external_body]
fn uppercase(s: &str) -> (r: String)
    ensures
        r@ == uppercase_of(s@),
{
    s.to_uppercase()
}

/// `<serde_json::Number as FromStr>::from_str`: whether the whole of `s` is
/// read as a JSON number. The answer depends on `s` alone.
#[verifier::external_body]
fn reads_as_json_number(s: &str) -> (r: bool)
    ensures
        r == is_json_number(s@),
{
    s.parse::<serde_json::Number>().is_ok()
}

/// Whether the upper-case word `word` says yes.
pub open spec fn says_true(word: Seq<char>) -> bool {
    word == "TRUE"@ || word == "YES"@ || word == "Y"@ || word == "O"@ || word == "V"@
}

/// Whether the upper-case word `word` says no.
pub open spec fn says_false(word: Seq<char>) -> bool {
    word == "FALSE"@ || word == "NO"@ || word == "N"@ || word == "X"@
}

/// Whether cells can be read as values of the type `ty`: lists and
/// structures cannot.
pub open spec fn readable(ty: InstanceType) -> bool {
    !(ty is Array) && !(ty is Object)
}

/// The value that the cell `token` holds for the column `field`. A truth
/// value is read from its upper-case form, a word for yes taken before a word
/// for no.
pub open spec fn cell_value(field: FieldNameView, token: Seq<char>) -> Result<
    CellValueView,
    SheetErrorView,
>
    recommends
        readable(field.ty),
{
    match field.ty {
        InstanceType::Boolean => {
            let word = uppercase_of(token);
            if says_true(word) {
                Ok(CellValueView::Bool(true))
            } else if says_false(word) {
                Ok(CellValueView::Bool(false))
            } else {
                Err(SheetErrorView::InvalidBoolean { token, field: field.name })
            }
        },
        InstanceType::Integer | InstanceType::Number => {
            if is_json_number(token) {
                Ok(CellValueView::Number(token))
            } else {
                Err(SheetErrorView::InvalidNumber { token })
            }
        },
        InstanceType::String => Ok(CellValueView::Text(token)),
        _ => Ok(CellValueView::Null),
    }
}

/// The named values that the cells `cells` hold for the columns `fields`,
/// the first cell for the first column and so on, as far as both reach; or
/// the error of the first cell that cannot be read.
pub open spec fn row_values(fields: Seq<FieldNameView>, cells: Seq<Seq<char>>) -> Result<
    Seq<(Seq<char>, CellValueView)>,
    SheetErrorView,
>
    decreases fields.len(),
{
    if fields.len() == 0 || cells.len() == 0 {
        Ok(Seq::<(Seq<char>, CellValueView)>::empty())
    } else if fields.len() > cells.len() {
        row_values(fields.drop_last(), cells)
    } else {
        match row_values(fields.drop_last(), cells) {
            Err(e) => Err(e),
            Ok(before) => match cell_value(fields.last(), cells[fields.len() - 1]) {
                Err(e) => Err(e),
                Ok(v) => Ok(before.push((fields.last().field, v))),
            },
        }
    }
}

/// The named values of `values`, their texts as character sequences.
pub open spec fn value_views(values: Seq<(String, CellValue)>) -> Seq<(Seq<char>, CellValueView)> {
    values.map_values(|v: (String, CellValue)| (v.0@, v.1@))
}

/// Whether every column of `fields` has a type as which cells can be read.
pub open spec fn all_readable(fields: Seq<FieldNameView>) -> bool {
    forall|i: int| 0 <= i < fields.len() ==> readable((#[trigger] fields[i]).ty)
}

/// An error among the first `k` columns is the error of the row.
pub proof fn lemma_row_error_stays(fields: Seq<FieldNameView>, cells: Seq<Seq<char>>, k: int)
    requires
        0 <= k <= fields.len(),
        row_values(fields.take(k), cells) is Err,
    ensures
        row_values(fields, cells) == row_values(fields.take(k), cells),
    decreases fields.len() - k,
{
    if k == fields.len() {
        assert(fields.take(k) =~= fields);
    } else {
        assert(fields.drop_last().take(k) =~= fields.take(k));
        lemma_row_error_stays(fields.drop_last(), cells, k);
    }
}

/// Columns beyond the last cell add nothing to the row.
pub proof fn lemma_row_values_short(fields: Seq<FieldNameView>, cells: Seq<Seq<char>>, k: int)
    requires
        cells.len() <= k <= fields.len(),
    ensures
        row_values(fields, cells) == row_values(fields.take(k), cells),
    decreases fields.len() - k,
{
    if k == fields.len() {
        assert(fields.take(k) =~= fields);
    } else {
        assert(fields.drop_last().take(k) =~= fields.take(k));
        lemma_row_values_short(fields.drop_last(), cells, k);
    }
}

/// Whether cells can be read as values of the type `ty`.
pub fn is_readable(ty: InstanceType) -> (r: bool)
    ensures
        r == readable(ty),
{
    match ty {
        InstanceType::Array => false,
        InstanceType::Object => false,
        _ => true,
    }
}

/// Whether `word` is the word `expected`.
fn is_word(word: &Vec<char>, expected: &str) -> (r: bool)
    ensures
        r == (word@ == expected@),
{
    same_chars(word, &to_chars(expected))
}

/// The value that the cell `token` holds for the column `field`.
pub fn parse_col(field: &FieldName, token: String) -> (r: Result<CellValue, SheetError>)
    requires
        readable(field.ty),
    ensures
        match r {
            Ok(v) => cell_value(field@, token@) == Ok::<CellValueView, SheetErrorView>(v@),
            Err(e) => cell_value(field@, token@) == Err::<CellValueView, SheetErrorView>(e@),
        },
{
    match field.ty {
        InstanceType::Boolean => {
            let word = to_chars(uppercase(token.as_str()).as_str());
            if is_word(&word, "TRUE") || is_word(&word, "YES") || is_word(&word, "Y") || is_word(
                &word,
                "O",
            ) || is_word(&word, "V") {
                Ok(CellValue::Bool(true))
            } else if is_word(&word, "FALSE") || is_word(&word, "NO") || is_word(&word, "N")
                || is_word(&word, "X") {
                Ok(CellValue::Bool(false))
            } else {
                Err(SheetError::InvalidBoolean { token, field: field.name.clone() })
            }
        },
        InstanceType::Integer | InstanceType::Number => {
            if reads_as_json_number(token.as_str()) {
                Ok(CellValue::Number(token))
            } else {
                Err(SheetError::InvalidNumber { token })
            }
        },
        InstanceType::String => Ok(CellValue::Text(token)),
        _ => Ok(CellValue::Null),
    }
}

/// The named values that the cells `cells` hold for the columns `fields`.
pub fn parse_cells(fields: &Vec<FieldName>, cells: &Vec<String>) -> (r: Result<
    Vec<(String, CellValue)>,
    SheetError,
>)
    requires
        all_readable(name_views(fields@)),
    ensures
        match r {
            Ok(values) => row_values(name_views(fields@), texts(cells@)) == Ok::<
                Seq<(Seq<char>, CellValueView)>,
                SheetErrorView,
            >(value_views(values@)),
            Err(e) => row_values(name_views(fields@), texts(cells@)) == Err::<
                Seq<(Seq<char>, CellValueView)>,
                SheetErrorView,
            >(e@),
        },
{
    let ghost names = name_views(fields@);
    let ghost tokens = texts(cells@);
    let mut values: Vec<(String, CellValue)> = Vec::new();
    let mut i: usize = 0;
    assert(value_views(values@) =~= Seq::<(Seq<char>, CellValueView)>::empty());
    while i < fields.len() && i < cells.len()
        invariant
            i <= fields.len(),
            i <= cells.len(),
            names == name_views(fields@),
            tokens == texts(cells@),
            all_readable(names),
            row_values(names.take(i as int), tokens) == Ok::<
                Seq<(Seq<char>, CellValueView)>,
                SheetErrorView,
            >(value_views(values@)),
        decreases fields.len() - i,
    {
        let ghost before = value_views(values@);
        proof {
            assert(names.take(i + 1).drop_last() =~= names.take(i as int));
        }
        match parse_col(&fields[i], cells[i].clone()) {
            Ok(v) => {
                let entry = (fields[i].field.clone(), v);
                values.push(entry);
                assert(value_views(values@) =~= before.push((entry.0@, entry.1@)));
            },
            Err(e) => {
                proof {
                    lemma_row_error_stays(names, tokens, i + 1);
                }
                return Err(e);
            },
        }
        i += 1;
    }
    proof {
        if i == fields.len() {
            assert(names.take(i as int) =~= names);
        } else {
            lemma_row_values_short(names, tokens, i as int);
        }
    }
    Ok(values)
}

/// What comes of reading the cells `cells` for the columns `fields`, from
/// left to right, where the types of the columns are not known to be
/// readable: the named values, or the error of the first cell that cannot be
/// read, or nothing where a column whose cells cannot be read is reached
/// before any error.
pub open spec fn row_outcome(fields: Seq<FieldNameView>, cells: Seq<Seq<char>>) -> Option<
    Result<Seq<(Seq<char>, CellValueView)>, SheetErrorView>,
>
    decreases fields.len(),
{
    if fields.len() == 0 || cells.len() == 0 {
        Some(Ok(Seq::<(Seq<char>, CellValueView)>::empty()))
    } else if fields.len() > cells.len() {
        row_outcome(fields.drop_last(), cells)
    } else {
        match row_outcome(fields.drop_last(), cells) {
            Some(Ok(before)) => if !readable(fields.last().ty) {
                None
            } else {
                match cell_value(fields.last(), cells[fields.len() - 1]) {
                    Err(e) => Some(Err(e)),
                    Ok(v) => Some(Ok(before.push((fields.last().field, v)))),
                }
            },
            other => other,
        }
    }
}

/// Where the cells of every column can be read, there is always an outcome:
/// the named values, or the error of the first cell that cannot be read.
pub proof fn lemma_outcome_readable(fields: Seq<FieldNameView>, cells: Seq<Seq<char>>)
    requires
        all_readable(fields),
    ensures
        row_outcome(fields, cells) == Some(row_values(fields, cells)),
    decreases fields.len(),
{
    if fields.len() > 0 {
        let init = fields.drop_last();
        assert forall|i: int| 0 <= i < init.len() implies readable((#[trigger] init[i]).ty) by {
            assert(init[i] == fields[i]);
        }
        lemma_outcome_readable(init, cells);
        assert(readable(fields[fields.len() - 1].ty));
    }
}

/// An error or an unreadable column among the first `k` columns decides
/// the outcome of the row.
pub proof fn lemma_outcome_stays(fields: Seq<FieldNameView>, cells: Seq<Seq<char>>, k: int)
    requires
        0 <= k <= fields.len(),
        !(row_outcome(fields.take(k), cells) matches Some(Ok(_))),
    ensures
        row_outcome(fields, cells) == row_outcome(fields.take(k), cells),
    decreases fields.len() - k,
{
    if k == fields.len() {
        assert(fields.take(k) =~= fields);
    } else {
        assert(fields.drop_last().take(k) =~= fields.take(k));
        lemma_outcome_stays(fields.drop_last(), cells, k);
    }
}

/// Columns beyond the last cell do not change the outcome of the row.
pub proof fn lemma_outcome_short(fields: Seq<FieldNameView>, cells: Seq<Seq<char>>, k: int)
    requires
        cells.len() <= k <= fields.len(),
    ensures
        row_outcome(fields, cells) == row_outcome(fields.take(k), cells),
    decreases fields.len() - k,
{
    if k == fields.len() {
        assert(fields.take(k) =~= fields);
    } else {
        assert(fields.drop_last().take(k) =~= fields.take(k));
        lemma_outcome_short(fields.drop_last(), cells, k);
    }
}

/// The named values that the cells `cells` hold for the columns `fields`,
/// read from left to right; nothing where a column whose cells cannot be
/// read is reached before any error.
pub fn try_parse_cells(fields: &Vec<FieldName>, cells: &Vec<String>) -> (r: Option<
    Result<Vec<(String, CellValue)>, SheetError>,
>)
    ensures
        match r {
            Some(Ok(values)) => row_outcome(name_views(fields@), texts(cells@)) == Some(
                Ok::<Seq<(Seq<char>, CellValueView)>, SheetErrorView>(value_views(values@)),
            ),
            Some(Err(e)) => row_outcome(name_views(fields@), texts(cells@)) == Some(
                Err::<Seq<(Seq<char>, CellValueView)>, SheetErrorView>(e@),
            ),
            None => row_outcome(name_views(fields@), texts(cells@)) is None,
        },
{
    let ghost names = name_views(fields@);
    let ghost tokens = texts(cells@);
    let mut values: Vec<(String, CellValue)> = Vec::new();
    let mut i: usize = 0;
    assert(value_views(values@) =~= Seq::<(Seq<char>, CellValueView)>::empty());
    while i < fields.len() && i < cells.len()
        invariant
            i <= fields.len(),
            i <= cells.len(),
            names == name_views(fields@),
            tokens == texts(cells@),
            row_outcome(names.take(i as int), tokens) == Some(
                Ok::<Seq<(Seq<char>, CellValueView)>, SheetErrorView>(value_views(values@)),
            ),
        decreases fields.len() - i,
    {
        let ghost before = value_views(values@);
        proof {
            assert(names.take(i + 1).drop_last() =~= names.take(i as int));
            assert(names.take(i + 1).last() == fields@[i as int]@);
        }
        if !is_readable(fields[i].ty) {
            proof {
                lemma_outcome_stays(names, tokens, i + 1);
            }
            return None;
        }
        match parse_col(&fields[i], cells[i].clone()) {
            Ok(v) => {
                let entry = (fields[i].field.clone(), v);
                values.push(entry);
                assert(value_views(values@) =~= before.push((entry.0@, entry.1@)));
            },
            Err(e) => {
                proof {
                    lemma_outcome_stays(names, tokens, i + 1);
                }
                return Some(Err(e));
            },
        }
        i += 1;
    }
    proof {
        if i == fields.len() {
            assert(names.take(i as int) =~= names);
        } else {
            lemma_outcome_short(names, tokens, i as int);
        }
    }
    Some(Ok(values))
}

} // verus!
