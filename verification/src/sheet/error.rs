//! The ways in which reading a spreadsheet address, a schema or a cell fails.

use vstd::prelude::*;

verus! {

/// Why an address, a schema or a cell could not be read.
#[derive(Clone, Debug, PartialEq, Eq)]
pub enum SheetError {
    /// A cell address is empty.
    EmptyIndex,
    /// A cell address holds a character outside ASCII.
    NonAsciiIndex,
    /// A cell address names a column beyond the last one supported.
    ColumnOutOfRange,
    /// The row of a cell address is no unsigned number of 32 bits.
    InvalidRow,
    /// The row of a cell address is zero; rows count from one.
    ZeroRow,
    /// The row of a cell address lies beyond the last one supported.
    RowOutOfRange,
    /// A range lacks the name of its sheet.
    MissingSheetName,
    /// A range holds more than one `!`.
    MalformedShape,
    /// The schema of a field is a bare truth value.
    TrivialSchema { name: String },
    /// The schema of a field names no type.
    UntypedField { name: String },
    /// The schema of a field names two or more types besides null.
    AmbiguousType { name: String },
    /// A field is a structure of its own.
    NestedStruct,
    /// The schema of the rows describes no structure.
    NotAStruct { name: String },
    /// The header range names no column for a field of the structure.
    FieldNotFound { field: String, table: String, shape: String },
    /// A cell of a truth-valued field holds none of the accepted words.
    InvalidBoolean { token: String, field: String },
    /// A cell of a numeric field holds no number.
    InvalidNumber { token: String },
}

/// A `SheetError` with its texts as character sequences.
pub enum SheetErrorView {
    EmptyIndex,
    NonAsciiIndex,
    ColumnOutOfRange,
    InvalidRow,
    ZeroRow,
    RowOutOfRange,
    MissingSheetName,
    MalformedShape,
    TrivialSchema { name: Seq<char> },
    UntypedField { name: Seq<char> },
    AmbiguousType { name: Seq<char> },
    NestedStruct,
    NotAStruct { name: Seq<char> },
    FieldNotFound { field: Seq<char>, table: Seq<char>, shape: Seq<char> },
    InvalidBoolean { token: Seq<char>, field: Seq<char> },
    InvalidNumber { token: Seq<char> },
}

impl View for SheetError {
    type V = SheetErrorView;

    open spec fn view(&self) -> SheetErrorView {
        match *self {
            SheetError::EmptyIndex => SheetErrorView::EmptyIndex,
            SheetError::NonAsciiIndex => SheetErrorView::NonAsciiIndex,
            SheetError::ColumnOutOfRange => SheetErrorView::ColumnOutOfRange,
            SheetError::InvalidRow => SheetErrorView::InvalidRow,
            SheetError::ZeroRow => SheetErrorView::ZeroRow,
            SheetError::RowOutOfRange => SheetErrorView::RowOutOfRange,
            SheetError::MissingSheetName => SheetErrorView::MissingSheetName,
            SheetError::MalformedShape => SheetErrorView::MalformedShape,
            SheetError::TrivialSchema { name } => SheetErrorView::TrivialSchema { name: name@ },
            SheetError::UntypedField { name } => SheetErrorView::UntypedField { name: name@ },
            SheetError::AmbiguousType { name } => SheetErrorView::AmbiguousType { name: name@ },
            SheetError::NestedStruct => SheetErrorView::NestedStruct,
            SheetError::NotAStruct { name } => SheetErrorView::NotAStruct { name: name@ },
            SheetError::FieldNotFound { field, table, shape } => SheetErrorView::FieldNotFound {
                field: field@,
                table: table@,
                shape: shape@,
            },
            SheetError::InvalidBoolean { token, field } => SheetErrorView::InvalidBoolean {
                token: token@,
                field: field@,
            },
            SheetError::InvalidNumber { token } => SheetErrorView::InvalidNumber {
                token: token@,
            },
        }
    }
}

} // verus!
