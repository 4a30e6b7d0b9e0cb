//! The ways in which encoding or decoding a payload fails.

use vstd::prelude::*;

verus! {

/// Why a payload could not be encoded or decoded.
#[derive(Clone, Debug, PartialEq, Eq)]
pub enum CodecError {
    /// The header tag is missing, or the descriptor marker, or the row marker
    /// behind it.
    MalformedPayload,
    /// A field descriptor is not of the shape `name:type(size)`.
    InvalidDescriptor { token: String },
    /// A field descriptor names a type that the codec does not know.
    UnsupportedFieldType { type_text: String },
    /// A token of a row cannot be read under the type of its field.
    ValueCoercionError { field: String, row: usize, token: String },
    /// A row holds another number of tokens than there are descriptors.
    RowShapeMismatch { row: usize, expected: usize, got: usize },
    /// The remote system answered with an error message of its own.
    RemoteBusinessError { message: String },
    /// The value under this key has no textual form on the wire.
    UnencodableValue { key: String },
    /// A record lacks a field that the target type needs, or holds it with
    /// another type.
    MissingField { field: String },
}

/// A `CodecError` with its texts as character sequences.
pub enum ErrorView {
    MalformedPayload,
    InvalidDescriptor { token: Seq<char> },
    UnsupportedFieldType { type_text: Seq<char> },
    ValueCoercionError { field: Seq<char>, row: usize, token: Seq<char> },
    RowShapeMismatch { row: usize, expected: usize, got: usize },
    RemoteBusinessError { message: Seq<char> },
    UnencodableValue { key: Seq<char> },
    MissingField { field: Seq<char> },
}

impl View for CodecError {
    type V = ErrorView;

    open spec fn view(&self) -> ErrorView {
        match *self {
            CodecError::MalformedPayload => ErrorView::MalformedPayload,
            CodecError::InvalidDescriptor { token } => ErrorView::InvalidDescriptor {
                token: token@,
            },
            CodecError::UnsupportedFieldType { type_text } => ErrorView::UnsupportedFieldType {
                type_text: type_text@,
            },
            CodecError::ValueCoercionError { field, row, token } => ErrorView::ValueCoercionError {
                field: field@,
                row,
                token: token@,
            },
            CodecError::RowShapeMismatch { row, expected, got } => ErrorView::RowShapeMismatch {
                row,
                expected,
                got,
            },
            CodecError::RemoteBusinessError { message } => ErrorView::RemoteBusinessError {
                message: message@,
            },
            CodecError::UnencodableValue { key } => ErrorView::UnencodableValue { key: key@ },
            CodecError::MissingField { field } => ErrorView::MissingField { field: field@ },
        }
    }
}

impl CodecError {
    /// Whether the failure lies with the remote application rather than with
    /// the shape of the payload, so that signing in again and asking once
    /// more may help.
    pub fn is_remote(&self) -> (r: bool)
        ensures
            r == (self@ is RemoteBusinessError),
    {
        match self {
            CodecError::RemoteBusinessError { .. } => true,
            _ => false,
        }
    }
}

} // verus!
