//! Field descriptors: the type grammar `name:type(size)` and the coercion of
//! raw tokens to typed values.

use vstd::prelude::*;
use crate::codec::error::{CodecError, ErrorView};
use crate::number::{
    int_text, lemma_parse_int_text, parse_i64, parse_i64_spec, parse_usize, parse_usize_spec,
};
use crate::text::{
    find, lemma_split_once_char, same_chars, slice, split_once, to_chars, to_string,
};

verus! {

/// The kind of a field, with the largest size that the remote system
/// declares for its values. The size is carried along and not enforced.
#[derive(Clone, Copy, Debug, PartialEq, Eq)]
pub enum FieldType {
    /// A decimal number, written and read as a whole number.
    BigDecimal { max_size: usize },
    /// Text, taken as it stands.
    String { max_size: usize },
}

/// A decoded value.
#[derive(Clone, Debug, PartialEq, Eq)]
pub enum FieldValue {
    Text(String),
    Integer(i64),
}

/// A `FieldValue` with its text as a character sequence.
pub enum ValueView {
    Text(Seq<char>),
    Integer(i64),
}

impl View for FieldValue {
    type V = ValueView;

    open spec fn view(&self) -> ValueView {
        match *self {
            FieldValue::Text(s) => ValueView::Text(s@),
            FieldValue::Integer(n) => ValueView::Integer(n),
        }
    }
}

/// One column of a response: its name and the type of its values.
#[derive(Clone, Debug, PartialEq, Eq)]
pub struct FieldDescriptor {
    pub name: String,
    pub ty: FieldType,
}

/// A `FieldDescriptor` with its name as a character sequence.
pub struct DescriptorView {
    pub name: Seq<char>,
    pub ty: FieldType,
}

impl View for FieldDescriptor {
    type V = DescriptorView;

    open spec fn view(&self) -> DescriptorView {
        DescriptorView { name: self.name@, ty: self.ty }
    }
}

/// One named value of a record.
#[derive(Clone, Debug, PartialEq, Eq)]
pub struct RecordField {
    pub name: String,
    pub value: FieldValue,
}

/// A `RecordField` with its texts as character sequences.
pub struct FieldView {
    pub name: Seq<char>,
    pub value: ValueView,
}

impl View for RecordField {
    type V = FieldView;

    open spec fn view(&self) -> FieldView {
        FieldView { name: self.name@, value: self.value@ }
    }
}

/// The type that the expression `expr`, of the shape `type(size)`, denotes.
/// The size is read before the type name is looked up, so an expression with
/// an unreadable size is invalid whatever its type name.
pub open spec fn parse_field_type(expr: Seq<char>) -> Result<FieldType, ErrorView> {
    match split_once(expr, seq!['(']) {
        None => Err(ErrorView::InvalidDescriptor { token: expr }),
        Some((type_text, arg)) => {
            if arg.len() == 0 || arg.last() != ')' {
                Err(ErrorView::InvalidDescriptor { token: expr })
            } else {
                match parse_usize_spec(arg.drop_last()) {
                    None => Err(ErrorView::InvalidDescriptor { token: expr }),
                    Some(max_size) => {
                        if type_text == "bigdecimal"@ {
                            Ok(FieldType::BigDecimal { max_size })
                        } else if type_text == "string"@ {
                            Ok(FieldType::String { max_size })
                        } else {
                            Err(ErrorView::UnsupportedFieldType { type_text })
                        }
                    },
                }
            }
        },
    }
}

/// The descriptor that the token `token`, of the shape `name:type(size)`,
/// denotes. A token of another shape is reported whole.
pub open spec fn parse_descriptor(token: Seq<char>) -> Result<DescriptorView, ErrorView> {
    match split_once(token, seq![':']) {
        None => Err(ErrorView::InvalidDescriptor { token }),
        Some((name, expr)) => match parse_field_type(expr) {
            Ok(ty) => Ok(DescriptorView { name, ty }),
            Err(ErrorView::InvalidDescriptor { .. }) => Err(ErrorView::InvalidDescriptor { token }),
            Err(e) => Err(e),
        },
    }
}

/// The value that `token` stands for under the type `ty`: text as it is, a
/// number where the token is a signed decimal integer of 64 bits.
pub open spec fn coerce(ty: FieldType, token: Seq<char>) -> Option<ValueView> {
    match ty {
        FieldType::String { .. } => Some(ValueView::Text(token)),
        FieldType::BigDecimal { .. } => match parse_i64_spec(token) {
            Some(n) => Some(ValueView::Integer(n)),
            None => None,
        },
    }
}

/// The named value that `token`, found in row `row`, gives for the field `d`.
pub open spec fn coerce_field(d: DescriptorView, row: usize, token: Seq<char>) -> Result<
    FieldView,
    ErrorView,
> {
    match coerce(d.ty, token) {
        Some(value) => Ok(FieldView { name: d.name, value }),
        None => Err(ErrorView::ValueCoercionError { field: d.name, row, token }),
    }
}

/// The descriptor token that is put together from a name, a type name and
/// the text of a size.
pub open spec fn descriptor_text(name: Seq<char>, type_text: Seq<char>, size: Seq<char>) -> Seq<
    char,
> {
    name + seq![':'] + (type_text + seq!['('] + (size + seq![')']))
}

/// A descriptor token of the right shape, whose size can be read, gives a
/// field of the type that it names, and is turned down with the type name
/// where the codec does not know the type. The name must hold no `:` and
/// the type name no `(`.
pub proof fn lemma_descriptor_shape(
    name: Seq<char>,
    type_text: Seq<char>,
    size: Seq<char>,
)
    requires
        !name.contains(':'),
        !type_text.contains('('),
        parse_usize_spec(size) is Some,
    ensures
        parse_descriptor(descriptor_text(name, type_text, size)) == (if type_text
            == "bigdecimal"@ {
            Ok::<DescriptorView, ErrorView>(
                DescriptorView {
                    name,
                    ty: FieldType::BigDecimal { max_size: parse_usize_spec(size)->0 },
                },
            )
        } else if type_text == "string"@ {
            Ok::<DescriptorView, ErrorView>(
                DescriptorView {
                    name,
                    ty: FieldType::String { max_size: parse_usize_spec(size)->0 },
                },
            )
        } else {
            Err::<DescriptorView, ErrorView>(ErrorView::UnsupportedFieldType { type_text })
        }),
{
    let arg = size + seq![')'];
    let expr = type_text + seq!['('] + arg;
    lemma_split_once_char(name, ':', expr);
    lemma_split_once_char(type_text, '(', arg);
    assert(arg.drop_last() =~= size);
}

/// The decimal text of a number is read, under the numeric type, as that
/// number.
pub proof fn lemma_number_reads_back(n: i64, max_size: usize)
    ensures
        coerce(FieldType::BigDecimal { max_size }, int_text(n as int)) == Some(
            ValueView::Integer(n),
        ),
{
    lemma_parse_int_text(n as int);
}

impl FieldType {
    /// The largest size declared for values of this type.
    pub fn max_size(&self) -> (r: usize)
        ensures
            r == match *self {
                FieldType::BigDecimal { max_size } => max_size,
                FieldType::String { max_size } => max_size,
            },
    {
        match self {
            FieldType::BigDecimal { max_size } => *max_size,
            FieldType::String { max_size } => *max_size,
        }
    }

    /// Reads a type expression of the shape `type(size)`.
    pub fn from_chars(expr: &Vec<char>) -> (r: Result<FieldType, CodecError>)
        ensures
            match r {
                Ok(ty) => parse_field_type(expr@) == Ok::<FieldType, ErrorView>(ty),
                Err(e) => parse_field_type(expr@) == Err::<FieldType, ErrorView>(e@),
            },
    {
        let open: Vec<char> = vec!['('];
        assert(open@ =~= seq!['(']);
        let at = match find(expr, &open) {
            Some(at) => at,
            None => {
                return Err(CodecError::InvalidDescriptor { token: to_string(expr) });
            },
        };
        assert(open@.len() == 1 && at + 1 <= expr.len());
        let type_text = slice(expr, 0, at);
        let arg = slice(expr, at + 1, expr.len());
        if arg.len() == 0 || arg[arg.len() - 1] != ')' {
            return Err(CodecError::InvalidDescriptor { token: to_string(expr) });
        }
        let size_text = slice(&arg, 0, arg.len() - 1);
        let max_size = match parse_usize(&size_text) {
            Some(n) => n,
            None => {
                return Err(CodecError::InvalidDescriptor { token: to_string(expr) });
            },
        };
        if same_chars(&type_text, &to_chars("bigdecimal")) {
            Ok(FieldType::BigDecimal { max_size })
        } else if same_chars(&type_text, &to_chars("string")) {
            Ok(FieldType::String { max_size })
        } else {
            Err(CodecError::UnsupportedFieldType { type_text: to_string(&type_text) })
        }
    }

    /// Reads a type expression of the shape `type(size)`.
    pub fn from_str(expr: &str) -> (r: Result<FieldType, CodecError>)
        ensures
            match r {
                Ok(ty) => parse_field_type(expr@) == Ok::<FieldType, ErrorView>(ty),
                Err(e) => parse_field_type(expr@) == Err::<FieldType, ErrorView>(e@),
            },
    {
        FieldType::from_chars(&to_chars(expr))
    }

    /// Reads `token` as a value of this type.
    pub fn coerce_chars(&self, token: &Vec<char>) -> (r: Option<FieldValue>)
        ensures
            match r {
                Some(v) => coerce(*self, token@) == Some(v@),
                None => coerce(*self, token@) is None,
            },
    {
        match self {
            FieldType::String { .. } => Some(FieldValue::Text(to_string(token))),
            FieldType::BigDecimal { .. } => match parse_i64(token) {
                Some(n) => Some(FieldValue::Integer(n)),
                None => None,
            },
        }
    }

    /// Reads `value` as a value of this type.
    pub fn try_parse_value(&self, value: &str) -> (r: Option<FieldValue>)
        ensures
            match r {
                Some(v) => coerce(*self, value@) == Some(v@),
                None => coerce(*self, value@) is None,
            },
    {
        self.coerce_chars(&to_chars(value))
    }
}

impl FieldDescriptor {
    /// Reads a descriptor token of the shape `name:type(size)`.
    pub fn from_chars(token: &Vec<char>) -> (r: Result<FieldDescriptor, CodecError>)
        ensures
            match r {
                Ok(d) => parse_descriptor(token@) == Ok::<DescriptorView, ErrorView>(d@),
                Err(e) => parse_descriptor(token@) == Err::<DescriptorView, ErrorView>(e@),
            },
    {
        let colon: Vec<char> = vec![':'];
        assert(colon@ =~= seq![':']);
        let at = match find(token, &colon) {
            Some(at) => at,
            None => {
                return Err(CodecError::InvalidDescriptor { token: to_string(token) });
            },
        };
        assert(colon@.len() == 1 && at + 1 <= token.len());
        let name = slice(token, 0, at);
        let expr = slice(token, at + 1, token.len());
        match FieldType::from_chars(&expr) {
            Ok(ty) => Ok(FieldDescriptor { name: to_string(&name), ty }),
            Err(CodecError::InvalidDescriptor { .. }) => Err(
                CodecError::InvalidDescriptor { token: to_string(token) },
            ),
            Err(e) => Err(e),
        }
    }

    /// Reads a descriptor token of the shape `name:type(size)`.
    pub fn from_str(token: &str) -> (r: Result<FieldDescriptor, CodecError>)
        ensures
            match r {
                Ok(d) => parse_descriptor(token@) == Ok::<DescriptorView, ErrorView>(d@),
                Err(e) => parse_descriptor(token@) == Err::<DescriptorView, ErrorView>(e@),
            },
    {
        FieldDescriptor::from_chars(&to_chars(token))
    }

    /// Reads `token`, found in row `row`, as the value of this field.
    pub fn coerce_chars(&self, row: usize, token: &Vec<char>) -> (r: Result<
        RecordField,
        CodecError,
    >)
        ensures
            match r {
                Ok(f) => coerce_field(self@, row, token@) == Ok::<FieldView, ErrorView>(f@),
                Err(e) => coerce_field(self@, row, token@) == Err::<FieldView, ErrorView>(e@),
            },
    {
        match self.ty.coerce_chars(token) {
            Some(value) => Ok(RecordField { name: self.name.clone(), value }),
            None => Err(
                CodecError::ValueCoercionError {
                    field: self.name.clone(),
                    row,
                    token: to_string(token),
                },
            ),
        }
    }

    /// Reads `value`, found in row `row`, as the value of this field.
    pub fn try_parse_value(&self, row: usize, value: &str) -> (r: Result<RecordField, CodecError>)
        ensures
            match r {
                Ok(f) => coerce_field(self@, row, value@) == Ok::<FieldView, ErrorView>(f@),
                Err(e) => coerce_field(self@, row, value@) == Err::<FieldView, ErrorView>(e@),
            },
    {
        self.coerce_chars(row, &to_chars(value))
    }
}

} // verus!
