//! Records: the named values of one row of a response.

use vstd::prelude::*;
use crate::codec::error::{CodecError, ErrorView};
use crate::codec::field::{FieldValue, FieldView, RecordField, ValueView};
use crate::text::{same_chars, to_chars};

verus! {

/// The named values of one row, in the order of the field descriptors. Where
/// a name occurs more than once, the last value under it counts.
#[derive(Clone, Debug, PartialEq, Eq)]
pub struct Record {
    pub fields: Vec<RecordField>,
}

impl View for Record {
    type V = Seq<FieldView>;

    open spec fn view(&self) -> Seq<FieldView> {
        self.fields@.map_values(|f: RecordField| f@)
    }
}

/// The views of the records of `records`.
pub open spec fn record_views(records: Seq<Record>) -> Seq<Seq<FieldView>> {
    records.map_values(|r: Record| r@)
}

/// The value that `fields` holds under `name`: that of the last field of this
/// name.
pub open spec fn lookup(fields: Seq<FieldView>, name: Seq<char>) -> Option<ValueView>
    decreases fields.len(),
{
    if fields.len() == 0 {
        None
    } else if fields.last().name == name {
        Some(fields.last().value)
    } else {
        lookup(fields.drop_last(), name)
    }
}

/// The record as a mapping from names to values.
pub open spec fn as_map(fields: Seq<FieldView>) -> Map<Seq<char>, ValueView> {
    Map::new(
        |name: Seq<char>| lookup(fields, name) is Some,
        |name: Seq<char>| lookup(fields, name)->0,
    )
}

/// A name has a value in the record if and only if some field bears it.
pub proof fn lemma_lookup_some(fields: Seq<FieldView>, name: Seq<char>)
    ensures
        lookup(fields, name) is Some <==> exists|i: int|
            0 <= i < fields.len() && (#[trigger] fields[i]).name == name,
    decreases fields.len(),
{
    if fields.len() > 0 {
        let init = fields.drop_last();
        lemma_lookup_some(init, name);
        if fields.last().name != name {
            if exists|i: int| 0 <= i < fields.len() && (#[trigger] fields[i]).name == name {
                let i = choose|i: int|
                    0 <= i < fields.len() && (#[trigger] fields[i]).name == name;
                assert(init[i].name == name);
            }
        }
    }
}

impl Record {
    /// The number of fields.
    pub fn len(&self) -> (n: usize)
        ensures
            n == self@.len(),
    {
        self.fields.len()
    }

    /// The value under `name`, if the record has one.
    pub fn get(&self, name: &str) -> (r: Option<&FieldValue>)
        ensures
            match r {
                Some(v) => lookup(self@, name@) == Some(v@) && as_map(self@).dom().contains(name@)
                    && as_map(self@)[name@] == v@,
                None => lookup(self@, name@) is None && !as_map(self@).dom().contains(name@),
            },
    {
        let wanted = to_chars(name);
        let mut i: usize = self.fields.len();
        assert(self@.take(i as int) =~= self@);
        while i > 0
            invariant
                i <= self.fields.len(),
                wanted@ == name@,
                lookup(self@, name@) == lookup(self@.take(i as int), name@),
            decreases i,
        {
            let field = &self.fields[i - 1];
            let ghost prefix = self@.take(i as int);
            assert(prefix.drop_last() =~= self@.take(i - 1));
            if same_chars(&to_chars(field.name.as_str()), &wanted) {
                return Some(&field.value);
            }
            i -= 1;
        }
        None
    }
}

/// A type whose values can be made from the named values of a record.
pub trait FromRecord: Sized {
    /// The error with which the record `fields` is turned down, if it is.
    spec fn rejection(fields: Seq<FieldView>) -> Option<ErrorView>;

    /// Whether `made` is what the record `fields` gives.
    spec fn made_from(fields: Seq<FieldView>, made: Self) -> bool;

    /// Makes a value from `record`, or says why the record gives none.
    fn from_record(record: &Record) -> (r: Result<Self, CodecError>)
        ensures
            match r {
                Ok(made) => Self::rejection(record@) is None && Self::made_from(record@, made),
                Err(e) => Self::rejection(record@) == Some(e@),
            },
    ;
}

/// The text that `fields` holds under `name`, or the error that names the
/// field where it is missing or holds no text.
pub open spec fn required_text(fields: Seq<FieldView>, name: Seq<char>) -> Result<
    Seq<char>,
    ErrorView,
> {
    match lookup(fields, name) {
        Some(ValueView::Text(s)) => Ok(s),
        _ => Err(ErrorView::MissingField { field: name }),
    }
}

/// The whole number that `fields` holds under `name`, or the error that names
/// the field where it is missing or holds no number.
pub open spec fn required_integer(fields: Seq<FieldView>, name: Seq<char>) -> Result<
    i64,
    ErrorView,
> {
    match lookup(fields, name) {
        Some(ValueView::Integer(n)) => Ok(n),
        _ => Err(ErrorView::MissingField { field: name }),
    }
}

impl Record {
    /// The text under `name`.
    pub fn text(&self, name: &str) -> (r: Result<String, CodecError>)
        ensures
            match r {
                Ok(s) => required_text(self@, name@) == Ok::<Seq<char>, ErrorView>(s@),
                Err(e) => required_text(self@, name@) == Err::<Seq<char>, ErrorView>(e@),
            },
    {
        match self.get(name) {
            Some(FieldValue::Text(s)) => Ok(s.clone()),
            _ => Err(CodecError::MissingField { field: name.to_owned() }),
        }
    }

    /// The whole number under `name`.
    pub fn integer(&self, name: &str) -> (r: Result<i64, CodecError>)
        ensures
            match r {
                Ok(n) => required_integer(self@, name@) == Ok::<i64, ErrorView>(n),
                Err(e) => required_integer(self@, name@) == Err::<i64, ErrorView>(e@),
            },
    {
        match self.get(name) {
            Some(FieldValue::Integer(n)) => Ok(*n),
            _ => Err(CodecError::MissingField { field: name.to_owned() }),
        }
    }
}

impl FromRecord for Record {
    /// No record is turned down.
    open spec fn rejection(fields: Seq<FieldView>) -> Option<ErrorView> {
        None
    }

    /// A record gives a record of the same fields.
    open spec fn made_from(fields: Seq<FieldView>, made: Record) -> bool {
        made@ == fields
    }

    fn from_record(record: &Record) -> (r: Result<Record, CodecError>) {
        let mut fields: Vec<RecordField> = Vec::new();
        let mut i: usize = 0;
        while i < record.fields.len()
            invariant
                i <= record.fields.len(),
                fields@.map_values(|f: RecordField| f@) == record@.take(i as int),
            decreases record.fields.len() - i,
        {
            let source = &record.fields[i];
            let value = match &source.value {
                FieldValue::Text(s) => FieldValue::Text(s.clone()),
                FieldValue::Integer(n) => FieldValue::Integer(*n),
            };
            let copy = RecordField { name: source.name.clone(), value };
            fields.push(copy);
            assert(record@.take(i + 1) =~= record@.take(i as int).push(source@));
            i += 1;
        }
        assert(record@.take(record.fields.len() as int) =~= record@);
        Ok(Record { fields })
    }
}

} // verus!
