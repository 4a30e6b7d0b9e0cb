//! What a table reads of the JSON schema of its row structure: for each
//! field, the one type that its cells are read as.

use vstd::prelude::*;
use crate::sheet::error::{SheetError, SheetErrorView};

verus! {

/// The type of a JSON value.
#[derive(Clone, Copy, Debug, PartialEq, Eq)]
pub enum InstanceType {
    Null,
    Boolean,
    Object,
    Array,
    Number,
    String,
    Integer,
}

/// The schema of one field, as far as a table reads it.
#[derive(Clone, Debug, PartialEq, Eq)]
pub enum SchemaKind {
    /// A bare truth value that admits or refuses every value.
    Trivial,
    /// A schema that names no type.
    Untyped,
    /// A schema that names one type.
    Single(InstanceType),
    /// A schema that names a list of types.
    Many(Vec<InstanceType>),
}

/// A `SchemaKind` with its list of types as a sequence.
pub enum SchemaView {
    Trivial,
    Untyped,
    Single(InstanceType),
    Many(Seq<InstanceType>),
}

impl View for SchemaKind {
    type V = SchemaView;

    open spec fn view(&self) -> SchemaView {
        match *self {
            SchemaKind::Trivial => SchemaView::Trivial,
            SchemaKind::Untyped => SchemaView::Untyped,
            SchemaKind::Single(ty) => SchemaView::Single(ty),
            SchemaKind::Many(types) => SchemaView::Many(types@),
        }
    }
}

/// The names and schemas of `properties`, as views.
pub open spec fn property_views(properties: Seq<(String, SchemaKind)>) -> Seq<
    (Seq<char>, SchemaView),
> {
    properties.map_values(|p: (String, SchemaKind)| (p.0@, p.1@))
}

/// The types of `types` that are not null, in their order.
pub open spec fn non_null(types: Seq<InstanceType>) -> Seq<InstanceType>
    decreases types.len(),
{
    if types.len() == 0 {
        Seq::<InstanceType>::empty()
    } else if types.last() is Null {
        non_null(types.drop_last())
    } else {
        non_null(types.drop_last()).push(types.last())
    }
}

/// The type `ty`, unless it is a structure of its own.
pub open spec fn checked_type(ty: InstanceType) -> Result<InstanceType, SheetErrorView> {
    if ty is Object {
        Err(SheetErrorView::NestedStruct)
    } else {
        Ok(ty)
    }
}

/// The type of the field `name` under the schema `schema`. Of a list of
/// types the one that is not null counts, null where all are null; two or
/// more of them are refused.
pub open spec fn schema_type(name: Seq<char>, schema: SchemaView) -> Result<
    InstanceType,
    SheetErrorView,
> {
    match schema {
        SchemaView::Trivial => Err(SheetErrorView::TrivialSchema { name }),
        SchemaView::Untyped => Err(SheetErrorView::UntypedField { name }),
        SchemaView::Single(ty) => checked_type(ty),
        SchemaView::Many(types) => {
            let picked = non_null(types);
            if picked.len() >= 2 {
                Err(SheetErrorView::AmbiguousType { name })
            } else if picked.len() == 1 {
                checked_type(picked[0])
            } else {
                checked_type(InstanceType::Null)
            }
        },
    }
}

/// The names and types of the fields `properties`, or the error of the
/// first field whose schema gives no type.
pub open spec fn property_types(properties: Seq<(Seq<char>, SchemaView)>) -> Result<
    Seq<(Seq<char>, InstanceType)>,
    SheetErrorView,
>
    decreases properties.len(),
{
    if properties.len() == 0 {
        Ok(Seq::<(Seq<char>, InstanceType)>::empty())
    } else {
        match property_types(properties.drop_last()) {
            Err(e) => Err(e),
            Ok(before) => match schema_type(properties.last().0, properties.last().1) {
                Err(e) => Err(e),
                Ok(ty) => Ok(before.push((properties.last().0, ty))),
            },
        }
    }
}

/// The names and types of `fields`, the names as character sequences.
pub open spec fn field_views(fields: Seq<(String, InstanceType)>) -> Seq<
    (Seq<char>, InstanceType),
> {
    fields.map_values(|f: (String, InstanceType)| (f.0@, f.1))
}

/// An error among the first `k` fields is the error of all the fields.
pub proof fn lemma_property_error_stays(properties: Seq<(Seq<char>, SchemaView)>, k: int)
    requires
        0 <= k <= properties.len(),
        property_types(properties.take(k)) is Err,
    ensures
        property_types(properties) == property_types(properties.take(k)),
    decreases properties.len() - k,
{
    if k == properties.len() {
        assert(properties.take(k) =~= properties);
    } else {
        assert(properties.drop_last().take(k) =~= properties.take(k));
        lemma_property_error_stays(properties.drop_last(), k);
    }
}

/// The type `ty`, unless it is a structure of its own.
pub fn parse_type(ty: InstanceType) -> (r: Result<InstanceType, SheetError>)
    ensures
        match r {
            Ok(t) => checked_type(ty) == Ok::<InstanceType, SheetErrorView>(t),
            Err(e) => checked_type(ty) == Err::<InstanceType, SheetErrorView>(e@),
        },
{
    match ty {
        InstanceType::Object => Err(SheetError::NestedStruct),
        _ => Ok(ty),
    }
}

/// The type of the field `name` under the schema `schema`, with the name.
pub fn parse_schema(name: String, schema: &SchemaKind) -> (r: Result<
    (String, InstanceType),
    SheetError,
>)
    ensures
        match r {
            Ok((n, ty)) => n@ == name@ && schema_type(name@, schema@) == Ok::<
                InstanceType,
                SheetErrorView,
            >(ty),
            Err(e) => schema_type(name@, schema@) == Err::<InstanceType, SheetErrorView>(e@),
        },
{
    let found = match schema {
        SchemaKind::Trivial => {
            return Err(SheetError::TrivialSchema { name });
        },
        SchemaKind::Untyped => {
            return Err(SheetError::UntypedField { name });
        },
        SchemaKind::Single(ty) => *ty,
        SchemaKind::Many(types) => {
            let mut first: InstanceType = InstanceType::Null;
            let mut seen: bool = false;
            let mut i: usize = 0;
            while i < types.len()
                invariant
                    i <= types.len(),
                    non_null(types@.take(i as int)).len() <= 1,
                    seen == (non_null(types@.take(i as int)).len() == 1),
                    seen ==> first == non_null(types@.take(i as int))[0],
                    !seen ==> first is Null,
                    schema == SchemaKind::Many(*types),
                    schema@ == SchemaView::Many(types@),
                decreases types.len() - i,
            {
                proof {
                    assert(types@.take(i + 1).drop_last() =~= types@.take(i as int));
                }
                match types[i] {
                    InstanceType::Null => {},
                    ty => {
                        if seen {
                            proof {
                                lemma_non_null_grows(types@, i + 1);
                            }
                            return Err(SheetError::AmbiguousType { name });
                        }
                        first = ty;
                        seen = true;
                    },
                }
                i += 1;
            }
            assert(types@.take(types.len() as int) =~= types@);
            first
        },
    };
    match parse_type(found) {
        Ok(ty) => Ok((name, ty)),
        Err(e) => Err(e),
    }
}

/// The types that are not null never become fewer as more types follow.
pub proof fn lemma_non_null_grows(types: Seq<InstanceType>, k: int)
    requires
        0 <= k <= types.len(),
    ensures
        non_null(types.take(k)).len() <= non_null(types).len(),
    decreases types.len() - k,
{
    if k == types.len() {
        assert(types.take(k) =~= types);
    } else {
        assert(types.drop_last().take(k) =~= types.take(k));
        lemma_non_null_grows(types.drop_last(), k);
    }
}

/// The names and types of the fields `properties`.
pub fn parse_object_properties(properties: Vec<(String, SchemaKind)>) -> (r: Result<
    Vec<(String, InstanceType)>,
    SheetError,
>)
    ensures
        match r {
            Ok(fields) => property_types(property_views(properties@)) == Ok::<
                Seq<(Seq<char>, InstanceType)>,
                SheetErrorView,
            >(field_views(fields@)),
            Err(e) => property_types(property_views(properties@)) == Err::<
                Seq<(Seq<char>, InstanceType)>,
                SheetErrorView,
            >(e@),
        },
{
    let ghost all = property_views(properties@);
    let mut fields: Vec<(String, InstanceType)> = Vec::new();
    let mut i: usize = 0;
    assert(field_views(fields@) =~= Seq::<(Seq<char>, InstanceType)>::empty());
    while i < properties.len()
        invariant
            i <= properties.len(),
            all == property_views(properties@),
            property_types(all.take(i as int)) == Ok::<
                Seq<(Seq<char>, InstanceType)>,
                SheetErrorView,
            >(field_views(fields@)),
        decreases properties.len() - i,
    {
        let ghost before = field_views(fields@);
        proof {
            assert(all.take(i + 1).drop_last() =~= all.take(i as int));
        }
        match parse_schema(properties[i].0.clone(), &properties[i].1) {
            Ok(field) => {
                fields.push(field);
                assert(field_views(fields@) =~= before.push((field.0@, field.1)));
            },
            Err(e) => {
                proof {
                    lemma_property_error_stays(all, i + 1);
                }
                return Err(e);
            },
        }
        i += 1;
    }
    assert(all.take(properties.len() as int) =~= all);
    Ok(fields)
}

/// The name under which a row structure goes: its title, or a stand-in
/// where it has none.
pub open spec fn struct_name(title: Option<String>) -> Seq<char> {
    match title {
        Some(t) => t@,
        None => "unknown field"@,
    }
}

/// The name of the row structure and the names and types of its fields.
/// A schema without properties describes no structure.
pub fn struct_fields(title: Option<String>, object: Option<Vec<(String, SchemaKind)>>) -> (r:
    Result<(String, Vec<(String, InstanceType)>), SheetError>)
    ensures
        match object {
            None => r matches Err(e) && e@ == (SheetErrorView::NotAStruct {
                name: struct_name(title),
            }),
            Some(properties) => match r {
                Ok((name, fields)) => name@ == struct_name(title) && property_types(
                    property_views(properties@),
                ) == Ok::<Seq<(Seq<char>, InstanceType)>, SheetErrorView>(field_views(fields@)),
                Err(e) => property_types(property_views(properties@)) == Err::<
                    Seq<(Seq<char>, InstanceType)>,
                    SheetErrorView,
                >(e@),
            },
        },
{
    let name = match title {
        Some(t) => t,
        None => "unknown field".to_owned(),
    };
    match object {
        Some(properties) => match parse_object_properties(properties) {
            Ok(fields) => Ok((name, fields)),
            Err(e) => Err(e),
        },
        None => Err(SheetError::NotAStruct { name }),
    }
}

} // verus!
