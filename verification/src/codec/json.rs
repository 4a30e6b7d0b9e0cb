//! Records as JSON objects, for those who read them with `serde_json`.

use vstd::prelude::*;
use crate::codec::field::{FieldValue, FieldView, ValueView};
use crate::codec::record::{as_map, Record};

verus! {

/// `serde_json::Map`, the object of `serde_json`.
#[verifier::external_type_specification]
#[verifier::external_body]
#[verifier::reject_recursive_types(K)]
#[verifier::reject_recursive_types(V)]
pub struct ExJsonMap<K, V>(serde_json::Map<K, V>);

/// `serde_json::Value`, the value of `serde_json`.
#[verifier::external_type_specification]
#[verifier::external_body]
pub struct ExJsonValue(serde_json::Value);

/// What the object `object` holds under its keys: text where a key bears a
/// JSON string, a whole number where it bears a JSON number that fits 64
/// bits with a sign. Members of other kinds are left out.
pub uninterp spec fn json_entries(object: serde_json::Map<String, serde_json::Value>) -> Map<
    Seq<char>,
    ValueView,
>;

/// `serde_json::Map::new`: an object without members.
#[verifier::external_body]
fn new_object() -> (r: serde_json::Map<String, serde_json::Value>)
    ensures
        json_entries(r) == as_map(Seq::<FieldView>::empty()),
{
    serde_json::Map::new()
}

/// `serde_json::Map::insert`: the object holds `value` under `name`, in
/// place of what it held there, and all else as before. Text goes in as a
/// JSON string, a whole number as a JSON number.
#[verifier::external_body]
fn insert_field(
    object: &mut serde_json::Map<String, serde_json::Value>,
    name: String,
    value: &FieldValue,
)
    ensures
        json_entries(*final(object)) == json_entries(*old(object)).insert(name@, value@),
{
    let value = match value {
        FieldValue::Text(s) => serde_json::Value::String(s.clone()),
        FieldValue::Integer(n) => serde_json::Value::Number(serde_json::Number::from(*n)),
    };
    object.insert(name, value);
}

/// The mapping of a record grows with each field: the field's name then
/// bears the field's value.
pub proof fn lemma_as_map_push(fields: Seq<FieldView>)
    requires
        fields.len() > 0,
    ensures
        as_map(fields) == as_map(fields.drop_last()).insert(
            fields.last().name,
            fields.last().value,
        ),
{
    let grown = as_map(fields.drop_last()).insert(fields.last().name, fields.last().value);
    assert forall|name: Seq<char>| #![auto] as_map(fields).dom().contains(name)
        == grown.dom().contains(name) by {}
    assert forall|name: Seq<char>| #![auto] as_map(fields).dom().contains(name) implies as_map(
        fields,
    )[name] == grown[name] by {}
    assert(as_map(fields) =~= grown);
}

impl Record {
    /// The record as a JSON object: each name bears the value of the last
    /// field of this name.
    pub fn to_json_object(&self) -> (r: serde_json::Map<String, serde_json::Value>)
        ensures
            json_entries(r) == as_map(self@),
    {
        let mut object = new_object();
        let mut i: usize = 0;
        assert(self@.take(0) =~= Seq::<FieldView>::empty());
        while i < self.fields.len()
            invariant
                i <= self.fields.len(),
                json_entries(object) == as_map(self@.take(i as int)),
            decreases self.fields.len() - i,
        {
            let field = &self.fields[i];
            proof {
                assert(self@.take(i + 1).drop_last() =~= self@.take(i as int));
                assert(self@.take(i + 1).last() == field@);
                lemma_as_map_push(self@.take(i + 1));
            }
            insert_field(&mut object, field.name.clone(), &field.value);
            i += 1;
        }
        assert(self@.take(self.fields.len() as int) =~= self@);
        object
    }
}

} // verus!
