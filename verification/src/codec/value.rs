//! The values that a caller hands to the encoder.

use vstd::prelude::*;
use crate::number::{int_text, is_digits, lemma_nat_text, nat_text, only_digits};
use crate::text::to_chars;

verus! {

/// A value of the shape that JSON gives: nothing, a scalar, a list or a
/// mapping. A number that is no 64-bit integer is held as its text: digits
/// alone for a whole number beyond that range, and more than digits for a
/// number with a fraction or an exponent.
#[derive(Debug, PartialEq, Eq)]
pub enum DataValue {
    Null,
    Bool(bool),
    Integer(i64),
    Number(String),
    Text(String),
    Array(Vec<DataValue>),
    Object(Vec<(String, DataValue)>),
}

/// A `DataValue` with its texts as character sequences, all the way down.
pub enum DataView {
    Null,
    Bool(bool),
    Integer(i64),
    Number(Seq<char>),
    Text(Seq<char>),
    Array(Seq<DataView>),
    Object(Seq<(Seq<char>, DataView)>),
}

impl View for DataValue {
    type V = DataView;

    open spec fn view(&self) -> DataView {
        value_view(*self)
    }
}

/// The view of the value `v`.
pub open spec fn value_view(v: DataValue) -> DataView
    decreases v,
{
    match v {
        DataValue::Null => DataView::Null,
        DataValue::Bool(b) => DataView::Bool(b),
        DataValue::Integer(n) => DataView::Integer(n),
        DataValue::Number(s) => DataView::Number(s@),
        DataValue::Text(s) => DataView::Text(s@),
        DataValue::Array(items) => DataView::Array(item_views(items@)),
        DataValue::Object(members) => DataView::Object(member_views(members@)),
    }
}

/// The views of the items of a list.
pub open spec fn item_views(items: Seq<DataValue>) -> Seq<DataView>
    decreases items,
{
    if items.len() == 0 {
        Seq::<DataView>::empty()
    } else {
        item_views(items.drop_last()).push(value_view(items.last()))
    }
}

/// The views of the members of a mapping.
pub open spec fn member_views(members: Seq<(String, DataValue)>) -> Seq<(Seq<char>, DataView)>
    decreases members,
{
    if members.len() == 0 {
        Seq::<(Seq<char>, DataView)>::empty()
    } else {
        member_views(members.drop_last()).push(
            (members.last().0@, value_view(members.last().1)),
        )
    }
}

/// A mapping has one view for each member, in their order: the text of the
/// key and the view of the value.
pub proof fn lemma_member_views(members: Seq<(String, DataValue)>)
    ensures
        member_views(members).len() == members.len(),
        forall|i: int|
            0 <= i < members.len() ==> #[trigger] member_views(members)[i] == (
                members[i].0@,
                members[i].1@,
            ),
    decreases members.len(),
{
    if members.len() > 0 {
        lemma_member_views(members.drop_last());
        assert forall|i: int| 0 <= i < members.len() implies #[trigger] member_views(
            members,
        )[i] == (members[i].0@, members[i].1@) by {
        }
    }
}

/// The text that stands for the scalar `v` on the wire: a string as it is, an
/// integer in decimal, a whole number held as digits as these digits, a truth
/// value as `true` or `false`. Nothing else has a text.
pub open spec fn scalar_text(v: DataView) -> Option<Seq<char>> {
    match v {
        DataView::Text(s) => Some(s),
        DataView::Integer(n) => Some(int_text(n as int)),
        DataView::Number(s) if is_digits(s) => Some(s),
        DataView::Bool(b) => Some(
            if b {
                "true"@
            } else {
                "false"@
            },
        ),
        _ => None,
    }
}

/// A whole number that is held as the digits that write it has these digits
/// as its text, however large it is.
pub proof fn lemma_whole_number_text(n: nat)
    ensures
        scalar_text(DataView::Number(nat_text(n))) == Some(nat_text(n)),
{
    lemma_nat_text(n);
}

impl DataValue {
    /// Whether the value is a string, a whole number or a truth value.
    pub fn is_scalar(&self) -> (r: bool)
        ensures
            r == scalar_text(self@) is Some,
    {
        match self {
            DataValue::Text(_) => true,
            DataValue::Integer(_) => true,
            DataValue::Number(s) => only_digits(&to_chars(s.as_str())),
            DataValue::Bool(_) => true,
            _ => false,
        }
    }
}

} // verus!
