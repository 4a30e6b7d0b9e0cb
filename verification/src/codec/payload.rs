//! The payload: the text that travels to and from the remote system.

use vstd::prelude::*;
use crate::codec::decode::{decode_chars, decode_spec};
use crate::codec::encode::{encode_chars, encode_spec};
use crate::codec::error::{CodecError, ErrorView};
use crate::codec::field::FieldView;
use crate::codec::record::{record_views, FromRecord, Record};
use crate::text::{pair_views, to_chars, to_string};
use crate::codec::value::DataValue;

verus! {

/// The text of one request or response.
#[derive(Clone, Debug, PartialEq, Eq)]
pub struct Payload(String);

impl View for Payload {
    type V = Seq<char>;

    closed spec fn view(&self) -> Seq<char> {
        self.0@
    }
}

/// The text `s`, or the empty text where there is none.
pub open spec fn or_empty(s: Option<Seq<char>>) -> Seq<char> {
    match s {
        Some(text) => text,
        None => Seq::<char>::empty(),
    }
}

/// The metadata fields that every request bears, always these three and in
/// this order: the time at which the page was opened, which is left empty;
/// the key of the page; and the session token. The key and the token are
/// empty where none is given.
pub open spec fn standard_metadata(wmonid: Option<Seq<char>>, pg_key: Option<Seq<char>>) -> Seq<
    (Seq<char>, Seq<char>),
> {
    seq![
        ("page_open_time"@, Seq::<char>::empty()),
        ("pg_key"@, or_empty(pg_key)),
        ("WMONID"@, or_empty(wmonid)),
    ]
}

/// The text of `s`, where there is one.
pub open spec fn text_of(s: Option<&str>) -> Option<Seq<char>> {
    match s {
        Some(text) => Some(text@),
        None => None,
    }
}

/// The error of the first record of `records` that `T` turns down.
pub open spec fn first_rejection<T: FromRecord>(records: Seq<Seq<FieldView>>) -> Option<ErrorView>
    decreases records.len(),
{
    if records.len() == 0 {
        None
    } else {
        match first_rejection::<T>(records.drop_last()) {
            Some(e) => Some(e),
            None => T::rejection(records.last()),
        }
    }
}

/// A rejection among the first `k` records is the rejection of them all.
pub proof fn lemma_rejection_stays<T: FromRecord>(records: Seq<Seq<FieldView>>, k: int)
    requires
        0 <= k <= records.len(),
        first_rejection::<T>(records.take(k)) is Some,
    ensures
        first_rejection::<T>(records) == first_rejection::<T>(records.take(k)),
    decreases records.len() - k,
{
    if k == records.len() {
        assert(records.take(k) =~= records);
    } else {
        assert(records.drop_last().take(k) =~= records.take(k));
        lemma_rejection_stays::<T>(records.drop_last(), k);
    }
}

/// Makes a value of `T` from each record, or gives the error of the first
/// record that `T` turns down.
pub fn materialize<T: FromRecord>(records: &Vec<Record>) -> (r: Result<Vec<T>, CodecError>)
    ensures
        match r {
            Ok(made) => {
                &&& first_rejection::<T>(record_views(records@)) is None
                &&& made@.len() == records@.len()
                &&& forall|i: int|
                    0 <= i < made@.len() ==> T::made_from(
                        #[trigger] record_views(records@)[i],
                        made@[i],
                    )
            },
            Err(e) => first_rejection::<T>(record_views(records@)) == Some(e@),
        },
{
    let ghost views = record_views(records@);
    let mut made: Vec<T> = Vec::new();
    let mut i: usize = 0;
    while i < records.len()
        invariant
            i <= records.len(),
            views == record_views(records@),
            made@.len() == i,
            first_rejection::<T>(views.take(i as int)) is None,
            forall|j: int| 0 <= j < i ==> T::made_from(#[trigger] views[j], made@[j]),
        decreases records.len() - i,
    {
        proof {
            assert(views.take(i + 1).drop_last() =~= views.take(i as int));
        }
        match T::from_record(&records[i]) {
            Ok(value) => {
                made.push(value);
            },
            Err(e) => {
                proof {
                    lemma_rejection_stays::<T>(views, i + 1);
                }
                return Err(e);
            },
        }
        i += 1;
    }
    assert(views.take(records.len() as int) =~= views);
    Ok(made)
}

impl Payload {
    /// The payload of the text `data`.
    pub fn new(data: String) -> (r: Payload)
        ensures
            r@ == data@,
    {
        Payload(data)
    }

    /// The text of the payload.
    pub fn into_string(self) -> (r: String)
        ensures
            r@ == self@,
    {
        self.0
    }

    /// The text of the payload.
    pub fn as_str(&self) -> (r: &str)
        ensures
            r@ == self@,
    {
        self.0.as_str()
    }

    /// The request that carries the metadata fields `metadata`, in their
    /// order, and behind them the fields of `data`. The data is `Null` or a
    /// mapping of keys to strings, whole numbers and truth values; any other
    /// value is turned down, with the key under which it stands.
    pub fn encode(metadata: &Vec<(String, String)>, data: &DataValue) -> (r: Result<
        Payload,
        CodecError,
    >)
        ensures
            match r {
                Ok(payload) => encode_spec(pair_views(metadata@), data@) == Ok::<
                    Seq<char>,
                    ErrorView,
                >(payload@),
                Err(e) => encode_spec(pair_views(metadata@), data@) == Err::<
                    Seq<char>,
                    ErrorView,
                >(e@),
            },
    {
        match encode_chars(metadata, data) {
            Ok(text) => Ok(Payload(to_string(&text))),
            Err(e) => Err(e),
        }
    }

    /// The request that carries `data` behind the metadata fields that every
    /// request bears.
    pub fn from_json(wmonid: Option<&str>, pg_key: Option<&str>, data: &DataValue) -> (r: Result<
        Payload,
        CodecError,
    >)
        ensures
            ({
                let metadata = standard_metadata(text_of(wmonid), text_of(pg_key));
                match r {
                    Ok(payload) => encode_spec(metadata, data@) == Ok::<Seq<char>, ErrorView>(
                        payload@,
                    ),
                    Err(e) => encode_spec(metadata, data@) == Err::<Seq<char>, ErrorView>(e@),
                }
            }),
    {
        let mut metadata: Vec<(String, String)> = Vec::new();
        metadata.push(("page_open_time".to_owned(), String::new()));
        let page = match pg_key {
            Some(key) => key.to_owned(),
            None => String::new(),
        };
        metadata.push(("pg_key".to_owned(), page));
        let token = match wmonid {
            Some(token) => token.to_owned(),
            None => String::new(),
        };
        metadata.push(("WMONID".to_owned(), token));
        assert(pair_views(metadata@) =~= standard_metadata(text_of(wmonid), text_of(pg_key)));
        Payload::encode(&metadata, data)
    }

    /// The records that the response holds. The stages of decoding follow
    /// each other in a fixed order, and the first that fails decides: the
    /// header tag, the error message of the remote system, the two markers,
    /// the field descriptors, the rows.
    pub fn decode(&self) -> (r: Result<Vec<Record>, CodecError>)
        ensures
            match r {
                Ok(records) => decode_spec(self@) == Ok::<Seq<Seq<FieldView>>, ErrorView>(
                    record_views(records@),
                ),
                Err(e) => decode_spec(self@) == Err::<Seq<Seq<FieldView>>, ErrorView>(e@),
            },
    {
        decode_chars(&to_chars(self.0.as_str()))
    }

    /// The values of `T` that the records of the response give: the error
    /// of decoding where decoding fails, else the error of the first record
    /// that `T` turns down, else one value for each record, in their order.
    pub fn to_json<T: FromRecord>(&self) -> (r: Result<Vec<T>, CodecError>)
        ensures
            match decode_spec(self@) {
                Err(e) => r matches Err(x) && x@ == e,
                Ok(records) => match first_rejection::<T>(records) {
                    Some(e) => r matches Err(x) && x@ == e,
                    None => {
                        &&& r matches Ok(made)
                        &&& made@.len() == records.len()
                        &&& forall|i: int|
                            0 <= i < made@.len() ==> T::made_from(#[trigger] records[i], made@[i])
                    },
                },
            },
    {
        match self.decode() {
            Ok(records) => materialize::<T>(&records),
            Err(e) => Err(e),
        }
    }
}

} // verus!
