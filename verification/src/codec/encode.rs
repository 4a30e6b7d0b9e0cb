//! Encoding: from metadata fields and caller data to the text of a request.

use vstd::prelude::*;
use crate::codec::delimiter::{header, header_chars, lemma_header_free, US};
use crate::codec::error::{CodecError, ErrorView};
use crate::number::{decimal_text, only_digits};
use crate::text::{
    free_of, join, lemma_concat_free, lemma_join_first, lemma_join_nested, lemma_split_join,
    pair_views, split, to_chars, views,
};
use crate::codec::value::{lemma_member_views, member_views, scalar_text, DataValue, DataView};

verus! {

/// The token `key=value`.
pub open spec fn pair_text(key: Seq<char>, value: Seq<char>) -> Seq<char> {
    key + seq!['='] + value
}

/// The tokens of the metadata fields, in their order.
pub open spec fn metadata_tokens(metadata: Seq<(Seq<char>, Seq<char>)>) -> Seq<Seq<char>> {
    metadata.map_values(|m: (Seq<char>, Seq<char>)| pair_text(m.0, m.1))
}

/// The tokens of the members of a mapping, in their order, or the error that
/// names the first key whose value has no text.
pub open spec fn member_tokens(members: Seq<(Seq<char>, DataView)>) -> Result<
    Seq<Seq<char>>,
    ErrorView,
>
    decreases members.len(),
{
    if members.len() == 0 {
        Ok(Seq::<Seq<char>>::empty())
    } else {
        match member_tokens(members.drop_last()) {
            Err(e) => Err(e),
            Ok(before) => match scalar_text(members.last().1) {
                Some(text) => Ok(before.push(pair_text(members.last().0, text))),
                None => Err(ErrorView::UnencodableValue { key: members.last().0 }),
            },
        }
    }
}

/// The tokens of the caller's data: none for `Null`, those of its members for
/// a mapping. Any other value is no data; the error then names no key.
pub open spec fn data_tokens(data: DataView) -> Result<Seq<Seq<char>>, ErrorView> {
    match data {
        DataView::Null => Ok(Seq::<Seq<char>>::empty()),
        DataView::Object(members) => member_tokens(members),
        _ => Err(ErrorView::UnencodableValue { key: Seq::<char>::empty() }),
    }
}

/// The text of a request: the header tag, the metadata tokens and the block
/// of the data tokens, with a unit separator between each two neighbours.
/// The block of the data tokens holds them with unit separators in between,
/// and is empty where there are none.
pub open spec fn wire_text(metadata: Seq<Seq<char>>, data: Seq<Seq<char>>) -> Seq<char> {
    join(seq![header()] + metadata + seq![join(data, US)], US)
}

/// The text of the request that carries `metadata` and `data`, or the reason
/// why there is none.
pub open spec fn encode_spec(metadata: Seq<(Seq<char>, Seq<char>)>, data: DataView) -> Result<
    Seq<char>,
    ErrorView,
> {
    match data_tokens(data) {
        Ok(tokens) => Ok(wire_text(metadata_tokens(metadata), tokens)),
        Err(e) => Err(e),
    }
}

/// The members of a mapping can be encoded if and only if every value is a
/// string, an integer or a truth value; there is then one token for each
/// member, in their order.
pub proof fn lemma_scalars_encode(members: Seq<(Seq<char>, DataView)>)
    ensures
        member_tokens(members) is Ok <==> forall|i: int|
            0 <= i < members.len() ==> scalar_text((#[trigger] members[i]).1) is Some,
        member_tokens(members) matches Ok(tokens) ==> {
            &&& tokens.len() == members.len()
            &&& forall|i: int|
                0 <= i < members.len() ==> tokens[i] == pair_text(
                    (#[trigger] members[i]).0,
                    scalar_text(members[i].1)->0,
                )
        },
    decreases members.len(),
{
    if members.len() > 0 {
        let init = members.drop_last();
        lemma_scalars_encode(init);
        if member_tokens(members) is Ok {
            let tokens = member_tokens(members)->Ok_0;
            assert forall|i: int| 0 <= i < members.len() implies scalar_text(
                (#[trigger] members[i]).1,
            ) is Some && tokens[i] == pair_text(members[i].0, scalar_text(members[i].1)->0) by {
                if i < members.len() - 1 {
                    assert(members[i] == init[i]);
                }
            }
        } else {
            if member_tokens(init) is Err {
                let i = choose|i: int|
                    0 <= i < init.len() && !(scalar_text((#[trigger] init[i]).1) is Some);
                assert(members[i] == init[i]);
            }
        }
    }
}

/// Whether neither a key nor a value of `metadata` holds a unit separator.
pub open spec fn metadata_free(metadata: Seq<(Seq<char>, Seq<char>)>) -> bool {
    forall|i: int|
        0 <= i < metadata.len() ==> !(#[trigger] metadata[i]).0.contains(US)
            && !metadata[i].1.contains(US)
}

/// The tokens that a request falls into at its unit separators: the header
/// tag, the metadata tokens and the data tokens; an empty token at the end
/// where there is no data. This holds as long as no token holds a unit
/// separator itself.
pub proof fn lemma_wire_tokens(metadata: Seq<Seq<char>>, data: Seq<Seq<char>>)
    requires
        free_of(metadata, US),
        free_of(data, US),
    ensures
        split(wire_text(metadata, data), US) == seq![header()] + metadata + (if data.len() == 0 {
            seq![Seq::<char>::empty()]
        } else {
            data
        }),
{
    lemma_header_free();
    let head = seq![header()] + metadata;
    if data.len() == 0 {
        let parts = head + seq![join(data, US)];
        assert(free_of(parts, US)) by {
            assert forall|i: int| 0 <= i < parts.len() implies !(#[trigger] parts[i]).contains(
                US,
            ) by {
            }
        }
        lemma_split_join(parts, US);
    } else {
        let parts = head + data;
        lemma_join_nested(head, data, US);
        assert(free_of(parts, US)) by {
            assert forall|i: int| 0 <= i < parts.len() implies !(#[trigger] parts[i]).contains(
                US,
            ) by {
                if 1 <= i < head.len() {
                    assert(parts[i] == metadata[i - 1]);
                } else if i >= head.len() {
                    assert(parts[i] == data[i - head.len()]);
                }
            }
        }
        lemma_split_join(parts, US);
    }
}

/// A request with data is the header tag, a unit separator, and then every
/// metadata token followed by every data token, each once and as it stands,
/// with a unit separator between each two neighbours.
pub proof fn lemma_wire_layout(metadata: Seq<Seq<char>>, data: Seq<Seq<char>>)
    requires
        data.len() >= 1,
    ensures
        wire_text(metadata, data) == header() + seq![US] + join(metadata + data, US),
{
    lemma_join_nested(seq![header()] + metadata, data, US);
    lemma_join_first(header(), metadata + data, US);
    assert(seq![header()] + metadata + data =~= seq![header()] + (metadata + data));
}

/// A request without data falls, at its unit separators, into the header
/// tag, then one token `key=value` for each metadata field, in their order,
/// then an empty token. This holds as long as no key and no value holds a
/// unit separator itself. Data is without fields where it is `Null` or a
/// mapping without members.
pub proof fn lemma_metadata_placement(metadata: Seq<(Seq<char>, Seq<char>)>, data: DataView)
    requires
        metadata_free(metadata),
        data_tokens(data) == Ok::<Seq<Seq<char>>, ErrorView>(Seq::<Seq<char>>::empty()),
    ensures
        encode_spec(metadata, data) is Ok,
        ({
            let tokens = split(encode_spec(metadata, data)->Ok_0, US);
            &&& tokens.len() == metadata.len() + 2
            &&& tokens[0] == header()
            &&& forall|i: int|
                0 <= i < metadata.len() ==> tokens[i + 1] == pair_text(
                    (#[trigger] metadata[i]).0,
                    metadata[i].1,
                )
            &&& tokens.last() == Seq::<char>::empty()
        }),
{
    let tokens = metadata_tokens(metadata);
    assert(free_of(tokens, US)) by {
        assert forall|i: int| 0 <= i < tokens.len() implies !(#[trigger] tokens[i]).contains(
            US,
        ) by {
            let key = metadata[i].0;
            let value = metadata[i].1;
            lemma_concat_free(key, seq!['='], US);
            lemma_concat_free(key + seq!['='], value, US);
        }
    }
    lemma_wire_tokens(tokens, Seq::<Seq<char>>::empty());
}

/// The pieces of `parts` in order, with `sep` between each two neighbours.
pub fn join_chars(parts: &Vec<Vec<char>>, sep: char) -> (r: Vec<char>)
    ensures
        r@ == join(views(parts@), sep),
{
    let mut out: Vec<char> = Vec::new();
    let mut i: usize = 0;
    while i < parts.len()
        invariant
            i <= parts.len(),
            out@ == join(views(parts@).take(i as int), sep),
        decreases parts.len() - i,
    {
        let ghost next = views(parts@).take(i + 1);
        proof {
            assert(next.drop_last() =~= views(parts@).take(i as int));
        }
        if i > 0 {
            out.push(sep);
        }
        let part = &parts[i];
        let ghost start = out@;
        let mut k: usize = 0;
        while k < part.len()
            invariant
                k <= part.len(),
                out@ == start + part@.take(k as int),
            decreases part.len() - k,
        {
            out.push(part[k]);
            k += 1;
        }
        i += 1;
    }
    assert(views(parts@).take(parts.len() as int) =~= views(parts@));
    out
}

/// The token `key=value`.
pub fn pair_chars(key: &Vec<char>, value: &Vec<char>) -> (r: Vec<char>)
    ensures
        r@ == pair_text(key@, value@),
{
    let mut out: Vec<char> = Vec::new();
    let mut i: usize = 0;
    while i < key.len()
        invariant
            i <= key.len(),
            out@ == key@.take(i as int),
        decreases key.len() - i,
    {
        out.push(key[i]);
        i += 1;
    }
    out.push('=');
    let mut k: usize = 0;
    while k < value.len()
        invariant
            k <= value.len(),
            out@ == key@ + seq!['='] + value@.take(k as int),
        decreases value.len() - k,
    {
        out.push(value[k]);
        k += 1;
    }
    out
}

/// The text that stands for the scalar `v` on the wire.
pub fn scalar_chars(v: &DataValue) -> (r: Option<Vec<char>>)
    ensures
        match r {
            Some(text) => scalar_text(v@) == Some(text@),
            None => scalar_text(v@) is None,
        },
{
    match v {
        DataValue::Text(s) => Some(to_chars(s.as_str())),
        DataValue::Integer(n) => Some(decimal_text(*n)),
        DataValue::Number(s) => {
            let digits = to_chars(s.as_str());
            if only_digits(&digits) {
                Some(digits)
            } else {
                None
            }
        },
        DataValue::Bool(b) => Some(
            if *b {
                to_chars("true")
            } else {
                to_chars("false")
            },
        ),
        _ => None,
    }
}

/// The tokens of the metadata fields.
pub fn metadata_chars(metadata: &Vec<(String, String)>) -> (r: Vec<Vec<char>>)
    ensures
        views(r@) == metadata_tokens(pair_views(metadata@)),
{
    let mut out: Vec<Vec<char>> = Vec::new();
    let mut i: usize = 0;
    let ghost tokens = metadata_tokens(pair_views(metadata@));
    while i < metadata.len()
        invariant
            i <= metadata.len(),
            tokens == metadata_tokens(pair_views(metadata@)),
            views(out@) == tokens.take(i as int),
        decreases metadata.len() - i,
    {
        let token = pair_chars(
            &to_chars(metadata[i].0.as_str()),
            &to_chars(metadata[i].1.as_str()),
        );
        out.push(token);
        assert(tokens.take(i + 1) =~= tokens.take(i as int).push(token@));
        i += 1;
    }
    out
}

/// An error among the first `k` members is the error of all the members.
pub proof fn lemma_member_error_stays(members: Seq<(Seq<char>, DataView)>, k: int)
    requires
        0 <= k <= members.len(),
        member_tokens(members.take(k)) is Err,
    ensures
        member_tokens(members) == member_tokens(members.take(k)),
    decreases members.len() - k,
{
    if k == members.len() {
        assert(members.take(k) =~= members);
    } else {
        assert(members.drop_last().take(k) =~= members.take(k));
        lemma_member_error_stays(members.drop_last(), k);
    }
}

/// The tokens of the members of a mapping.
pub fn member_chars(members: &Vec<(String, DataValue)>) -> (r: Result<Vec<Vec<char>>, CodecError>)
    ensures
        match r {
            Ok(tokens) => member_tokens(member_views(members@)) == Ok::<
                Seq<Seq<char>>,
                ErrorView,
            >(views(tokens@)),
            Err(e) => member_tokens(member_views(members@)) == Err::<Seq<Seq<char>>, ErrorView>(
                e@,
            ),
        },
{
    let ghost all = member_views(members@);
    let mut out: Vec<Vec<char>> = Vec::new();
    let mut i: usize = 0;
    proof {
        lemma_member_views(members@);
    }
    assert(views(out@) =~= Seq::<Seq<char>>::empty());
    while i < members.len()
        invariant
            i <= members.len(),
            all == member_views(members@),
            all.len() == members.len(),
            forall|k: int|
                0 <= k < members.len() ==> #[trigger] all[k] == (
                    members@[k].0@,
                    members@[k].1@,
                ),
            member_tokens(all.take(i as int)) == Ok::<Seq<Seq<char>>, ErrorView>(views(out@)),
        decreases members.len() - i,
    {
        let ghost before = views(out@);
        proof {
            assert(all.take(i + 1).drop_last() =~= all.take(i as int));
        }
        match scalar_chars(&members[i].1) {
            Some(text) => {
                let token = pair_chars(&to_chars(members[i].0.as_str()), &text);
                out.push(token);
                assert(views(out@) =~= before.push(token@));
            },
            None => {
                proof {
                    lemma_member_error_stays(all, i + 1);
                }
                return Err(CodecError::UnencodableValue { key: members[i].0.clone() });
            },
        }
        i += 1;
    }
    assert(all.take(members.len() as int) =~= all);
    Ok(out)
}

/// The tokens of the caller's data.
pub fn data_chars(data: &DataValue) -> (r: Result<Vec<Vec<char>>, CodecError>)
    ensures
        match r {
            Ok(tokens) => data_tokens(data@) == Ok::<Seq<Seq<char>>, ErrorView>(views(tokens@)),
            Err(e) => data_tokens(data@) == Err::<Seq<Seq<char>>, ErrorView>(e@),
        },
{
    match data {
        DataValue::Null => {
            let out: Vec<Vec<char>> = Vec::new();
            assert(views(out@) =~= Seq::<Seq<char>>::empty());
            Ok(out)
        },
        DataValue::Object(members) => {
            member_chars(members)
        },
        _ => Err(CodecError::UnencodableValue { key: String::new() }),
    }
}

/// The text of the request that carries `metadata` and `data`.
pub fn encode_chars(metadata: &Vec<(String, String)>, data: &DataValue) -> (r: Result<
    Vec<char>,
    CodecError,
>)
    ensures
        match r {
            Ok(text) => encode_spec(pair_views(metadata@), data@) == Ok::<Seq<char>, ErrorView>(
                text@,
            ),
            Err(e) => encode_spec(pair_views(metadata@), data@) == Err::<Seq<char>, ErrorView>(
                e@,
            ),
        },
{
    let fields = match data_chars(data) {
        Ok(fields) => fields,
        Err(e) => {
            return Err(e);
        },
    };
    let mut tokens: Vec<Vec<char>> = Vec::new();
    tokens.push(header_chars());
    let mut meta = metadata_chars(metadata);
    let ghost meta_views = views(meta@);
    tokens.append(&mut meta);
    let block = join_chars(&fields, US);
    tokens.push(block);
    assert(views(tokens@) =~= seq![header()] + meta_views + seq![block@]);
    Ok(join_chars(&tokens, US))
}

} // verus!
