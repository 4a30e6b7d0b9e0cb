//! Decoding: from the text of a response to typed records, stage by stage.

use vstd::prelude::*;
use crate::codec::delimiter::{
    descriptor_marker, descriptor_marker_chars, error_marker, error_marker_chars, header,
    header_chars, row_marker, row_marker_chars, RS, US,
};
use crate::codec::error::{CodecError, ErrorView};
use crate::codec::field::{
    coerce, coerce_field, parse_descriptor, DescriptorView, FieldDescriptor, FieldView,
    RecordField,
};
use crate::codec::record::{record_views, Record};
use crate::text::{
    contains, matches_at, slice, split, split_on, split_once, starts_with, take_until,
    to_string, try_split, until, views,
};

verus! {

/// The text behind the header tag, where `text` begins with it.
pub open spec fn body_of(text: Seq<char>) -> Option<Seq<char>> {
    if starts_with(text, header()) {
        Some(text.skip(header().len() as int))
    } else {
        None
    }
}

/// The error message that the remote system put into `body`, if it put one
/// there: the text behind the first error marker, up to the next unit
/// separator.
pub open spec fn remote_error(body: Seq<char>) -> Option<Seq<char>> {
    match split_once(body, error_marker()) {
        Some((_, after)) => Some(until(after, US)),
        None => None,
    }
}

/// The descriptor segment and the row segment of `body`. Both markers must
/// be there: the descriptor marker, and behind it the row marker. What lies
/// between them describes fields; what follows the row marker holds rows.
pub open spec fn sections(body: Seq<char>) -> Option<(Seq<char>, Seq<char>)> {
    match split_once(body, descriptor_marker()) {
        None => None,
        Some((_, rest)) => split_once(rest, row_marker()),
    }
}

/// The descriptors that `tokens` denote, or the error of the first token
/// that denotes none.
pub open spec fn parse_descriptors(tokens: Seq<Seq<char>>) -> Result<
    Seq<DescriptorView>,
    ErrorView,
>
    decreases tokens.len(),
{
    if tokens.len() == 0 {
        Ok(Seq::<DescriptorView>::empty())
    } else {
        match parse_descriptors(tokens.drop_last()) {
            Err(e) => Err(e),
            Ok(before) => match parse_descriptor(tokens.last()) {
                Err(e) => Err(e),
                Ok(d) => Ok(before.push(d)),
            },
        }
    }
}

/// The named values that `tokens` give for the fields `descriptors`, one for
/// one, or the error of the first token that cannot be read.
pub open spec fn coerce_all(
    descriptors: Seq<DescriptorView>,
    row: usize,
    tokens: Seq<Seq<char>>,
) -> Result<Seq<FieldView>, ErrorView>
    recommends
        descriptors.len() == tokens.len(),
    decreases tokens.len(),
{
    if tokens.len() == 0 || descriptors.len() == 0 {
        Ok(Seq::<FieldView>::empty())
    } else {
        match coerce_all(descriptors.drop_last(), row, tokens.drop_last()) {
            Err(e) => Err(e),
            Ok(before) => match coerce_field(descriptors.last(), row, tokens.last()) {
                Err(e) => Err(e),
                Ok(f) => Ok(before.push(f)),
            },
        }
    }
}

/// The record that the row `text`, the row of index `row`, holds.
pub open spec fn parse_row(descriptors: Seq<DescriptorView>, row: usize, text: Seq<char>) -> Result<
    Seq<FieldView>,
    ErrorView,
> {
    let tokens = split(text, US);
    if tokens.len() != descriptors.len() {
        Err(
            ErrorView::RowShapeMismatch {
                row,
                expected: descriptors.len() as usize,
                got: tokens.len() as usize,
            },
        )
    } else {
        coerce_all(descriptors, row, tokens)
    }
}

/// The rows of the row segment `segment`: none where it is empty, else the
/// pieces between its record separators.
pub open spec fn row_texts(segment: Seq<char>) -> Seq<Seq<char>> {
    if segment.len() == 0 {
        Seq::<Seq<char>>::empty()
    } else {
        split(segment, RS)
    }
}

/// The records that the rows `rows` hold, or the error of the first row that
/// holds none.
pub open spec fn parse_rows(descriptors: Seq<DescriptorView>, rows: Seq<Seq<char>>) -> Result<
    Seq<Seq<FieldView>>,
    ErrorView,
>
    decreases rows.len(),
{
    if rows.len() == 0 {
        Ok(Seq::<Seq<FieldView>>::empty())
    } else {
        match parse_rows(descriptors, rows.drop_last()) {
            Err(e) => Err(e),
            Ok(before) => match parse_row(
                descriptors,
                (rows.len() - 1) as usize,
                rows.last(),
            ) {
                Err(e) => Err(e),
                Ok(record) => Ok(before.push(record)),
            },
        }
    }
}

/// The records that the response `text` holds, or the reason why it holds
/// none. The stages follow each other in this order: header, embedded error,
/// sections, descriptors, rows; the first that fails decides.
pub open spec fn decode_spec(text: Seq<char>) -> Result<Seq<Seq<FieldView>>, ErrorView> {
    match body_of(text) {
        None => Err(ErrorView::MalformedPayload),
        Some(body) => match remote_error(body) {
            Some(message) => Err(ErrorView::RemoteBusinessError { message }),
            None => match sections(body) {
                None => Err(ErrorView::MalformedPayload),
                Some((descriptors, rows)) => match parse_descriptors(split(descriptors, US)) {
                    Err(e) => Err(e),
                    Ok(ds) => parse_rows(ds, row_texts(rows)),
                },
            },
        },
    }
}

/// Where the text behind the header tag holds the error marker, decoding
/// gives the error of the remote system, whatever else the text holds.
pub proof fn lemma_error_precedence(text: Seq<char>)
    requires
        body_of(text) is Some,
        contains(body_of(text)->0, error_marker()),
    ensures
        remote_error(body_of(text)->0) is Some,
        decode_spec(text) == Err::<Seq<Seq<FieldView>>, ErrorView>(
            ErrorView::RemoteBusinessError { message: remote_error(body_of(text)->0)->0 },
        ),
{
}

/// Reading descriptors never fails for want of a header tag or a marker.
pub proof fn lemma_descriptors_not_malformed(tokens: Seq<Seq<char>>)
    ensures
        parse_descriptors(tokens) != Err::<Seq<DescriptorView>, ErrorView>(
            ErrorView::MalformedPayload,
        ),
    decreases tokens.len(),
{
    if tokens.len() > 0 {
        lemma_descriptors_not_malformed(tokens.drop_last());
    }
}

/// Reading the tokens of a row never fails for want of a header tag or a
/// marker.
pub proof fn lemma_fields_not_malformed(
    descriptors: Seq<DescriptorView>,
    row: usize,
    tokens: Seq<Seq<char>>,
)
    ensures
        coerce_all(descriptors, row, tokens) != Err::<Seq<FieldView>, ErrorView>(
            ErrorView::MalformedPayload,
        ),
    decreases tokens.len(),
{
    if tokens.len() > 0 && descriptors.len() > 0 {
        lemma_fields_not_malformed(descriptors.drop_last(), row, tokens.drop_last());
    }
}

/// Reading rows never fails for want of a header tag or a marker.
pub proof fn lemma_rows_not_malformed(descriptors: Seq<DescriptorView>, rows: Seq<Seq<char>>)
    ensures
        parse_rows(descriptors, rows) != Err::<Seq<Seq<FieldView>>, ErrorView>(
            ErrorView::MalformedPayload,
        ),
    decreases rows.len(),
{
    if rows.len() > 0 {
        lemma_rows_not_malformed(descriptors, rows.drop_last());
        lemma_fields_not_malformed(
            descriptors,
            (rows.len() - 1) as usize,
            split(rows.last(), US),
        );
    }
}

/// A response is malformed if and only if it lacks the header tag or,
/// bearing no error message of the remote system, lacks the descriptor
/// marker or the row marker behind it.
pub proof fn lemma_malformed_iff(text: Seq<char>)
    ensures
        decode_spec(text) == Err::<Seq<Seq<FieldView>>, ErrorView>(ErrorView::MalformedPayload)
            <==> (body_of(text) matches Some(body) ==> remote_error(body) is None && (split_once(
            body,
            descriptor_marker(),
        ) matches Some((_, rest)) ==> split_once(rest, row_marker()) is None)),
{
    match body_of(text) {
        Some(body) => match sections(body) {
            Some((descriptors, rows)) => {
                lemma_descriptors_not_malformed(split(descriptors, US));
                match parse_descriptors(split(descriptors, US)) {
                    Ok(ds) => {
                        lemma_rows_not_malformed(ds, row_texts(rows));
                    },
                    Err(_) => {},
                }
            },
            None => {},
        },
        None => {},
    }
}

/// A response whose row segment is empty holds no records, as long as its
/// descriptors can be read; this is no error.
pub proof fn lemma_empty_rows(text: Seq<char>)
    requires
        body_of(text) is Some,
        remote_error(body_of(text)->0) is None,
        sections(body_of(text)->0) matches Some((descriptors, rows)) && rows.len() == 0
            && parse_descriptors(split(descriptors, US)) is Ok,
    ensures
        decode_spec(text) == Ok::<Seq<Seq<FieldView>>, ErrorView>(
            Seq::<Seq<FieldView>>::empty(),
        ),
{
}

/// A row with another number of tokens than there are descriptors is
/// turned down, with its index and both numbers.
pub proof fn lemma_shape_mismatch(descriptors: Seq<DescriptorView>, row: usize, text: Seq<char>)
    requires
        split(text, US).len() != descriptors.len(),
    ensures
        parse_row(descriptors, row, text) == Err::<Seq<FieldView>, ErrorView>(
            ErrorView::RowShapeMismatch {
                row,
                expected: descriptors.len() as usize,
                got: split(text, US).len() as usize,
            },
        ),
{
}

/// Where every descriptor token can be read, there is one descriptor for
/// each token, in their order.
pub proof fn lemma_descriptors_one_for_one(tokens: Seq<Seq<char>>)
    requires
        parse_descriptors(tokens) is Ok,
    ensures
        parse_descriptors(tokens)->Ok_0.len() == tokens.len(),
        forall|i: int|
            0 <= i < tokens.len() ==> parse_descriptor(#[trigger] tokens[i]) == Ok::<
                DescriptorView,
                ErrorView,
            >(parse_descriptors(tokens)->Ok_0[i]),
    decreases tokens.len(),
{
    if tokens.len() > 0 {
        let init = tokens.drop_last();
        lemma_descriptors_one_for_one(init);
        let all = parse_descriptors(tokens)->Ok_0;
        assert forall|i: int| 0 <= i < tokens.len() implies parse_descriptor(
            #[trigger] tokens[i],
        ) == Ok::<DescriptorView, ErrorView>(all[i]) by {
            if i < tokens.len() - 1 {
                assert(tokens[i] == init[i]);
            }
        }
    }
}

/// Where every token of a row can be read, the record has one field for
/// each descriptor, in their order: it bears the name of the descriptor and
/// the value that the token of its place gives under the type of the
/// descriptor.
pub proof fn lemma_fields_follow_descriptors(
    descriptors: Seq<DescriptorView>,
    row: usize,
    tokens: Seq<Seq<char>>,
)
    requires
        descriptors.len() == tokens.len(),
        coerce_all(descriptors, row, tokens) is Ok,
    ensures
        coerce_all(descriptors, row, tokens)->Ok_0.len() == descriptors.len(),
        forall|j: int|
            0 <= j < descriptors.len() ==> {
                let field = #[trigger] coerce_all(descriptors, row, tokens)->Ok_0[j];
                &&& field.name == descriptors[j].name
                &&& coerce(descriptors[j].ty, tokens[j]) == Some(field.value)
            },
    decreases tokens.len(),
{
    if tokens.len() > 0 {
        let ds = descriptors.drop_last();
        let ts = tokens.drop_last();
        lemma_fields_follow_descriptors(ds, row, ts);
        let all = coerce_all(descriptors, row, tokens)->Ok_0;
        assert forall|j: int| 0 <= j < descriptors.len() implies {
            let field = #[trigger] all[j];
            &&& field.name == descriptors[j].name
            &&& coerce(descriptors[j].ty, tokens[j]) == Some(field.value)
        } by {
        }
    }
}

/// Where every row can be read, there is one record for each row, in their
/// order, and every row holds as many tokens as there are descriptors.
pub proof fn lemma_records_one_for_one(descriptors: Seq<DescriptorView>, rows: Seq<Seq<char>>)
    requires
        parse_rows(descriptors, rows) is Ok,
    ensures
        parse_rows(descriptors, rows)->Ok_0.len() == rows.len(),
        forall|i: int|
            0 <= i < rows.len() ==> {
                &&& split(#[trigger] rows[i], US).len() == descriptors.len()
                &&& parse_row(descriptors, i as usize, rows[i]) == Ok::<
                    Seq<FieldView>,
                    ErrorView,
                >(parse_rows(descriptors, rows)->Ok_0[i])
            },
    decreases rows.len(),
{
    if rows.len() > 0 {
        let init = rows.drop_last();
        lemma_records_one_for_one(descriptors, init);
        let all = parse_rows(descriptors, rows)->Ok_0;
        assert forall|i: int| 0 <= i < rows.len() implies {
            &&& split(#[trigger] rows[i], US).len() == descriptors.len()
            &&& parse_row(descriptors, i as usize, rows[i]) == Ok::<Seq<FieldView>, ErrorView>(
                all[i],
            )
        } by {
            if i < rows.len() - 1 {
                assert(rows[i] == init[i]);
            }
        }
    }
}

/// The views of the descriptors of `ds`.
pub open spec fn descriptor_views(ds: Seq<FieldDescriptor>) -> Seq<DescriptorView> {
    ds.map_values(|d: FieldDescriptor| d@)
}

/// The text behind the header tag.
pub fn strip_header(text: &Vec<char>) -> (r: Option<Vec<char>>)
    ensures
        match r {
            Some(body) => body_of(text@) == Some(body@),
            None => body_of(text@) is None,
        },
{
    let tag = header_chars();
    if matches_at(text, &tag, 0) {
        Some(slice(text, tag.len(), text.len()))
    } else {
        None
    }
}

/// The error message that the remote system put into `body`.
pub fn find_remote_error(body: &Vec<char>) -> (r: Option<Vec<char>>)
    ensures
        match r {
            Some(message) => remote_error(body@) == Some(message@),
            None => remote_error(body@) is None,
        },
{
    match try_split(body, &error_marker_chars()) {
        Some((_, after)) => Some(take_until(&after, US)),
        None => None,
    }
}

/// The descriptor segment and the row segment of `body`.
pub fn split_sections(body: &Vec<char>) -> (r: Option<(Vec<char>, Vec<char>)>)
    ensures
        match r {
            Some((descriptors, rows)) => sections(body@) == Some((descriptors@, rows@)),
            None => sections(body@) is None,
        },
{
    match try_split(body, &descriptor_marker_chars()) {
        None => None,
        Some((_, rest)) => try_split(&rest, &row_marker_chars()),
    }
}

/// Reads every descriptor token of `tokens`.
pub fn read_descriptors(tokens: &Vec<Vec<char>>) -> (r: Result<Vec<FieldDescriptor>, CodecError>)
    ensures
        match r {
            Ok(ds) => parse_descriptors(views(tokens@)) == Ok::<Seq<DescriptorView>, ErrorView>(
                descriptor_views(ds@),
            ),
            Err(e) => parse_descriptors(views(tokens@)) == Err::<Seq<DescriptorView>, ErrorView>(
                e@,
            ),
        },
{
    let mut ds: Vec<FieldDescriptor> = Vec::new();
    let mut i: usize = 0;
    assert(descriptor_views(ds@) =~= Seq::<DescriptorView>::empty());
    while i < tokens.len()
        invariant
            i <= tokens.len(),
            parse_descriptors(views(tokens@).take(i as int)) == Ok::<
                Seq<DescriptorView>,
                ErrorView,
            >(descriptor_views(ds@)),
        decreases tokens.len() - i,
    {
        let ghost next = views(tokens@).take(i + 1);
        let ghost before = descriptor_views(ds@);
        assert(next.drop_last() =~= views(tokens@).take(i as int));
        match FieldDescriptor::from_chars(&tokens[i]) {
            Ok(d) => {
                ds.push(d);
                assert(descriptor_views(ds@) =~= before.push(d@));
            },
            Err(e) => {
                proof {
                    lemma_descriptor_error_stays(views(tokens@), i + 1);
                }
                return Err(e);
            },
        }
        i += 1;
    }
    assert(views(tokens@).take(tokens.len() as int) =~= views(tokens@));
    Ok(ds)
}

/// An error among the first `k` tokens is the error of all the tokens.
pub proof fn lemma_descriptor_error_stays(tokens: Seq<Seq<char>>, k: int)
    requires
        0 <= k <= tokens.len(),
        parse_descriptors(tokens.take(k)) is Err,
    ensures
        parse_descriptors(tokens) == parse_descriptors(tokens.take(k)),
    decreases tokens.len() - k,
{
    if k == tokens.len() {
        assert(tokens.take(k) =~= tokens);
    } else {
        assert(tokens.drop_last().take(k) =~= tokens.take(k));
        lemma_descriptor_error_stays(tokens.drop_last(), k);
    }
}

/// An error among the first `k` rows is the error of all the rows.
pub proof fn lemma_row_error_stays(descriptors: Seq<DescriptorView>, rows: Seq<Seq<char>>, k: int)
    requires
        0 <= k <= rows.len(),
        parse_rows(descriptors, rows.take(k)) is Err,
    ensures
        parse_rows(descriptors, rows) == parse_rows(descriptors, rows.take(k)),
    decreases rows.len() - k,
{
    if k == rows.len() {
        assert(rows.take(k) =~= rows);
    } else {
        assert(rows.drop_last().take(k) =~= rows.take(k));
        lemma_row_error_stays(descriptors, rows.drop_last(), k);
    }
}

/// An error among the first `k` tokens of a row is the error of the row.
pub proof fn lemma_coerce_error_stays(
    descriptors: Seq<DescriptorView>,
    row: usize,
    tokens: Seq<Seq<char>>,
    k: int,
)
    requires
        descriptors.len() == tokens.len(),
        0 <= k <= tokens.len(),
        coerce_all(descriptors.take(k), row, tokens.take(k)) is Err,
    ensures
        coerce_all(descriptors, row, tokens) == coerce_all(
            descriptors.take(k),
            row,
            tokens.take(k),
        ),
    decreases tokens.len() - k,
{
    if k == tokens.len() {
        assert(tokens.take(k) =~= tokens);
        assert(descriptors.take(k) =~= descriptors);
    } else {
        assert(tokens.drop_last().take(k) =~= tokens.take(k));
        assert(descriptors.drop_last().take(k) =~= descriptors.take(k));
        lemma_coerce_error_stays(descriptors.drop_last(), row, tokens.drop_last(), k);
    }
}

/// Reads the row `text`, the row of index `row`, against `descriptors`.
pub fn read_row(descriptors: &Vec<FieldDescriptor>, row: usize, text: &Vec<char>) -> (r: Result<
    Record,
    CodecError,
>)
    ensures
        match r {
            Ok(record) => parse_row(descriptor_views(descriptors@), row, text@) == Ok::<
                Seq<FieldView>,
                ErrorView,
            >(record@),
            Err(e) => parse_row(descriptor_views(descriptors@), row, text@) == Err::<
                Seq<FieldView>,
                ErrorView,
            >(e@),
        },
{
    let tokens = split_on(text, US);
    let ghost ds = descriptor_views(descriptors@);
    let ghost ts = views(tokens@);
    if tokens.len() != descriptors.len() {
        return Err(
            CodecError::RowShapeMismatch {
                row,
                expected: descriptors.len(),
                got: tokens.len(),
            },
        );
    }
    let mut fields: Vec<RecordField> = Vec::new();
    let mut i: usize = 0;
    assert(fields@.map_values(|f: RecordField| f@) =~= Seq::<FieldView>::empty());
    while i < tokens.len()
        invariant
            i <= tokens.len(),
            tokens.len() == descriptors.len(),
            ds == descriptor_views(descriptors@),
            ts == views(tokens@),
            ts == split(text@, US),
            coerce_all(ds.take(i as int), row, ts.take(i as int)) == Ok::<
                Seq<FieldView>,
                ErrorView,
            >(fields@.map_values(|f: RecordField| f@)),
        decreases tokens.len() - i,
    {
        let ghost before = fields@.map_values(|f: RecordField| f@);
        proof {
            assert(ts.take(i + 1).drop_last() =~= ts.take(i as int));
            assert(ds.take(i + 1).drop_last() =~= ds.take(i as int));
        }
        match descriptors[i].coerce_chars(row, &tokens[i]) {
            Ok(f) => {
                fields.push(f);
                assert(fields@.map_values(|f: RecordField| f@) =~= before.push(f@));
            },
            Err(e) => {
                proof {
                    lemma_coerce_error_stays(ds, row, ts, i + 1);
                }
                return Err(e);
            },
        }
        i += 1;
    }
    assert(ts.take(tokens.len() as int) =~= ts);
    assert(ds.take(tokens.len() as int) =~= ds);
    Ok(Record { fields })
}

/// Reads every row of the row segment `segment` against `descriptors`.
pub fn read_rows(descriptors: &Vec<FieldDescriptor>, segment: &Vec<char>) -> (r: Result<
    Vec<Record>,
    CodecError,
>)
    ensures
        match r {
            Ok(records) => parse_rows(descriptor_views(descriptors@), row_texts(segment@))
                == Ok::<Seq<Seq<FieldView>>, ErrorView>(record_views(records@)),
            Err(e) => parse_rows(descriptor_views(descriptors@), row_texts(segment@)) == Err::<
                Seq<Seq<FieldView>>,
                ErrorView,
            >(e@),
        },
{
    let mut records: Vec<Record> = Vec::new();
    if segment.len() == 0 {
        assert(record_views(records@) =~= Seq::<Seq<FieldView>>::empty());
        return Ok(records);
    }
    let rows = split_on(segment, RS);
    let ghost ds = descriptor_views(descriptors@);
    let ghost texts = views(rows@);
    let mut i: usize = 0;
    assert(record_views(records@) =~= Seq::<Seq<FieldView>>::empty());
    while i < rows.len()
        invariant
            i <= rows.len(),
            ds == descriptor_views(descriptors@),
            texts == views(rows@),
            texts == row_texts(segment@),
            parse_rows(ds, texts.take(i as int)) == Ok::<Seq<Seq<FieldView>>, ErrorView>(
                record_views(records@),
            ),
        decreases rows.len() - i,
    {
        let ghost before = record_views(records@);
        proof {
            assert(texts.take(i + 1).drop_last() =~= texts.take(i as int));
        }
        match read_row(descriptors, i, &rows[i]) {
            Ok(record) => {
                records.push(record);
                assert(record_views(records@) =~= before.push(record@));
            },
            Err(e) => {
                proof {
                    lemma_row_error_stays(ds, texts, i + 1);
                }
                return Err(e);
            },
        }
        i += 1;
    }
    assert(texts.take(rows.len() as int) =~= texts);
    Ok(records)
}

/// Decodes the response `text`, stage by stage.
pub fn decode_chars(text: &Vec<char>) -> (r: Result<Vec<Record>, CodecError>)
    ensures
        match r {
            Ok(records) => decode_spec(text@) == Ok::<Seq<Seq<FieldView>>, ErrorView>(
                record_views(records@),
            ),
            Err(e) => decode_spec(text@) == Err::<Seq<Seq<FieldView>>, ErrorView>(e@),
        },
{
    let body = match strip_header(text) {
        Some(body) => body,
        None => {
            return Err(CodecError::MalformedPayload);
        },
    };
    match find_remote_error(&body) {
        Some(message) => {
            return Err(CodecError::RemoteBusinessError { message: to_string(&message) });
        },
        None => {},
    }
    let (descriptors, rows) = match split_sections(&body) {
        Some(found) => found,
        None => {
            return Err(CodecError::MalformedPayload);
        },
    };
    let ds = match read_descriptors(&split_on(&descriptors, US)) {
        Ok(ds) => ds,
        Err(e) => {
            return Err(e);
        },
    };
    read_rows(&ds, &rows)
}

} // verus!
