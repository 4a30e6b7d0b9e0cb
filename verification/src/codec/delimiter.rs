//! The tokens that give a payload its structure. None of them is escaped: a
//! value that holds one of them changes the structure of the payload.

use vstd::prelude::*;
use crate::text::to_chars;

verus! {

/// The tag with which every payload begins.
pub const HEADER: &'static str = "SSV:utf-8";

/// The record separator, between the rows of a response.
pub const RS: char = '\u{1e}';

/// The unit separator, between the fields of a request or of a row.
pub const US: char = '\u{1f}';

/// The text that announces an error message of the remote system.
pub const ERROR_MARKER: &'static str = "ErrorMsg:string=";

/// The header tag.
pub open spec fn header() -> Seq<char> {
    "SSV:utf-8"@
}

/// The text that announces an error message of the remote system.
pub open spec fn error_marker() -> Seq<char> {
    "ErrorMsg:string="@
}

/// The marker behind which the field descriptors begin.
pub open spec fn descriptor_marker() -> Seq<char> {
    seq![RS] + "_RowType_"@ + seq![US]
}

/// The marker behind which the rows begin.
pub open spec fn row_marker() -> Seq<char> {
    seq![RS, 'N', US]
}

/// The header tag holds no unit separator.
pub proof fn lemma_header_free()
    ensures
        !header().contains(US),
{
    reveal_strlit("SSV:utf-8");
    assert(header().len() == 9);
}

/// The header tag.
pub fn header_chars() -> (r: Vec<char>)
    ensures
        r@ == header(),
{
    to_chars(HEADER)
}

/// The text that announces an error message of the remote system.
pub fn error_marker_chars() -> (r: Vec<char>)
    ensures
        r@ == error_marker(),
{
    to_chars(ERROR_MARKER)
}

/// The marker behind which the field descriptors begin.
pub fn descriptor_marker_chars() -> (r: Vec<char>)
    ensures
        r@ == descriptor_marker(),
{
    let mut r: Vec<char> = vec![RS];
    let mut tag = to_chars("_RowType_");
    r.append(&mut tag);
    r.push(US);
    r
}

/// The marker behind which the rows begin.
pub fn row_marker_chars() -> (r: Vec<char>)
    ensures
        r@ == row_marker(),
{
    let r: Vec<char> = vec![RS, 'N', US];
    r
}

} // verus!
