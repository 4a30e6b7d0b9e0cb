//! Cell addresses: a column, written in letters, and an optional row, written
//! as a number that counts from one.

use vstd::prelude::*;
use crate::number::{lemma_nat_text, nat_text, parse_u32, parse_u32_spec, push_decimal};
use crate::sheet::error::{SheetError, SheetErrorView};
use crate::text::{slice, to_chars, to_string};

verus! {

/// The address of a cell, or of a whole column where the row is left out.
/// Columns and rows count from zero.
#[derive(Copy, Clone, Debug, Default, PartialEq, Eq, PartialOrd, Ord, Hash)]
pub struct MatrixIndex {
    pub col: u16,
    pub row: Option<u32>,
}

/// The number of rows that a sheet may have.
pub const MAX_ROW: u32 = 5_000_000;

/// The number of columns that a sheet may have.
pub const MAX_COL: u16 = 17_576;

/// The number of letters with which columns are written.
pub const NUM_ALPHABETS: u16 = 26;

/// Whether `c` is a letter of the ASCII alphabet.
pub open spec fn is_letter(c: char) -> bool {
    ('A' <= c && c <= 'Z') || ('a' <= c && c <= 'z')
}

/// The place of the letter `c` in the alphabet, from zero, whatever its case.
pub open spec fn letter_value(c: char) -> nat {
    if 'a' <= c && c <= 'z' {
        (c as int - 'a' as int) as nat
    } else {
        (c as int - 'A' as int) as nat
    }
}

/// The column that the letters `s` write: each letter counts 26 times what
/// the letters before it count, plus its own place.
pub open spec fn column_value(s: Seq<char>) -> nat
    decreases s.len(),
{
    if s.len() == 0 {
        0
    } else {
        column_value(s.drop_last()) * 26 + letter_value(s.last())
    }
}

/// The number of letters with which `s` begins.
pub open spec fn letters_len(s: Seq<char>) -> nat
    decreases s.len(),
{
    if s.len() > 0 && is_letter(s[0]) {
        1 + letters_len(s.skip(1))
    } else {
        0
    }
}

/// Whether every character of `s` is in ASCII.
pub open spec fn all_ascii(s: Seq<char>) -> bool {
    forall|i: int| 0 <= i < s.len() ==> (#[trigger] s[i]) as int <= 127
}

/// The address that `s` writes. The letters at its start give the column;
/// what follows them, if anything, gives the row, which counts from one.
pub open spec fn parse_index(s: Seq<char>) -> Result<MatrixIndex, SheetErrorView> {
    let k = letters_len(s) as int;
    if s.len() == 0 {
        Err(SheetErrorView::EmptyIndex)
    } else if !all_ascii(s) {
        Err(SheetErrorView::NonAsciiIndex)
    } else if column_value(s.take(k)) >= MAX_COL {
        Err(SheetErrorView::ColumnOutOfRange)
    } else if k == s.len() {
        Ok(MatrixIndex { col: column_value(s.take(k)) as u16, row: None })
    } else {
        match parse_u32_spec(s.skip(k)) {
            None => Err(SheetErrorView::InvalidRow),
            Some(row) => if row == 0 {
                Err(SheetErrorView::ZeroRow)
            } else if row > MAX_ROW {
                Err(SheetErrorView::RowOutOfRange)
            } else {
                Ok(
                    MatrixIndex {
                        col: column_value(s.take(k)) as u16,
                        row: Some((row - 1) as u32),
                    },
                )
            },
        }
    }
}

/// The letter whose place in the alphabet is `d`.
pub open spec fn letter_char(d: nat) -> char {
    ('A' as int + d) as char
}

/// The letters that write the column `col`, the least significant first.
pub open spec fn column_letters(col: nat) -> Seq<char>
    decreases col,
{
    if col < 26 {
        seq![letter_char(col)]
    } else {
        seq![letter_char(col % 26)] + column_letters(col / 26)
    }
}

/// The text of the address `index`: the letters of its column and, where it
/// has a row, the number of the row, counted from one.
pub open spec fn index_text(index: MatrixIndex) -> Seq<char> {
    match index.row {
        Some(row) => column_letters(index.col as nat) + nat_text((row + 1) as nat),
        None => column_letters(index.col as nat),
    }
}

/// Whether `a` comes before `b`, or is `b`: by column first, then by row,
/// where a missing row comes before any row.
pub open spec fn precedes(a: MatrixIndex, b: MatrixIndex) -> bool {
    a.col < b.col || (a.col == b.col && match (a.row, b.row) {
        (None, _) => true,
        (Some(_), None) => false,
        (Some(x), Some(y)) => x <= y,
    })
}

/// The value of the letters never shrinks as more letters follow.
pub proof fn lemma_column_value_grows(s: Seq<char>, k: int)
    requires
        0 <= k <= s.len(),
    ensures
        column_value(s.take(k)) <= column_value(s),
    decreases s.len() - k,
{
    if k == s.len() {
        assert(s.take(k) =~= s);
    } else {
        lemma_column_value_grows(s.drop_last(), k);
        assert(s.drop_last().take(k) =~= s.take(k));
        assert(column_value(s.drop_last()) * 26 >= column_value(s.drop_last())) by (nonlinear_arith)
            requires
                column_value(s.drop_last()) >= 0,
        ;
    }
}

/// Where the first `k` characters of `s` are letters and the next is none,
/// or `s` ends there, `s` begins with exactly `k` letters.
pub proof fn lemma_letters_len(s: Seq<char>, k: int)
    requires
        0 <= k <= s.len(),
        forall|i: int| 0 <= i < k ==> is_letter(#[trigger] s[i]),
        k < s.len() ==> !is_letter(s[k]),
    ensures
        letters_len(s) == k,
    decreases k,
{
    if k > 0 {
        let rest = s.skip(1);
        lemma_letters_len(rest, k - 1);
    }
}

/// An address of one of the first 26 columns, with a row that a sheet may
/// have or with none, reads back from its text. Beyond these columns the
/// text puts the least significant letter first while reading takes the most
/// significant first.
pub proof fn lemma_index_reads_back(index: MatrixIndex)
    requires
        index.col < 26,
        index.row matches Some(row) ==> row < MAX_ROW,
    ensures
        parse_index(index_text(index)) == Ok::<MatrixIndex, SheetErrorView>(index),
{
    let letter = letter_char(index.col as nat);
    let letters = seq![letter];
    assert(column_value(letters) == index.col) by {
        assert(column_value(letters.drop_last()) == 0);
    }
    let s = index_text(index);
    match index.row {
        None => {
            lemma_letters_len(s, 1);
            assert(s.take(1) =~= letters);
        },
        Some(row) => {
            let digits = nat_text((row + 1) as nat);
            lemma_nat_text((row + 1) as nat);
            lemma_letters_len(s, 1);
            assert(s.take(1) =~= letters);
            assert(s.skip(1) =~= digits);
        },
    }
}

impl MatrixIndex {
    /// The address of column `col` and row `row`.
    pub fn new(col: u16, row: Option<u32>) -> (r: MatrixIndex)
        ensures
            r.col == col,
            r.row == row,
    {
        MatrixIndex { col, row }
    }

    /// Whether `self` comes before `other`, or is `other`.
    pub fn precedes(&self, other: &MatrixIndex) -> (r: bool)
        ensures
            r == precedes(*self, *other),
    {
        if self.col != other.col {
            self.col < other.col
        } else {
            match (self.row, other.row) {
                (None, _) => true,
                (Some(_), None) => false,
                (Some(x), Some(y)) => x <= y,
            }
        }
    }

    /// Whether `self` and `other` are the same address.
    pub fn same(&self, other: &MatrixIndex) -> (r: bool)
        ensures
            r == (*self == *other),
    {
        self.col == other.col && match (self.row, other.row) {
            (None, None) => true,
            (Some(x), Some(y)) => x == y,
            _ => false,
        }
    }

    /// Reads an address such as `B7` or `AC`.
    pub fn from_chars(s: &Vec<char>) -> (r: Result<MatrixIndex, SheetError>)
        ensures
            match r {
                Ok(index) => parse_index(s@) == Ok::<MatrixIndex, SheetErrorView>(index),
                Err(e) => parse_index(s@) == Err::<MatrixIndex, SheetErrorView>(e@),
            },
    {
        if s.len() == 0 {
            return Err(SheetError::EmptyIndex);
        }
        let mut a: usize = 0;
        while a < s.len()
            invariant
                a <= s.len(),
                s.len() > 0,
                forall|i: int| 0 <= i < a ==> (#[trigger] s@[i]) as int <= 127,
            decreases s.len() - a,
        {
            if s[a] > '\u{7f}' {
                return Err(SheetError::NonAsciiIndex);
            }
            a += 1;
        }
        let mut col: u32 = 0;
        let mut k: usize = 0;
        while k < s.len() && is_letter_char(s[k])
            invariant
                k <= s.len(),
                s.len() > 0,
                all_ascii(s@),
                forall|i: int| 0 <= i < k ==> is_letter(#[trigger] s@[i]),
                col == column_value(s@.take(k as int)),
                col < MAX_COL,
            decreases s.len() - k,
        {
            let ghost next = s@.take(k + 1);
            proof {
                assert(next.drop_last() =~= s@.take(k as int));
            }
            col = col * 26 + letter_place(s[k]);
            k += 1;
            if col >= MAX_COL as u32 {
                proof {
                    let n = letters_len(s@) as int;
                    lemma_letters_len_at_least(s@, k as int);
                    lemma_column_value_grows(s@.take(n), k as int);
                    assert(s@.take(n).take(k as int) =~= s@.take(k as int));
                }
                return Err(SheetError::ColumnOutOfRange);
            }
        }
        proof {
            lemma_letters_len(s@, k as int);
        }
        if k == s.len() {
            return Ok(MatrixIndex { col: col as u16, row: None });
        }
        let digits = slice(s, k, s.len());
        match parse_u32(&digits) {
            None => Err(SheetError::InvalidRow),
            Some(row) => {
                if row == 0 {
                    Err(SheetError::ZeroRow)
                } else if row > MAX_ROW {
                    Err(SheetError::RowOutOfRange)
                } else {
                    Ok(MatrixIndex { col: col as u16, row: Some(row - 1) })
                }
            },
        }
    }

    /// Reads an address such as `B7` or `AC`.
    pub fn from_str(s: &str) -> (r: Result<MatrixIndex, SheetError>)
        ensures
            match r {
                Ok(index) => parse_index(s@) == Ok::<MatrixIndex, SheetErrorView>(index),
                Err(e) => parse_index(s@) == Err::<MatrixIndex, SheetErrorView>(e@),
            },
    {
        MatrixIndex::from_chars(&to_chars(s))
    }

    /// The text of the address.
    pub fn to_chars(&self) -> (r: Vec<char>)
        ensures
            r@ == index_text(*self),
    {
        let mut out: Vec<char> = Vec::new();
        push_letters(&mut out, self.col);
        match self.row {
            Some(row) => {
                push_decimal(&mut out, row as u64 + 1);
            },
            None => {},
        }
        out
    }

    /// The text of the address.
    pub fn to_string(&self) -> (r: String)
        ensures
            r@ == index_text(*self),
    {
        to_string(&self.to_chars())
    }
}

/// Where the first `k` characters of `s` are letters, `s` begins with at
/// least `k` letters.
pub proof fn lemma_letters_len_at_least(s: Seq<char>, k: int)
    requires
        0 <= k <= s.len(),
        forall|i: int| 0 <= i < k ==> is_letter(#[trigger] s[i]),
    ensures
        k <= letters_len(s) <= s.len(),
    decreases s.len(),
{
    if s.len() > 0 && is_letter(s[0]) {
        let rest = s.skip(1);
        if k > 0 {
            lemma_letters_len_at_least(rest, k - 1);
        } else {
            lemma_letters_len_at_least(rest, 0);
        }
    }
}

/// Whether `c` is a letter of the ASCII alphabet.
pub fn is_letter_char(c: char) -> (r: bool)
    ensures
        r == is_letter(c),
{
    (c >= 'A' && c <= 'Z') || (c >= 'a' && c <= 'z')
}

/// The place of the letter `c` in the alphabet.
pub fn letter_place(c: char) -> (r: u32)
    requires
        is_letter(c),
    ensures
        r == letter_value(c),
        r < 26,
{
    if c >= 'a' && c <= 'z' {
        c as u32 - 'a' as u32
    } else {
        c as u32 - 'A' as u32
    }
}

/// The letter whose place in the alphabet is `d`.
fn place_letter(d: u16) -> (c: char)
    requires
        d < 26,
    ensures
        c == letter_char(d as nat),
{
    let letters: [char; 26] = [
        'A', 'B', 'C', 'D', 'E', 'F', 'G', 'H', 'I', 'J', 'K', 'L', 'M',
        'N', 'O', 'P', 'Q', 'R', 'S', 'T', 'U', 'V', 'W', 'X', 'Y', 'Z',
    ];
    letters[d as usize]
}

/// Appends the letters of the column `col` to `out`.
fn push_letters(out: &mut Vec<char>, col: u16)
    ensures
        final(out)@ == old(out)@ + column_letters(col as nat),
{
    let mut rest: u16 = col;
    let ghost start = out@;
    while rest >= 26
        invariant
            start + column_letters(col as nat) == out@ + column_letters(rest as nat),
        decreases rest,
    {
        out.push(place_letter(rest % 26));
        proof {
            assert(column_letters(rest as nat) == seq![letter_char((rest % 26) as nat)]
                + column_letters((rest / 26) as nat));
            assert(out@ + column_letters((rest / 26) as nat) =~= out@.drop_last() + column_letters(
                rest as nat,
            ));
        }
        rest = rest / 26;
    }
    out.push(place_letter(rest));
}

} // verus!
