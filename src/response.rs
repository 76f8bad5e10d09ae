//! Result encoding: rows of storage values to a JSON array of arrays.

use vstd::prelude::*;
use vstd::string::StringExecFns;

use crate::json_calls::{json_number_text, json_quoted, number_json, quote_json};
use crate::text::push_char;

verus! {

/// One value returned by storage. A real is held as a decimal
/// `(-1)^(1 - positive) * mantissa * 10^exponent`; `Other` is any kind
/// of value the encoder does not support.
#[derive(Debug)]
pub enum CellValue {
    Null,
    Integer(i64),
    Real { positive: bool, mantissa: u64, exponent: i16 },
    Text(String),
    Other,
}

/// The character of a decimal digit.
pub open spec fn digit_char(d: int) -> char {
    ((48 + d) as u8) as char
}

/// Decimal digits of a natural number, most significant first.
pub open spec fn nat_decimal(n: nat) -> Seq<char>
    decreases n,
{
    if n < 10 {
        seq![digit_char(n as int)]
    } else {
        nat_decimal(n / 10).push(digit_char((n % 10) as int))
    }
}

/// Decimal text of an integer, with a leading `-` when negative.
pub open spec fn int_decimal(i: int) -> Seq<char> {
    if i < 0 {
        seq!['-'] + nat_decimal((-i) as nat)
    } else {
        nat_decimal(i as nat)
    }
}

/// The JSON text of one value, or `None` for a kind that is skipped.
pub open spec fn cell_json(c: CellValue) -> Option<Seq<char>> {
    match c {
        CellValue::Null => Some("null"@),
        CellValue::Integer(i) => Some(int_decimal(i as int)),
        CellValue::Real { positive, mantissa, exponent } => Some(
            json_number_text(positive, mantissa, exponent),
        ),
        CellValue::Text(s) => Some(json_quoted(s@)),
        CellValue::Other => None,
    }
}

/// The JSON texts of the supported values of a row, in order.
pub open spec fn row_items(row: Seq<CellValue>) -> Seq<Seq<char>>
    decreases row.len(),
{
    if row.len() == 0 {
        Seq::empty()
    } else {
        match cell_json(row.last()) {
            Some(x) => row_items(row.drop_last()).push(x),
            None => row_items(row.drop_last()),
        }
    }
}

/// The items separated by commas.
pub open spec fn join_commas(items: Seq<Seq<char>>) -> Seq<char>
    decreases items.len(),
{
    if items.len() == 0 {
        Seq::empty()
    } else if items.len() == 1 {
        items[0]
    } else {
        join_commas(items.drop_last()) + seq![','] + items.last()
    }
}

/// A JSON array of the given item texts.
pub open spec fn json_array(items: Seq<Seq<char>>) -> Seq<char> {
    seq!['['] + join_commas(items) + seq![']']
}

/// The rows of a result as sequences of values.
pub open spec fn rows_view(rows: Seq<Vec<CellValue>>) -> Seq<Seq<CellValue>> {
    rows.map_values(|r: Vec<CellValue>| r@)
}

/// The JSON text of a result: an array with one array per row.
pub open spec fn rows_json(rows: Seq<Seq<CellValue>>) -> Seq<char> {
    json_array(rows.map_values(|r: Seq<CellValue>| json_array(row_items(r))))
}

/// Appends the decimal digits of `n`.
fn push_decimal(out: &mut String, n: u64)
    ensures
        final(out)@ == old(out)@ + nat_decimal(n as nat),
    decreases n,
{
    if n >= 10 {
        push_decimal(out, n / 10);
    }
    let d: u8 = (n % 10) as u8;
    push_char(out, (48 + d) as char);
    assert(out@ =~= old(out)@ + nat_decimal(n as nat));
}

/// Appends the decimal text of `i`.
fn push_integer(out: &mut String, i: i64)
    ensures
        final(out)@ == old(out)@ + int_decimal(i as int),
{
    if i < 0 {
        push_char(out, '-');
        let m: u64 = if i == i64::MIN {
            9223372036854775808u64
        } else {
            (-i) as u64
        };
        push_decimal(out, m);
        assert(out@ =~= old(out)@ + int_decimal(i as int));
    } else {
        push_decimal(out, i as u64);
    }
}

/// Appends the JSON text of one value, if its kind is supported.
fn push_cell(out: &mut String, c: &CellValue) -> (pushed: bool)
    ensures
        pushed == cell_json(*c) is Some,
        pushed ==> final(out)@ == old(out)@ + cell_json(*c)->0,
        !pushed ==> final(out)@ == old(out)@,
{
    match c {
        CellValue::Null => {
            out.append("null");
            true
        },
        CellValue::Integer(i) => {
            push_integer(out, *i);
            true
        },
        CellValue::Real { positive, mantissa, exponent } => {
            let t = number_json(*positive, *mantissa, *exponent);
            out.append(t.as_str());
            true
        },
        CellValue::Text(s) => {
            let t = quote_json(s.as_str());
            out.append(t.as_str());
            true
        },
        CellValue::Other => false,
    }
}

/// Appends the JSON array of one row.
fn push_row(out: &mut String, row: &Vec<CellValue>)
    ensures
        final(out)@ == old(out)@ + json_array(row_items(row@)),
{
    push_char(out, '[');
    let ghost start = out@;
    let mut any = false;
    let mut i: usize = 0;
    while i < row.len()
        invariant
            i <= row.len(),
            any == (row_items(row@.take(i as int)).len() > 0),
            out@ == start + join_commas(row_items(row@.take(i as int))),
        decreases row.len() - i,
    {
        assert(row@.take(i + 1).drop_last() =~= row@.take(i as int));
        assert(row@.take(i + 1).last() == row@[i as int]);
        let ghost prev = row_items(row@.take(i as int));
        let mut item = String::new();
        let pushed = push_cell(&mut item, &row[i]);
        if pushed {
            assert(row_items(row@.take(i + 1)) == prev.push(item@));
            assert(prev.push(item@).drop_last() =~= prev);
            if any {
                push_char(out, ',');
            } else {
                assert(prev.push(item@) =~= seq![item@]);
            }
            out.append(item.as_str());
            any = true;
        }
        assert(out@ =~= start + join_commas(row_items(row@.take(i + 1))));
        i = i + 1;
    }
    assert(row@.take(row.len() as int) =~= row@);
    push_char(out, ']');
    assert(out@ =~= old(out)@ + json_array(row_items(row@)));
}

/// The plain text of a value: `null`, a number's JSON text, or a string's
/// characters as they are; an unsupported kind has no text.
pub open spec fn cell_text(c: CellValue) -> Seq<char> {
    match c {
        CellValue::Null => "null"@,
        CellValue::Integer(i) => int_decimal(i as int),
        CellValue::Real { positive, mantissa, exponent } => json_number_text(
            positive,
            mantissa,
            exponent,
        ),
        CellValue::Text(s) => s@,
        CellValue::Other => Seq::empty(),
    }
}

/// A value that has a plain-text form.
pub trait SerialiseField {
    fn serialise(&self) -> String;
}

impl SerialiseField for CellValue {
    fn serialise(&self) -> (r: String)
        ensures
            r@ == cell_text(*self),
    {
        match self {
            CellValue::Null => String::from_str("null"),
            CellValue::Integer(i) => {
                let mut out = String::new();
                push_integer(&mut out, *i);
                assert(out@ =~= int_decimal(*i as int));
                out
            },
            CellValue::Real { positive, mantissa, exponent } => number_json(
                *positive,
                *mantissa,
                *exponent,
            ),
            CellValue::Text(s) => s.clone(),
            CellValue::Other => String::new(),
        }
    }
}

/// Turns result rows into a response body.
pub trait ResponseBuilder<T> {
    fn from_row_data(row_data: Vec<Vec<T>>) -> String;
}

/// Encodes rows of storage values as a JSON array of arrays.
pub struct Sqlite3ResponseBuilder;

impl ResponseBuilder<CellValue> for Sqlite3ResponseBuilder {
    /// One JSON array per row, in row order; within a row one JSON value per
    /// supported value, in column order, unsupported kinds left out.
    fn from_row_data(row_data: Vec<Vec<CellValue>>) -> (r: String)
        ensures
            r@ == rows_json(rows_view(row_data@)),
    {
        let ghost rows = rows_view(row_data@);
        let ghost items = rows.map_values(|r: Seq<CellValue>| json_array(row_items(r)));
        let mut out = String::new();
        push_char(&mut out, '[');
        let ghost start = out@;
        let mut i: usize = 0;
        while i < row_data.len()
            invariant
                i <= row_data.len(),
                rows == rows_view(row_data@),
                items == rows.map_values(|r: Seq<CellValue>| json_array(row_items(r))),
                out@ == start + join_commas(items.take(i as int)),
            decreases row_data.len() - i,
        {
            assert(items.take(i + 1).drop_last() =~= items.take(i as int));
            assert(items[i as int] == json_array(row_items(row_data@[i as int]@)));
            if i > 0 {
                push_char(&mut out, ',');
            }
            push_row(&mut out, &row_data[i]);
            assert(out@ =~= start + join_commas(items.take(i + 1)));
            i = i + 1;
        }
        assert(items.take(row_data.len() as int) =~= items);
        push_char(&mut out, ']');
        assert(out@ =~= rows_json(rows));
        out
    }
}

} // verus!
