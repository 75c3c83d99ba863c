//! Reading a table from CSV text.
//!
//! The text is split into records by the `csv` crate, with every field
//! trimmed and with rows of any length. What the crate returns for a text is named here; the rule that
//! a table needs a header is this library's own.

use vstd::prelude::*;
use crate::error::{ErrorKind, TextError, empty_headers_message};
use crate::table::{Csv, texts, text_rows};

verus! {

/// The error type of the `csv` crate.
#[verifier::external_type_specification]
#[verifier::external_body]
pub struct ExCsvError(csv::Error);

/// The trimmed fields of the first record of `input`, as a flexible
/// `csv::Reader` reports them through `headers`; `None` where it reports an
/// error.
pub uninterp spec fn csv_header(input: Seq<char>) -> Option<Seq<Seq<char>>>;

/// The trimmed fields of the records after the first, in order, as a
/// flexible `csv::Reader` yields them through `records`, each with as many
/// fields as it has; `None` where one of them is an error.
pub uninterp spec fn csv_rows(input: Seq<char>) -> Option<Seq<Seq<Seq<char>>>>;

/// A character with the Unicode property White_Space, which is what
/// `str::trim` removes.
pub open spec fn is_white_space(c: char) -> bool {
    ||| ('\t' <= c && c <= '\r')
    ||| c == ' '
    ||| c == '\u{85}'
    ||| c == '\u{a0}'
    ||| c == '\u{1680}'
    ||| ('\u{2000}' <= c && c <= '\u{200a}')
    ||| c == '\u{2028}'
    ||| c == '\u{2029}'
    ||| c == '\u{202f}'
    ||| c == '\u{205f}'
    ||| c == '\u{3000}'
}

/// `s` neither begins nor ends with white space.
pub open spec fn is_trimmed(s: Seq<char>) -> bool {
    s.len() > 0 ==> !is_white_space(s[0]) && !is_white_space(s[s.len() - 1])
}

/// Every field of the record is trimmed.
pub open spec fn all_trimmed(fields: Seq<Seq<char>>) -> bool {
    forall|i: int| 0 <= i < fields.len() ==> is_trimmed(#[trigger] fields[i])
}

/// Every field of every row is trimmed.
pub open spec fn all_rows_trimmed(rows: Seq<Seq<Seq<char>>>) -> bool {
    forall|r: int| 0 <= r < rows.len() ==> all_trimmed(#[trigger] rows[r])
}

/// The header and rows of the table that `input` holds: both must be
/// readable, and the header must have a column.
pub open spec fn parsed(input: Seq<char>) -> Option<(Seq<Seq<char>>, Seq<Seq<Seq<char>>>)> {
    match (csv_header(input), csv_rows(input)) {
        (Some(header), Some(rows)) => if header.len() > 0 {
            Some((header, rows))
        } else {
            None
        },
        _ => None,
    }
}

/// Whether `input` can be split into records and has none for a header.
pub open spec fn has_empty_header(input: Seq<char>) -> bool {
    csv_header(input) == Some(Seq::<Seq<char>>::empty()) && csv_rows(input) is Some
}

/// Text whose header is empty holds no table.
pub proof fn lemma_empty_header_is_no_table(input: Seq<char>)
    requires
        has_empty_header(input),
    ensures
        parsed(input) is None,
{
}

/// Calls `csv::Reader::headers` on a flexible reader over `input` that
/// trims all fields. The fields it returns, or the fact that it failed,
/// are what `csv_header` names. The reader trims each field with
/// `str::trim`, so none begins or ends with white space.
#[verifier::external_body]
fn csv_read_header(input: &str) -> (r: Result<Vec<String>, csv::Error>)
    ensures
        match r {
            Ok(fields) => csv_header(input@) == Some(texts(fields@)) && all_trimmed(
                texts(fields@),
            ),
            Err(_) => csv_header(input@) is None,
        },
{
    let mut reader = csv::ReaderBuilder::new().trim(csv::Trim::All).flexible(true).from_reader(
        input.as_bytes(),
    );
    let header = reader.headers()?;
    Ok(header.iter().map(String::from).collect())
}

/// Calls `csv::Reader::records` on a flexible reader over `input` that
/// trims all fields, up to the first error. The rows it yields, or the
/// fact that one was an error, are what `csv_rows` names. The reader trims
/// each field with `str::trim`, so none begins or ends with white space.
#[verifier::external_body]
fn csv_read_rows(input: &str) -> (r: Result<Vec<Vec<String>>, csv::Error>)
    ensures
        match r {
            Ok(rows) => csv_rows(input@) == Some(text_rows(rows@)) && all_rows_trimmed(
                text_rows(rows@),
            ),
            Err(_) => csv_rows(input@) is None,
        },
{
    let mut reader = csv::ReaderBuilder::new().trim(csv::Trim::All).flexible(true).from_reader(
        input.as_bytes(),
    );
    let mut rows = Vec::new();
    for record in reader.records() {
        rows.push(record?.iter().map(String::from).collect());
    }
    Ok(rows)
}

/// Calls `to_string` on a `csv::Error`. Nothing is claimed of the text.
#[verifier::external_body]
fn csv_error_text(error: &csv::Error) -> (text: String) {
    error.to_string()
}

impl Csv {
    /// Reads a table from CSV text. The first record is the header, the
    /// others are the rows, in order; every field is trimmed. Fails with a
    /// parse error where the text cannot be split into records or holds no
    /// header.
    pub fn from_str(input: &str) -> (r: Result<Csv, TextError>)
        ensures
            match parsed(input@) {
                Some((header, rows)) => r is Ok && r->Ok_0.wf() && r->Ok_0.header() == header
                    && r->Ok_0.rows() == rows && all_trimmed(header) && all_rows_trimmed(rows),
                None => r is Err && r->Err_0.kind == ErrorKind::Parse,
            },
            has_empty_header(input@) ==> r is Err && r->Err_0.message@ == empty_headers_message(),
    {
        let headers = match csv_read_header(input) {
            Ok(fields) => fields,
            Err(error) => {
                return Err(TextError::parse(csv_error_text(&error)));
            },
        };
        let records = match csv_read_rows(input) {
            Ok(rows) => rows,
            Err(error) => {
                return Err(TextError::parse(csv_error_text(&error)));
            },
        };
        Csv::new(headers, records)
    }
}

} // verus!
