//! Choosing a transformation by its name.

use vstd::prelude::*;
use crate::error::{ErrorKind, TextError, empty_headers_message, invalid_operation_message};
use crate::reader::{has_empty_header, parsed};
use crate::table::{Csv, table_rendered};
use crate::text::{
    is_slug, lowercase, lowercase_of, no_spaces, slug_of, slugify_text, uppercase, uppercase_of,
    without_spaces,
};

verus! {

/// Whether `name` is one of the five operation names.
pub open spec fn is_operation(name: Seq<char>) -> bool {
    ||| name == "lowercase"@
    ||| name == "uppercase"@
    ||| name == "no-spaces"@
    ||| name == "slugify"@
    ||| name == "csv"@
}

/// What `process_csv` owes for `input`: the rendered table where the text
/// holds one, a parse error where it does not.
pub open spec fn csv_outcome(input: Seq<char>, r: Result<String, TextError>) -> bool {
    match parsed(input) {
        Some((header, rows)) => r is Ok && r->Ok_0@ == table_rendered(header, rows),
        None => r is Err && r->Err_0.kind == ErrorKind::Parse && (has_empty_header(input)
            ==> r->Err_0.message@ == empty_headers_message()),
    }
}

/// Reads CSV text and renders it as an aligned table.
pub fn process_csv(input: &str) -> (r: Result<String, TextError>)
    ensures
        csv_outcome(input@, r),
{
    match Csv::from_str(input) {
        Ok(table) => Ok(table.render()),
        Err(error) => Err(error),
    }
}

/// Applies the operation called `operation` to `input`. A name that is
/// none of the five fails, with a message that lists them.
pub fn process_text(operation: &str, input: &str) -> (r: Result<String, TextError>)
    ensures
        operation@ == "lowercase"@ ==> r is Ok && r->Ok_0@ == lowercase_of(input@),
        operation@ == "uppercase"@ ==> r is Ok && r->Ok_0@ == uppercase_of(input@),
        operation@ == "no-spaces"@ ==> r is Ok && r->Ok_0@ == without_spaces(input@),
        operation@ == "slugify"@ ==> r is Ok && r->Ok_0@ == slug_of(input@) && is_slug(r->Ok_0@),
        operation@ == "csv"@ ==> csv_outcome(input@, r),
        !is_operation(operation@) ==> r is Err && r->Err_0.kind == ErrorKind::InvalidOperation
            && r->Err_0.message@ == invalid_operation_message(),
{
    proof {
        lemma_names_differ();
    }
    if same_text(operation, "lowercase") {
        lowercase(input)
    } else if same_text(operation, "uppercase") {
        uppercase(input)
    } else if same_text(operation, "no-spaces") {
        no_spaces(input)
    } else if same_text(operation, "slugify") {
        slugify_text(input)
    } else if same_text(operation, "csv") {
        process_csv(input)
    } else {
        Err(TextError::invalid_operation())
    }
}

/// The five operation names are five different texts.
proof fn lemma_names_differ()
    ensures
        "lowercase"@ != "uppercase"@,
        "lowercase"@ != "no-spaces"@,
        "uppercase"@ != "no-spaces"@,
        "slugify"@.len() == 7,
        "csv"@.len() == 3,
        "lowercase"@.len() == 9,
        "uppercase"@.len() == 9,
        "no-spaces"@.len() == 9,
{
    reveal_strlit("lowercase");
    reveal_strlit("uppercase");
    reveal_strlit("no-spaces");
    reveal_strlit("slugify");
    reveal_strlit("csv");
    assert("lowercase"@[0] == 'l');
    assert("uppercase"@[0] == 'u');
    assert("no-spaces"@[0] == 'n');
}

/// Whether two texts are the same, character by character.
fn same_text(a: &str, b: &str) -> (same: bool)
    ensures
        same == (a@ == b@),
{
    let left: String = a.to_owned();
    let right: String = b.to_owned();
    left == right
}

} // verus!
