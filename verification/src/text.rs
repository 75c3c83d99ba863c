//! The plain transformations: case mapping, space removal and slugs.
//!
//! Case mapping and slugs are computed by the standard library and by the
//! `slug` crate. Their results are named here; what is known of them is the
//! ASCII behaviour of the case mappings and the shape of a slug.

use vstd::prelude::*;
use vstd::utf8::{encode_scalar, encode_utf8, is_ascii_chars};
use crate::error::TextError;

verus! {

/// The lowercase form that `str::to_lowercase` gives a string with
/// a character outside ASCII.
pub uninterp spec fn unicode_lowercase(s: Seq<char>) -> Seq<char>;

/// The uppercase form that `str::to_uppercase` gives a string with
/// a character outside ASCII.
pub uninterp spec fn unicode_uppercase(s: Seq<char>) -> Seq<char>;

/// The slug that `slug::slugify` computes.
pub uninterp spec fn slug_of(s: Seq<char>) -> Seq<char>;

/// The length of `s` in bytes of UTF-8.
pub open spec fn byte_len(s: Seq<char>) -> nat {
    encode_utf8(s).len()
}

/// `A`..`Z` become `a`..`z`; every other character stays.
pub open spec fn ascii_lower(c: char) -> char {
    if 'A' <= c && c <= 'Z' {
        ((c as u8 + 32) as u8) as char
    } else {
        c
    }
}

/// `a`..`z` become `A`..`Z`; every other character stays.
pub open spec fn ascii_upper(c: char) -> char {
    if 'a' <= c && c <= 'z' {
        ((c as u8 - 32) as u8) as char
    } else {
        c
    }
}

/// The lowercase form of a string: character by character on ASCII text,
/// the Unicode mapping otherwise.
pub open spec fn lowercase_of(s: Seq<char>) -> Seq<char> {
    if is_ascii_chars(s) {
        Seq::new(s.len(), |i: int| ascii_lower(s[i]))
    } else {
        unicode_lowercase(s)
    }
}

/// The uppercase form of a string: character by character on ASCII text,
/// the Unicode mapping otherwise.
pub open spec fn uppercase_of(s: Seq<char>) -> Seq<char> {
    if is_ascii_chars(s) {
        Seq::new(s.len(), |i: int| ascii_upper(s[i]))
    } else {
        unicode_uppercase(s)
    }
}

/// `s` with every occurrence of the character `from` replaced by `to`.
pub open spec fn replace_char(s: Seq<char>, from: char, to: Seq<char>) -> Seq<char>
    decreases s.len(),
{
    if s.len() == 0 {
        Seq::empty()
    } else if s.last() == from {
        replace_char(s.drop_last(), from, to) + to
    } else {
        replace_char(s.drop_last(), from, to).push(s.last())
    }
}

/// `s` without its ASCII spaces; other whitespace stays.
pub open spec fn without_spaces(s: Seq<char>) -> Seq<char> {
    replace_char(s, ' ', Seq::empty())
}

/// How many ASCII spaces `s` holds.
pub open spec fn count_spaces(s: Seq<char>) -> nat
    decreases s.len(),
{
    if s.len() == 0 {
        0
    } else if s.last() == ' ' {
        count_spaces(s.drop_last()) + 1
    } else {
        count_spaces(s.drop_last())
    }
}

/// A lowercase ASCII letter, a digit or a hyphen.
pub open spec fn is_slug_char(c: char) -> bool {
    ('a' <= c && c <= 'z') || ('0' <= c && c <= '9') || c == '-'
}

/// The shape of a slug: lowercase ASCII letters, digits and hyphens only,
/// no hyphen at either end and no two hyphens in a row.
pub open spec fn is_slug(s: Seq<char>) -> bool {
    &&& forall|i: int| 0 <= i < s.len() ==> is_slug_char(#[trigger] s[i])
    &&& s.len() > 0 ==> s[0] != '-' && s[s.len() - 1] != '-'
    &&& forall|i: int| 0 <= i < s.len() - 1 ==> !(#[trigger] s[i] == '-' && s[i + 1] == '-')
}

/// Calls `str::to_lowercase`. On ASCII text that is the ASCII mapping of
/// `A`..`Z` to `a`..`z`; on other text the result is only named.
#[verifier::external_body]
fn std_to_lowercase(input: &str) -> (r: String)
    ensures
        r@ == if is_ascii_chars(input@) {
            Seq::new(input@.len(), |i: int| ascii_lower(input@[i]))
        } else {
            unicode_lowercase(input@)
        },
{
    input.to_lowercase()
}

/// Calls `str::to_uppercase`. On ASCII text that is the ASCII mapping of
/// `a`..`z` to `A`..`Z`; on other text the result is only named.
#[verifier::external_body]
fn std_to_uppercase(input: &str) -> (r: String)
    ensures
        r@ == if is_ascii_chars(input@) {
            Seq::new(input@.len(), |i: int| ascii_upper(input@[i]))
        } else {
            unicode_uppercase(input@)
        },
{
    input.to_uppercase()
}

/// Calls `str::replace` with a pattern of one character: every occurrence
/// of that character is replaced by `to`, the rest is kept in order.
#[verifier::external_body]
fn std_replace(input: &str, from: &str, to: &str) -> (r: String)
    requires
        from@.len() == 1,
    ensures
        r@ == replace_char(input@, from@[0], to@),
{
    input.replace(from, to)
}

/// Calls `slug::slugify`. The result is named, and has the shape that the
/// crate documents: `a`-`z`, `0`-`9` and `-`, never two `-` in a row, never
/// a `-` at the start or the end.
#[verifier::external_body]
fn slug_slugify(input: &str) -> (r: String)
    ensures
        r@ == slug_of(input@),
        is_slug(r@),
{
    slug::slugify(input)
}

/// Every character in its lowercase form.
pub fn lowercase(input: &str) -> (r: Result<String, TextError>)
    ensures
        r is Ok,
        r->Ok_0@ == lowercase_of(input@),
{
    Ok(std_to_lowercase(input))
}

/// Every character in its uppercase form.
pub fn uppercase(input: &str) -> (r: Result<String, TextError>)
    ensures
        r is Ok,
        r->Ok_0@ == uppercase_of(input@),
{
    Ok(std_to_uppercase(input))
}

/// The input without its ASCII spaces. Tabs and newlines stay.
pub fn no_spaces(input: &str) -> (r: Result<String, TextError>)
    ensures
        r is Ok,
        r->Ok_0@ == without_spaces(input@),
        !r->Ok_0@.contains(' '),
        r->Ok_0@.len() == input@.len() - count_spaces(input@),
        byte_len(r->Ok_0@) == byte_len(input@) - count_spaces(input@),
{
    proof {
        reveal_strlit(" ");
        reveal_strlit("");
        lemma_without_spaces(input@);
    }
    let out = std_replace(input, " ", "");
    assert(""@ =~= Seq::<char>::empty());
    Ok(out)
}

/// The input as a URL-safe slug.
pub fn slugify_text(input: &str) -> (r: Result<String, TextError>)
    ensures
        r is Ok,
        r->Ok_0@ == slug_of(input@),
        is_slug(r->Ok_0@),
{
    Ok(slug_slugify(input))
}

/// A character added at the end adds the bytes of its own encoding.
pub proof fn lemma_byte_len_push(s: Seq<char>, c: char)
    ensures
        byte_len(s.push(c)) == byte_len(s) + encode_scalar(c as u32).len(),
    decreases s.len(),
{
    if s.len() == 0 {
        assert(s.push(c).drop_first() =~= Seq::<char>::empty());
        assert(encode_utf8(Seq::<char>::empty()).len() == 0);
    } else {
        assert(s.push(c).drop_first() =~= s.drop_first().push(c));
        lemma_byte_len_push(s.drop_first(), c);
    }
}

/// Removing the spaces leaves no space, and shortens the text by the
/// number of spaces it held, counted in characters and counted in bytes.
pub proof fn lemma_without_spaces(s: Seq<char>)
    ensures
        !without_spaces(s).contains(' '),
        without_spaces(s).len() == s.len() - count_spaces(s),
        byte_len(without_spaces(s)) == byte_len(s) - count_spaces(s),
        count_spaces(s) <= s.len(),
    decreases s.len(),
{
    if s.len() > 0 {
        let head = s.drop_last();
        lemma_without_spaces(head);
        assert(s =~= head.push(s.last()));
        lemma_byte_len_push(head, s.last());
        lemma_byte_len_push(without_spaces(head), s.last());
        assert(encode_scalar(' ' as u32).len() == 1);
        let kept = without_spaces(head);
        if s.last() == ' ' {
            assert(without_spaces(s) =~= kept);
        } else {
            assert(without_spaces(s) =~= kept.push(s.last()));
            assert forall|i: int| 0 <= i < kept.push(s.last()).len() implies kept.push(
                s.last(),
            )[i] != ' ' by {
                if i < kept.len() {
                    assert(kept.contains(kept[i]));
                }
            }
        }
    }
}

/// On ASCII text, lowering the case after raising it after lowering it
/// gives what lowering it once gives.
pub proof fn lemma_case_fold_idempotent(s: Seq<char>)
    requires
        is_ascii_chars(s),
    ensures
        lowercase_of(uppercase_of(lowercase_of(s))) == lowercase_of(s),
{
    let low = lowercase_of(s);
    assert(is_ascii_chars(low));
    let up = uppercase_of(low);
    assert(is_ascii_chars(up));
    assert(lowercase_of(up) =~= low);
}

} // verus!
