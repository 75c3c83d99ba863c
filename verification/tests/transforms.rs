use text_transform::dispatch::process_text;
use text_transform::error::ErrorKind;
use text_transform::text::{lowercase, no_spaces, slugify_text, uppercase};

fn is_slug(s: &str) -> bool {
    s.chars().all(|c| c.is_ascii_lowercase() || c.is_ascii_digit() || c == '-')
        && !s.starts_with('-')
        && !s.ends_with('-')
        && !s.contains("--")
}

#[test]
fn lowercase_hello_world() {
    assert_eq!(process_text("lowercase", "Hello World").unwrap(), "hello world");
    assert_eq!(lowercase("Hello World").unwrap(), "hello world");
}

#[test]
fn uppercase_hello_world() {
    assert_eq!(process_text("uppercase", "Hello World").unwrap(), "HELLO WORLD");
    assert_eq!(uppercase("Hello World").unwrap(), "HELLO WORLD");
}

#[test]
fn case_mapping_keeps_other_ascii() {
    assert_eq!(lowercase("A-Z @[`{ 09\n").unwrap(), "a-z @[`{ 09\n");
    assert_eq!(uppercase("a-z @[`{ 09\n").unwrap(), "A-Z @[`{ 09\n");
    assert_eq!(lowercase("").unwrap(), "");
    assert_eq!(uppercase("").unwrap(), "");
}

#[test]
fn case_mapping_beyond_ascii() {
    assert_eq!(lowercase("ÉCOLE").unwrap(), "école");
    assert_eq!(uppercase("école").unwrap(), "ÉCOLE");
    assert_eq!(uppercase("straße").unwrap(), "STRASSE");
}

#[test]
fn case_folding_is_idempotent_on_ascii() {
    for s in ["Hello World", "", "ABC xyz 123 !?", "mIxEd\tCaSe\n"] {
        let once = lowercase(s).unwrap();
        let up = uppercase(&once).unwrap();
        let again = lowercase(&up).unwrap();
        assert_eq!(again, once);
    }
}

#[test]
fn case_folding_can_change_text_beyond_ascii() {
    let once = lowercase("ß").unwrap();
    assert_eq!(once, "ß");
    let up = uppercase(&once).unwrap();
    assert_eq!(up, "SS");
    assert_eq!(lowercase(&up).unwrap(), "ss");
}

#[test]
fn no_spaces_hello_world() {
    assert_eq!(process_text("no-spaces", "Hello World").unwrap(), "HelloWorld");
    assert_eq!(no_spaces("Hello World").unwrap(), "HelloWorld");
}

#[test]
fn no_spaces_keeps_other_whitespace() {
    assert_eq!(no_spaces(" a\tb \n c  ").unwrap(), "a\tb\nc");
    assert_eq!(no_spaces("").unwrap(), "");
    assert_eq!(no_spaces("    ").unwrap(), "");
    assert_eq!(no_spaces("é è").unwrap(), "éè");
}

#[test]
fn no_spaces_length_and_content() {
    for s in ["Hello World", "  lead and trail  ", "none", " ", "a  b   c", " é ü\u{a0}"] {
        let out = no_spaces(s).unwrap();
        let spaces = s.chars().filter(|c| *c == ' ').count();
        assert!(!out.contains(' '));
        assert_eq!(out.chars().count(), s.chars().count() - spaces);
        assert_eq!(out.len(), s.len() - spaces);
    }
}

#[test]
fn slugify_hello_world() {
    assert_eq!(process_text("slugify", "Héllo World!").unwrap(), "hello-world");
    assert_eq!(slugify_text("Héllo World!").unwrap(), "hello-world");
}

#[test]
fn slugify_collapses_and_strips() {
    assert_eq!(slugify_text("My Test String!!!1!1").unwrap(), "my-test-string-1-1");
    assert_eq!(slugify_text("  --test_-_cool").unwrap(), "test-cool");
    assert_eq!(slugify_text("user@example.com").unwrap(), "user-example-com");
    assert_eq!(slugify_text("").unwrap(), "");
    assert_eq!(slugify_text("!!!").unwrap(), "");
}

#[test]
fn slugify_output_has_slug_shape() {
    for s in ["Héllo World!", "--a--b--", "Æúű--cool?", "   ", "UPPER lower 42", "a - b"] {
        let out = slugify_text(s).unwrap();
        assert!(is_slug(&out));
    }
}

#[test]
fn invalid_operation_lists_valid_names() {
    let err = process_text("reverse", "Hello World").unwrap_err();
    assert_eq!(err.kind, ErrorKind::InvalidOperation);
    assert_eq!(
        err.to_string(),
        "Invalid operation. Use: lowercase, uppercase, no-spaces, slugify, or csv"
    );
    for name in ["lowercase", "uppercase", "no-spaces", "slugify", "csv"] {
        assert!(err.message.contains(name));
    }
}

#[test]
fn operation_names_are_exact() {
    for name in ["", "Lowercase", "lowercase ", "no_spaces", "CSV", "slug"] {
        let err = process_text(name, "x").unwrap_err();
        assert_eq!(err.kind, ErrorKind::InvalidOperation);
    }
}

#[test]
fn plain_transforms_add_no_newline() {
    assert_eq!(process_text("lowercase", "A\n").unwrap(), "a\n");
    assert_eq!(process_text("uppercase", "a").unwrap(), "A");
    assert_eq!(process_text("no-spaces", "a \n").unwrap(), "a\n");
}
