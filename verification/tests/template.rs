use mirror_upload::error::{MuError, Span};
use mirror_upload::template::{Lookup, Template, VarTable};

fn table(pairs: &[(&str, &str)]) -> VarTable {
    let mut t = VarTable::new();
    for (k, v) in pairs {
        t.add(k, v);
    }
    t
}

fn resolve(input: &str, pairs: &[(&str, &str)]) -> Result<String, MuError> {
    Template::parse(input).and_then(|t| t.resolve(&table(pairs)))
}

#[test]
fn plain_text_round_trips() {
    let out = resolve("hello world", &[("unused", "x")]).unwrap();
    assert_eq!(out, "hello world");
}

#[test]
fn empty_text_round_trips() {
    assert_eq!(resolve("", &[]).unwrap(), "");
}

#[test]
fn escaped_backslash_resolves_to_backslash() {
    assert_eq!(resolve("\\\\", &[]).unwrap(), "\\");
}

#[test]
fn escaped_dollar_resolves_to_dollar() {
    assert_eq!(resolve("\\$", &[]).unwrap(), "$");
}

#[test]
fn unknown_escape_passes_through() {
    assert_eq!(resolve("\\x", &[]).unwrap(), "\\x");
}

#[test]
fn bare_variable_resolves() {
    assert_eq!(resolve("$foo", &[("foo", "bar")]).unwrap(), "bar");
}

#[test]
fn braced_variable_behaves_like_bare() {
    let bare = resolve("$foo", &[("foo", "bar")]).unwrap();
    let braced = resolve("${ foo }", &[("foo", "bar")]).unwrap();
    assert_eq!(bare, braced);
    assert_eq!(braced, "bar");
}

#[test]
fn braced_variable_without_whitespace() {
    assert_eq!(resolve("${foo}", &[("foo", "bar")]).unwrap(), "bar");
}

#[test]
fn mixed_parts_resolve_in_order() {
    let out = resolve("a$x-b${ y }c", &[("x", "1"), ("y", "2")]).unwrap();
    assert_eq!(out, "a1-b2c");
}

#[test]
fn trailing_dollar_fails_with_span_at_dollar() {
    let err = Template::parse("$").unwrap_err();
    assert_eq!(err.msg, "Could not parse template");
    assert_eq!(err.span, Some(Span { offset: 0, length: 1 }));
    let cause = err.cause.as_deref().unwrap();
    assert_eq!(cause.msg, "Cannot read: reached end of text");
    assert_eq!(cause.span, Some(Span { offset: 0, length: 1 }));
    assert_eq!(cause.source_code.as_deref(), Some("$"));
}

#[test]
fn trailing_dollar_span_counts_bytes_not_chars() {
    // 'é' is two bytes in UTF-8, so the '$' begins at byte offset 2
    let err = Template::parse("é$").unwrap_err();
    let cause = err.cause.as_deref().unwrap();
    assert_eq!(cause.span, Some(Span { offset: 2, length: 1 }));
}

#[test]
fn unclosed_brackets_span_covers_brace_to_end() {
    let err = Template::parse("${foo").unwrap_err();
    assert_eq!(err.msg, "Could not parse template");
    let unclosed = err.cause.as_deref().unwrap();
    assert_eq!(unclosed.msg, "Unclosed brackets");
    assert_eq!(unclosed.span, Some(Span { offset: 1, length: 4 }));
    assert_eq!(unclosed.source_code.as_deref(), Some("${foo"));
    let eoi = unclosed.cause.as_deref().unwrap();
    assert_eq!(eoi.msg, "Cannot read: reached end of text");
    assert_eq!(eoi.span, Some(Span { offset: 5, length: 0 }));
}

#[test]
fn unclosed_brackets_on_unexpected_character() {
    let err = Template::parse("${foo bar}").unwrap_err();
    let unclosed = err.cause.as_deref().unwrap();
    assert_eq!(unclosed.msg, "Unclosed brackets");
    // from the '{' at offset 1 through the 'b' at offset 6
    assert_eq!(unclosed.span, Some(Span { offset: 1, length: 6 }));
}

#[test]
fn empty_braced_name_is_reported() {
    let err = Template::parse("${ }").unwrap_err();
    let cause = err.cause.as_deref().unwrap();
    assert_eq!(cause.msg, "No variable name found inside brackets");
    assert_eq!(cause.span, Some(Span { offset: 3, length: 0 }));
}

#[test]
fn invalid_character_after_dollar_is_reported() {
    let err = Template::parse("$%").unwrap_err();
    let cause = err.cause.as_deref().unwrap();
    assert_eq!(
        cause.msg,
        "Expected variable name or curly brackets after $, found %"
    );
    assert_eq!(cause.span, Some(Span { offset: 1, length: 1 }));
}

#[test]
fn trailing_backslash_fails() {
    let err = Template::parse("\\").unwrap_err();
    assert_eq!(err.msg, "Could not parse template");
    let escape = err.cause.as_deref().unwrap();
    assert_eq!(escape.msg, "Could not read escape");
    assert_eq!(escape.span, Some(Span { offset: 1, length: 0 }));
    let eoi = escape.cause.as_deref().unwrap();
    assert_eq!(eoi.msg, "Cannot read: reached end of text");
}

#[test]
fn unresolved_variable_names_the_variable() {
    let template = Template::parse("$missing").unwrap();
    let err = template.resolve(&table(&[("other", "x")])).unwrap_err();
    assert_eq!(err.msg, "Could not resolve variable 'missing' in template");
    assert!(err.cause.is_none());
}

#[test]
fn resolution_fails_fast_without_partial_output() {
    let template = Template::parse("$a$b").unwrap();
    let err = template.resolve(&table(&[("a", "1")])).unwrap_err();
    assert_eq!(err.msg, "Could not resolve variable 'b' in template");
}

#[test]
fn template_resolves_repeatedly_with_different_lookups() {
    let template = Template::parse("v$tag").unwrap();
    assert_eq!(template.resolve(&table(&[("tag", "1")])).unwrap(), "v1");
    assert_eq!(template.resolve(&table(&[("tag", "2")])).unwrap(), "v2");
}

#[test]
fn variable_names_may_hold_digits_underscore_dot() {
    let out = resolve("$a_1.b", &[("a_1.b", "ok")]).unwrap();
    assert_eq!(out, "ok");
}

#[test]
fn first_table_entry_wins() {
    let mut t = VarTable::new();
    t.add("k", "first");
    t.add("k", "second");
    assert_eq!(t.lookup("k").as_deref(), Some("first"));
    assert_eq!(t.lookup("absent"), None);
}
