use kdl::KdlIdentifier;
use kdl::SourceSpan;

#[test]
fn parsing() {
    let plain = "foo";
    let mut expected = KdlIdentifier::from(plain);
    expected.set_repr(plain.to_string());
    expected.set_span(SourceSpan { offset: 0, len: 3 });
    assert_eq!(plain.parse::<KdlIdentifier>().unwrap(), expected);

    let quoted = r#""foo\"bar""#;
    let mut expected = KdlIdentifier::from("foo\"bar");
    expected.set_repr(quoted.to_string());
    expected.set_span(SourceSpan { offset: 0, len: 0 });
    assert_eq!(quoted.parse::<KdlIdentifier>().unwrap(), expected);

    let invalid = "123";
    assert!(invalid.parse::<KdlIdentifier>().is_err());

    let invalid = "   space   ";
    assert!(invalid.parse::<KdlIdentifier>().is_err());

    let invalid = "\"x";
    assert!(invalid.parse::<KdlIdentifier>().is_err());
}

#[test]
fn formatting() {
    let plain = KdlIdentifier::from("foo");
    assert_eq!(plain.render(), "foo");

    let quoted = KdlIdentifier::from("foo\"bar");
    assert_eq!(quoted.render(), r#""foo\"bar""#);

    let mut custom_repr = KdlIdentifier::from("foo");
    custom_repr.set_repr(r#""foo/bar""#.to_string());
    assert_eq!(custom_repr.render(), r#""foo/bar""#);
}

#[test]
fn parse_keeps_original_spelling() {
    let id = KdlIdentifier::parse("foo").unwrap();
    assert_eq!(id.value(), "foo");
    assert_eq!(id.repr(), Some("foo"));
    assert_eq!(id.span(), SourceSpan { offset: 0, len: 3 });
    assert_eq!(id.render(), "foo");

    let id = KdlIdentifier::parse(r#""foo\"bar""#).unwrap();
    assert_eq!(id.value(), "foo\"bar");
    assert_eq!(id.repr(), Some(r#""foo\"bar""#));
    assert_eq!(id.render(), r#""foo\"bar""#);
}

#[test]
fn quoted_escapes_decode() {
    let id = KdlIdentifier::parse(r#""a\nb\tc\\d""#).unwrap();
    assert_eq!(id.value(), "a\nb\tc\\d");

    // \s (space) is a current-grammar escape only.
    let id = KdlIdentifier::parse(r#""a\sb""#).unwrap();
    assert_eq!(id.value(), "a b");
}

#[test]
fn parse_error_messages_and_spans() {
    let e = KdlIdentifier::parse("").unwrap_err();
    assert_eq!(e.message(), "expected identifier");
    assert_eq!(e.span(), SourceSpan { offset: 0, len: 0 });

    let e = KdlIdentifier::parse("123").unwrap_err();
    assert_eq!(e.message(), "invalid bare identifier");
    assert_eq!(e.span(), SourceSpan { offset: 0, len: 3 });

    let e = KdlIdentifier::parse("\"x").unwrap_err();
    assert_eq!(e.message(), "unterminated string literal");
    assert_eq!(e.span(), SourceSpan { offset: 0, len: 2 });
}

#[test]
fn fallback_accepts_legacy_only_tokens() {
    // `#` is legal in a legacy bare token but reserved by the current grammar.
    let id = KdlIdentifier::parse("foo#bar").unwrap();
    assert_eq!(id.value(), "foo#bar");
    assert_eq!(id.repr(), Some("foo#bar"));

    // `\/` is a legacy-only escape.
    let id = KdlIdentifier::parse(r#""a\/b""#).unwrap();
    assert_eq!(id.value(), "a/b");
}

#[test]
fn fallback_error_is_the_current_grammar_error() {
    // Both grammars reject `\q`; the error is the current grammar's message,
    // not the fixed legacy one.
    let e = KdlIdentifier::parse(r#""a\qb""#).unwrap_err();
    assert_eq!(e.message(), "invalid string literal");

    let e = KdlIdentifier::parse("\"x").unwrap_err();
    assert_eq!(e.message(), "unterminated string literal");
}

#[test]
fn fallback_can_be_disabled() {
    assert!(KdlIdentifier::parse_with_fallback("foo#bar", true).is_ok());
    let e = KdlIdentifier::parse_with_fallback("foo#bar", false).unwrap_err();
    assert_eq!(e.message(), "invalid bare identifier");

    let id = KdlIdentifier::parse_with_fallback("foo", false).unwrap();
    assert_eq!(id.value(), "foo");
}

#[test]
fn parse_v1_direct() {
    let id = KdlIdentifier::parse_v1("foo").unwrap();
    assert_eq!(id.value(), "foo");
    assert_eq!(id.repr(), Some("foo"));

    // `<` is reserved by the legacy grammar.
    let e = KdlIdentifier::parse_v1("a<b").unwrap_err();
    assert_eq!(e.message(), "failed to parse v1 identifier");
    assert_eq!(e.span(), SourceSpan { offset: 0, len: 3 });

    // ... but legal in the current grammar, so the fallback parse accepts it.
    let id = KdlIdentifier::parse("a<b").unwrap();
    assert_eq!(id.value(), "a<b");
}

#[test]
fn autoformat_rerenders_canonically() {
    let mut id = KdlIdentifier::parse(r#""foo""#).unwrap();
    assert_eq!(id.render(), r#""foo""#);
    id.clear_format();
    // The value is a legal bare token, so it renders bare.
    assert_eq!(id.render(), "foo");

    let mut id = KdlIdentifier::from("foo\"bar");
    id.autoformat();
    let rendered = id.render();
    assert_eq!(rendered, r#""foo\"bar""#);
    // The canonical quoted form re-parses to the same value.
    let back = KdlIdentifier::parse(&rendered).unwrap();
    assert_eq!(back.value(), "foo\"bar");
}

#[test]
fn equality_ignores_span() {
    let mut a = KdlIdentifier::from("foo");
    a.set_repr("foo".to_string());
    a.set_span(SourceSpan { offset: 0, len: 3 });
    let mut b = KdlIdentifier::from("foo");
    b.set_repr("foo".to_string());
    b.set_span(SourceSpan { offset: 40, len: 3 });
    assert_eq!(a, b);
    assert_eq!(a.hash_code(), b.hash_code());
}

#[test]
fn equality_includes_representation() {
    // Same decoded value, different spelling: semantically equal, yet
    // structurally distinct.
    let bare = KdlIdentifier::parse("foo").unwrap();
    let quoted = KdlIdentifier::parse(r#""foo""#).unwrap();
    assert!(bare.semantic_equals(&quoted));
    assert!(bare != quoted);
    assert_ne!(bare.hash_code(), quoted.hash_code());
}

#[test]
fn setters_and_length() {
    let mut id = KdlIdentifier::from("foo");
    assert_eq!(id.len(), 3);
    assert!(!id.is_empty());

    // A custom spelling is rendered verbatim and measured as rendered.
    id.set_repr(r#""foo/bar""#.to_string());
    assert_eq!(id.len(), 9);

    // Setting the value does not touch the spelling.
    id.set_value("qux".to_string());
    assert_eq!(id.value(), "qux");
    assert_eq!(id.render(), r#""foo/bar""#);

    // An empty value is not a legal bare token: it renders quoted.
    let id = KdlIdentifier::from("");
    assert_eq!(id.render(), r#""""#);
    assert_eq!(id.len(), 2);
    assert!(!id.is_empty());

    // Only an empty spelling renders to nothing.
    let mut id = KdlIdentifier::from("");
    id.set_repr(String::new());
    assert_eq!(id.len(), 0);
    assert!(id.is_empty());
}

#[test]
fn conversions() {
    let id = KdlIdentifier::from("name".to_string());
    assert_eq!(id.value(), "name");
    assert_eq!(id.repr(), None);
    assert_eq!(id.span(), SourceSpan { offset: 0, len: 0 });

    let s: String = id.into();
    assert_eq!(s, "name");

    let id = KdlIdentifier::from_string("name".to_string());
    assert_eq!(id.into_value(), "name");
}

#[test]
fn number_like_tokens_are_rejected() {
    assert!(KdlIdentifier::parse("-1").is_err());
    assert!(KdlIdentifier::parse("+42").is_err());
    // A sign alone, or a sign before a letter, is a legal bare token.
    assert_eq!(KdlIdentifier::parse("-").unwrap().value(), "-");
    assert_eq!(KdlIdentifier::parse("-x").unwrap().value(), "-x");
}
