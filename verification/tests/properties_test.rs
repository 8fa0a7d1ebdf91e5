use namespacedkey::{
    legal_namespace_chars, legal_value_chars, make_underline_message, Identifier, NamespacedKey,
    ParseError,
};

#[test]
fn round_trip_after_parse() {
    for input in ["game:item/sword", "foo:bar_baz", ":stone", "plain", "a.b-c_9:x/y.z"] {
        let id = Identifier::<()>::parse(input).unwrap();
        let printed = id.to_string();
        let reparsed = Identifier::<()>::parse(&printed).unwrap();
        assert!(id == reparsed, "round trip failed for {input:?}");
        assert_eq!(printed, reparsed.to_string());
    }
}

#[test]
fn default_namespace_with_and_without_delimiter() {
    let bare = Identifier::<()>::parse("x").unwrap();
    let leading = Identifier::<()>::parse(":x").unwrap();
    assert_eq!(bare.namespace(), "unspecified");
    assert_eq!(leading.namespace(), "unspecified");
    assert_eq!(bare.value, "x");
    assert_eq!(leading.value, "x");
    assert!(bare == leading);
}

#[test]
fn only_first_delimiter_splits() {
    // The split keeps everything after the first delimiter as the value
    // candidate: the error reports "b:c" whole, with the later delimiter
    // rejected by the value allowlist rather than splitting again.
    let err = Identifier::<()>::parse("a:b:c").unwrap_err();
    match err {
        ParseError::IllegalCharsInValue(val, bad) => {
            assert_eq!(val, "b:c");
            assert_eq!(bad, vec![(1, ':')]);
        }
        _ => panic!("expected IllegalCharsInValue"),
    }
    // With a separator that is also a legal path character, the same split
    // succeeds and keeps the later separators in the path.
    let key = NamespacedKey::from_str_with_separator("a/b/c", '/').unwrap();
    assert_eq!(key.namespace(), "a");
    assert_eq!(key.path(), "b/c");
}

#[test]
fn value_allows_path_separator_namespace_does_not() {
    assert!(Identifier::<()>::new("ns", "a/b").is_ok());
    let err = Identifier::<()>::new("a/b", "value").unwrap_err();
    match err {
        ParseError::IllegalCharsInNamespace(ns, bad) => {
            assert_eq!(ns, "a/b");
            assert_eq!(bad, vec![(1, '/')]);
        }
        _ => panic!("expected IllegalCharsInNamespace"),
    }
}

#[test]
fn interning_shares_namespace_storage() {
    let a = Identifier::<()>::new("game", "one").unwrap();
    let b = Identifier::<()>::new("game", "two").unwrap();
    assert!(std::ptr::eq(a.namespace.as_ref(), b.namespace.as_ref()));
    let c = a.clone();
    assert!(std::ptr::eq(a.namespace.as_ref(), c.namespace.as_ref()));
}

#[test]
fn ordering_namespace_first_then_value() {
    let az = Identifier::<()>::parse("a:z").unwrap();
    let ba = Identifier::<()>::parse("b:a").unwrap();
    let aa = Identifier::<()>::parse("a:a").unwrap();
    let ab = Identifier::<()>::parse("a:b").unwrap();
    assert!(az < ba);
    assert!(aa < ab);
    assert!(ba > az);
    let aa2 = Identifier::<()>::parse("a:a").unwrap();
    assert!(aa == aa2);
    assert!(!(aa < aa2) && !(aa > aa2));
}

#[test]
fn underline_is_deterministic() {
    let first = make_underline_message("label:", "b@d", vec![1], '^');
    let second = make_underline_message("label:", "b@d", vec![1], '^');
    assert_eq!(first, second);
}

#[test]
fn underline_accounts_for_wide_characters() {
    let narrow = make_underline_message("err:", "x!", vec![1], '^');
    assert_eq!(narrow, "err: x!\n      ^");
    // The wide character occupies two columns, so the marker for the
    // character after it shifts by one extra column.
    let wide = make_underline_message("err:", "世!", vec![3], '^');
    assert_eq!(wide, "err: 世!\n       ^");
}

#[test]
fn underline_ignores_unmatched_offsets() {
    // Offset 1 is inside the multi-byte character, offset 9 is past the end:
    // neither matches a character start, so nothing is marked.
    let out = make_underline_message("e:", "世a", vec![1, 9], '^');
    assert_eq!(out, "e: 世a\n      ");
}

#[test]
fn namespaced_key_defaults_empty_namespace() {
    let key = NamespacedKey::new("", "stone").unwrap();
    assert_eq!(key.namespace(), "unspecified");
    assert_eq!(key.path(), "stone");
}

#[test]
fn namespaced_key_rejects_empty_path() {
    let err = NamespacedKey::new("namespace", "").unwrap_err();
    assert_eq!(
        err.to_string(),
        "Invalid namespaced key (namespace = 'namespace', path = '')"
    );
}

#[test]
fn from_str_with_custom_separator() {
    let key = NamespacedKey::from_str_with_separator("foo>bar", '>').unwrap();
    assert_eq!(key.namespace(), "foo");
    assert_eq!(key.path(), "bar");
    let defaulted = NamespacedKey::from_str_with_separator("plain", '>').unwrap();
    assert_eq!(defaulted.namespace(), "unspecified");
    assert_eq!(defaulted.path(), "plain");
}

#[test]
fn legal_character_sets_differ_by_path_separator() {
    let ns = legal_namespace_chars();
    let value = legal_value_chars();
    assert_eq!(ns.len(), 39);
    assert_eq!(value.len(), 40);
    assert!(!ns.contains(&'/'));
    assert!(value.contains(&'/'));
    for c in ns.iter() {
        assert!(value.contains(c));
    }
}
