use namespacedkey::{Identifier, ParseError, DEFAULT_NAMESPACE};

#[test]
fn parse_valid_full() {
    let rl = Identifier::<()>::parse("foo:bar_baz").unwrap();
    assert_eq!(rl.namespace.as_ref(), "foo");
    assert_eq!(rl.value, "bar_baz");
}

#[test]
fn parse_valid_default_ns() {
    let rl = Identifier::<()>::parse(":stone").unwrap();
    assert_eq!(rl.namespace.as_ref(), DEFAULT_NAMESPACE);
    assert_eq!(rl.value, "stone");
}

#[test]
fn parse_missing_separator_defaults() {
    let rl = Identifier::<()>::parse("no_sep").unwrap();
    assert_eq!(rl.namespace.as_ref(), DEFAULT_NAMESPACE);
    assert_eq!(rl.value, "no_sep");
}

#[test]
fn parse_illegal_ns_char_multiple() {
    let input = "b@d/ns:stone";
    let err = Identifier::<()>::parse(input).unwrap_err();
    match err {
        ParseError::IllegalCharsInNamespace(ns, bad) => {
            assert_eq!(ns, "b@d/ns");
            assert_eq!(bad, vec![(1, '@'), (3, '/')]);
        }
        _ => panic!("expected IllegalCharsInNamespace"),
    }
}

#[test]
fn parse_illegal_value_char_multiple() {
    let input = "namespacedkey:ba g!d";
    let err = Identifier::<()>::parse(input).unwrap_err();
    match err {
        ParseError::IllegalCharsInValue(val, bad) => {
            assert_eq!(val, "ba g!d");
            assert_eq!(bad, vec![(2, ' '), (4, '!')]);
        }
        _ => panic!("expected IllegalCharsInValue"),
    }
}

#[test]
fn parse_empty_value() {
    let input = "namespace:";
    let err = Identifier::<()>::parse(input).unwrap_err();
    match err {
        ParseError::EmptyValue => {}
        _ => panic!("expected EmptyValue"),
    }
}

#[test]
fn parse_error_messages() {
    let e = Identifier::<()>::parse("b@d/ns:stone").unwrap_err();
    assert_eq!(
        e.to_message(),
        "illegal character(s) in namespace \"b@d/ns\": `@`@1 `/`@3"
    );
    let e2 = Identifier::<()>::parse("ns:0123456789 x").unwrap_err();
    assert_eq!(
        e2.to_message(),
        "illegal character(s) in value \"0123456789 x\": ` `@10"
    );
    let e3 = Identifier::<()>::parse("ns:").unwrap_err();
    assert_eq!(e3.to_message(), "empty value");
}

#[test]
fn namespace_accessors_agree() {
    let id = Identifier::<()>::new("game", "item/sword").unwrap();
    assert_eq!(id.namespace(), "game");
    assert_eq!(id.namespace_string(), "game".to_string());
    assert_eq!(id.value, "item/sword");
}

#[test]
fn cast_and_erase_keep_the_pair() {
    struct ItemKind;
    let id = Identifier::<()>::parse("game:stone").unwrap();
    let cast: Identifier<ItemKind> = id.cast();
    assert_eq!(cast.namespace(), "game");
    assert_eq!(cast.value, "stone");
    let erased = cast.erase();
    assert_eq!(erased.namespace(), "game");
    assert_eq!(erased.value, "stone");
}

#[test]
fn to_string_canonical_form() {
    let id = Identifier::<()>::new("game", "item/sword").unwrap();
    assert_eq!(id.to_string(), "game:item/sword");
    let defaulted = Identifier::<()>::parse("thing").unwrap();
    assert_eq!(defaulted.to_string(), "unspecified:thing");
}
