use json_gettext::{JSONGetTextBuildError, JSONGetTextBuilder, LocaleTable, TextValue};

fn text(s: &str) -> TextValue {
    TextValue::Text(s.to_owned())
}

#[test]
fn default_and_translation_build() {
    let mut b = JSONGetTextBuilder::new("en");
    b.add_json("en", "{\"hello\": \"Hello\"}").unwrap();
    b.add_json("fr", "{\"hello\": \"Bonjour\"}").unwrap();
    let store = b.build().unwrap();
    assert_eq!(store.get("en", "hello"), Some(&text("Hello")));
    assert_eq!(store.get("fr", "hello"), Some(&text("Bonjour")));
}

#[test]
fn extra_key_in_translation_rejected() {
    let mut b = JSONGetTextBuilder::new("en");
    b.add_json("en", "{\"hello\": \"Hello\"}").unwrap();
    b.add_json("fr", "{\"hello\": \"Bonjour\", \"bye\": \"Au revoir\"}").unwrap();
    match b.build() {
        Err(JSONGetTextBuildError::TextInKeyNotInDefaultKey { key, text }) => {
            assert_eq!(key, "fr");
            assert_eq!(text, "bye");
        },
        other => panic!("expected the missing-key error, got {:?}", other),
    }
}

#[test]
fn error_messages() {
    assert_eq!(
        JSONGetTextBuildError::DefaultKeyNotFound.message(),
        "The default key is not found."
    );
    assert_eq!(
        JSONGetTextBuildError::TextInKeyNotInDefaultKey {
            key: "fr".to_owned(),
            text: "bye".to_owned(),
        }
        .message(),
        "The text `bye` in the key `fr` is not found in the default key."
    );
    assert_eq!(JSONGetTextBuildError::DuplicatedKey("en".to_owned()).message(), "en");
    let io = std::io::Error::new(std::io::ErrorKind::NotFound, "no such table file");
    assert_eq!(JSONGetTextBuildError::IOError(io).message(), "no such table file");
}

#[test]
fn missing_default_rejected() {
    let b = JSONGetTextBuilder::new("en");
    match b.build() {
        Err(JSONGetTextBuildError::DefaultKeyNotFound) => {},
        other => panic!("expected the missing-default error, got {:?}", other),
    }
}

#[test]
fn missing_default_rejected_with_other_locales() {
    let mut b = JSONGetTextBuilder::new("en");
    b.add_json("fr", "{\"hello\": \"Bonjour\"}").unwrap();
    b.add_json("de", "{\"hello\": \"Hallo\"}").unwrap();
    match b.build() {
        Err(JSONGetTextBuildError::DefaultKeyNotFound) => {},
        other => panic!("expected the missing-default error, got {:?}", other),
    }
}

#[test]
fn duplicate_locale_keeps_first_table() {
    let mut b = JSONGetTextBuilder::new("en");
    b.add_json("en", "{\"hello\": \"Hello\"}").unwrap();
    match b.add_json("en", "{\"hello\": \"Hi\", \"bye\": \"Bye\"}") {
        Err(JSONGetTextBuildError::DuplicatedKey(k)) => assert_eq!(k, "en"),
        other => panic!("expected the duplicate-locale error, got {:?}", other),
    }
    let store = b.build().unwrap();
    assert_eq!(store.get("en", "hello"), Some(&text("Hello")));
    assert_eq!(store.get("en", "bye"), None);
}

#[test]
fn duplicate_locale_from_every_source() {
    let mut b = JSONGetTextBuilder::new("en");
    b.add_json("en", "{\"hello\": \"Hello\"}").unwrap();
    assert!(matches!(
        b.add_json_owned("en", "{}".to_owned()),
        Err(JSONGetTextBuildError::DuplicatedKey(_))
    ));
    assert!(matches!(
        b.add_map("en", LocaleTable::new()),
        Err(JSONGetTextBuildError::DuplicatedKey(_))
    ));
    let mut m = std::collections::BTreeMap::new();
    m.insert("hello".to_owned(), "Hi".to_owned());
    assert!(matches!(
        b.add_serialize("en", m),
        Err(JSONGetTextBuildError::DuplicatedKey(_))
    ));
}

#[test]
fn every_source_yields_the_same_table() {
    let json = "{\"a\": \"x\", \"b\": \"y\"}";

    let mut b1 = JSONGetTextBuilder::new("en");
    b1.add_json("en", json).unwrap();
    let s1 = b1.build().unwrap();

    let mut b2 = JSONGetTextBuilder::new("en");
    b2.add_json_owned("en", json.to_owned()).unwrap();
    let s2 = b2.build().unwrap();

    let mut m = std::collections::BTreeMap::new();
    m.insert("a".to_owned(), "x".to_owned());
    m.insert("b".to_owned(), "y".to_owned());
    let mut b3 = JSONGetTextBuilder::new("en");
    b3.add_serialize("en", m).unwrap();
    let s3 = b3.build().unwrap();

    let mut table = LocaleTable::new();
    assert!(table.insert("a".to_owned(), text("x")));
    assert!(table.insert("b".to_owned(), text("y")));
    let mut b4 = JSONGetTextBuilder::new("en");
    b4.add_map("en", table).unwrap();
    let s4 = b4.build().unwrap();

    let value = serde_json::from_str::<serde_json::Value>(json).unwrap();
    let mut b5 = JSONGetTextBuilder::new("en");
    b5.add_value("en", value).unwrap();
    let s5 = b5.build().unwrap();

    for store in [&s1, &s2, &s3, &s4, &s5] {
        assert_eq!(store.get("en", "a"), Some(&text("x")));
        assert_eq!(store.get("en", "b"), Some(&text("y")));
        assert_eq!(store.get("en", "c"), None);
    }
}

#[test]
fn malformed_text_is_a_codec_error() {
    let mut b = JSONGetTextBuilder::new("en");
    assert!(matches!(
        b.add_json("en", "not json at all"),
        Err(JSONGetTextBuildError::SerdeJSONError(_))
    ));
    assert!(matches!(
        b.add_json_owned("en", "[1, 2, 3]".to_owned()),
        Err(JSONGetTextBuildError::SerdeJSONError(_))
    ));
    // the failed adds do not poison the builder
    b.add_json("en", "{\"hello\": \"Hello\"}").unwrap();
    let store = b.build().unwrap();
    assert_eq!(store.get("en", "hello"), Some(&text("Hello")));
}

#[test]
fn non_object_serialization_is_a_codec_error() {
    let mut b = JSONGetTextBuilder::new("en");
    assert!(matches!(
        b.add_serialize("en", 17u32),
        Err(JSONGetTextBuildError::SerdeJSONError(_))
    ));
    assert!(matches!(
        b.add_value("en", serde_json::Value::Bool(true)),
        Err(JSONGetTextBuildError::SerdeJSONError(_))
    ));
}

#[test]
fn fallback_lookup_consults_default() {
    let mut b = JSONGetTextBuilder::new("en");
    b.add_json("en", "{\"hello\": \"Hello\", \"only_en\": \"Only\"}").unwrap();
    b.add_json("fr", "{\"hello\": \"Bonjour\"}").unwrap();
    let store = b.build().unwrap();
    assert_eq!(store.get_default_key(), "en");
    // the locale lacks the key: the default table answers
    assert_eq!(store.get("fr", "only_en"), Some(&text("Only")));
    // the locale itself is absent: the default table answers
    assert_eq!(store.get("de", "hello"), Some(&text("Hello")));
    // nobody has the key
    assert_eq!(store.get("en", "missing"), None);
}

#[test]
fn empty_default_table_builds() {
    let mut b = JSONGetTextBuilder::new("en");
    b.add_map("en", LocaleTable::new()).unwrap();
    let store = b.build().unwrap();
    assert_eq!(store.get("en", "anything"), None);
}

#[test]
fn empty_translation_table_builds() {
    let mut b = JSONGetTextBuilder::new("en");
    b.add_json("en", "{\"hello\": \"Hello\"}").unwrap();
    b.add_json("fr", "{}").unwrap();
    let store = b.build().unwrap();
    assert_eq!(store.get("fr", "hello"), Some(&text("Hello")));
}
