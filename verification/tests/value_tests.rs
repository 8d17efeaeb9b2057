use json_gettext::{Key, LocaleTable, TextValue};

#[test]
fn json_values_become_text_values() {
    let v = serde_json::from_str::<serde_json::Value>("true").unwrap();
    assert_eq!(TextValue::from_json_value(v), TextValue::Boolean(true));

    let v = serde_json::from_str::<serde_json::Value>("null").unwrap();
    assert_eq!(TextValue::from_json_value(v), TextValue::Null);

    let v = serde_json::from_str::<serde_json::Value>("42").unwrap();
    assert_eq!(TextValue::from_json_value(v), TextValue::Integer(42));

    let v = serde_json::from_str::<serde_json::Value>("-7").unwrap();
    assert_eq!(TextValue::from_json_value(v), TextValue::Integer(-7));

    let v = serde_json::from_str::<serde_json::Value>("\"hi\"").unwrap();
    assert_eq!(TextValue::from_json_value(v), TextValue::Text("hi".to_owned()));

    // a number beyond the signed 64-bit range stays in the codec's own form
    let v = serde_json::from_str::<serde_json::Value>("18446744073709551615").unwrap();
    assert!(matches!(TextValue::from_json_value(v), TextValue::Float(_)));

    let v = serde_json::from_str::<serde_json::Value>("1.5").unwrap();
    match TextValue::from_json_value(v) {
        TextValue::Float(n) => assert_eq!(n.as_f64(), Some(1.5)),
        other => panic!("expected a Float, got {:?}", other),
    }
}

#[test]
fn from_number_picks_the_integer_variant() {
    let n = serde_json::Number::from(7i64);
    assert_eq!(TextValue::from_number(n), TextValue::Integer(7));
    let f = serde_json::Number::from_f64(2.25).unwrap();
    match TextValue::from_number(f) {
        TextValue::Float(n) => assert_eq!(n.as_f64(), Some(2.25)),
        other => panic!("expected a Float, got {:?}", other),
    }
}

#[test]
fn nested_value_round_trip() {
    let source = "{\"a\": [1, 2.5, \"x\", null, true], \"b\": {\"inner\": [-3, {\"deep\": false}]}}";
    let v = serde_json::from_str::<serde_json::Value>(source).unwrap();
    let t = TextValue::from_json_value(v.clone());
    // back to the structured form: the same value
    assert_eq!(t.to_json_value(), v);
    // and through both conversions: the same text value
    assert_eq!(t.reencoded(), t);
}

#[test]
fn scalar_round_trip() {
    for source in ["null", "true", "false", "0", "-9223372036854775808", "3.5", "\"text\""] {
        let v = serde_json::from_str::<serde_json::Value>(source).unwrap();
        let t = TextValue::from_json_value(v.clone());
        assert_eq!(t.to_json_value(), v);
        assert_eq!(t.reencoded(), t);
    }
}

#[test]
fn well_formedness_is_checked() {
    let v = serde_json::from_str::<serde_json::Value>("{\"a\": [1, {\"b\": 2.5}]}").unwrap();
    let t = TextValue::from_json_value(v.clone());
    assert!(t.is_well_formed());
    assert_eq!(t.try_to_json_value(), Some(v));

    // an object that repeats a key is not well formed
    let dup = TextValue::Object(vec![
        ("a".to_owned(), TextValue::Null),
        ("a".to_owned(), TextValue::Boolean(true)),
    ]);
    assert!(!dup.is_well_formed());
    assert_eq!(dup.try_to_json_value(), None);

    // a codec-form number that fits the Integer variant is not well formed
    let stray = TextValue::List(vec![TextValue::Float(serde_json::Number::from(3i64))]);
    assert!(!stray.is_well_formed());
    assert_eq!(stray.try_to_json_value(), None);
}

#[test]
fn table_rejects_duplicate_keys() {
    let mut t = LocaleTable::new();
    assert!(t.insert("a".to_owned(), TextValue::Integer(1)));
    assert!(!t.insert("a".to_owned(), TextValue::Integer(2)));
    assert_eq!(t.len(), 1);
    assert_eq!(t.get(&"a".to_owned()), Some(&TextValue::Integer(1)));
    assert_eq!(t.get(&"b".to_owned()), None);
    assert!(t.contains_key(&"a".to_owned()));
    assert!(!t.contains_key(&"b".to_owned()));
}

#[test]
fn region_labels_parse_and_canonicalize() {
    let k = Key::from_label("us").unwrap();
    assert_eq!(k.as_str(), "US");
    let k = Key::from_label("US").unwrap();
    assert_eq!(k.as_str(), "US");
    let k = Key::from_label("419").unwrap();
    assert_eq!(k.as_str(), "419");
    assert_eq!(Key::from_label("us"), Key::from_label("US"));
}

#[test]
fn keys_label_locales() {
    let us = Key::from_label("us").unwrap();
    let fr = Key::from_label("FR").unwrap();
    let mut b = json_gettext::JSONGetTextBuilder::new(us.as_str());
    b.add_json(us.as_str(), "{\"hello\": \"Hello\"}").unwrap();
    b.add_json(fr.as_str(), "{\"hello\": \"Bonjour\"}").unwrap();
    let store = b.build().unwrap();
    assert_eq!(store.get("FR", "hello"), Some(&TextValue::Text("Bonjour".to_owned())));
    // a label that was not canonicalized misses the locale and falls back
    assert_eq!(store.get("fr", "hello"), Some(&TextValue::Text("Hello".to_owned())));
}

#[test]
fn bad_region_labels_are_rejected() {
    assert!(Key::from_label("u").is_none());
    assert!(Key::from_label("usa").is_none());
    assert!(Key::from_label("12").is_none());
    assert!(Key::from_label("41x").is_none());
    assert!(Key::from_label("").is_none());
    assert!(Key::from_label("u!").is_none());
}
