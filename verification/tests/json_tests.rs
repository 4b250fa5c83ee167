use ani_companion::json::{parse_json, JsonValue};

#[test]
fn numbers_parse_by_shape() {
    assert!(matches!(parse_json("0"), Some(JsonValue::Num(0))));
    assert!(matches!(parse_json("42"), Some(JsonValue::Num(42))));
    assert!(matches!(
        parse_json("18446744073709551615"),
        Some(JsonValue::Num(u64::MAX))
    ));
    match parse_json("-1") {
        Some(JsonValue::NumRaw(t)) => assert_eq!(t, "-1"),
        other => panic!("unexpected: {:?}", other),
    }
    match parse_json("18446744073709551616") {
        Some(JsonValue::NumRaw(t)) => assert_eq!(t, "18446744073709551616"),
        other => panic!("unexpected: {:?}", other),
    }
    match parse_json("-12.5e+3") {
        Some(JsonValue::NumRaw(t)) => assert_eq!(t, "-12.5e+3"),
        other => panic!("unexpected: {:?}", other),
    }
    match parse_json("0.5") {
        Some(JsonValue::NumRaw(t)) => assert_eq!(t, "0.5"),
        other => panic!("unexpected: {:?}", other),
    }
}

#[test]
fn malformed_numbers_are_rejected() {
    assert!(parse_json("01").is_none());
    assert!(parse_json("-").is_none());
    assert!(parse_json("--1").is_none());
    assert!(parse_json("1.").is_none());
    assert!(parse_json("1e").is_none());
    assert!(parse_json("1e+").is_none());
    assert!(parse_json(".5").is_none());
}

#[test]
fn surrogate_escapes_pair_or_fail() {
    match parse_json("\"\\uD83D\\uDE00\"") {
        Some(JsonValue::Str(t)) => assert_eq!(t, "\u{1F600}"),
        other => panic!("unexpected: {:?}", other),
    }
    assert!(parse_json("\"\\uD83D\"").is_none());
    assert!(parse_json("\"\\uDE00\\uD83D\"").is_none());
    match parse_json("\"\\u00e9\\u2028\"") {
        Some(JsonValue::Str(t)) => assert_eq!(t, "\u{e9}\u{2028}"),
        other => panic!("unexpected: {:?}", other),
    }
}

#[test]
fn raw_number_fields_agree_with_serde() {
    let text = r#"{"a":-1.5e-3,"b":42}"#;
    let ours = parse_json(text).unwrap();
    let theirs: serde_json::Value = serde_json::from_str(text).unwrap();
    match ours {
        JsonValue::Obj(fields) => {
            assert_eq!(fields.len(), 2);
            assert_eq!(fields[0].0, "a");
            match &fields[0].1 {
                JsonValue::NumRaw(t) => {
                    let reparsed: f64 = t.parse().unwrap();
                    assert_eq!(reparsed, theirs.get("a").unwrap().as_f64().unwrap());
                }
                other => panic!("unexpected: {:?}", other),
            }
            assert!(matches!(fields[1].1, JsonValue::Num(42)));
        }
        other => panic!("unexpected: {:?}", other),
    }
}
