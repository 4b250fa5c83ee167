use ani_companion::store::{
    affection_document, load_affection, load_settings, settings_document, AffectionData,
    AppSettings,
};

fn sample_affection() -> AffectionData {
    AffectionData {
        level: 7,
        total_messages: 123,
        last_interaction: String::from("2024-05-01T10:00:00Z"),
        first_interaction: String::from("2024-01-01T09:00:00Z"),
        days_spoken: 15,
    }
}

#[test]
fn affection_defaults_when_no_document() {
    let d = load_affection(None).unwrap();
    assert_eq!(d.level, 0);
    assert_eq!(d.total_messages, 0);
    assert_eq!(d.last_interaction, "");
    assert_eq!(d.first_interaction, "");
    assert_eq!(d.days_spoken, 0);
}

#[test]
fn affection_round_trip() {
    let d = sample_affection();
    let text = affection_document(&d);
    let back = load_affection(Some(&text)).unwrap();
    assert_eq!(back.level, d.level);
    assert_eq!(back.total_messages, d.total_messages);
    assert_eq!(back.last_interaction, d.last_interaction);
    assert_eq!(back.first_interaction, d.first_interaction);
    assert_eq!(back.days_spoken, d.days_spoken);
}

#[test]
fn affection_round_trip_with_odd_strings() {
    let d = AffectionData {
        level: u32::MAX,
        total_messages: 0,
        last_interaction: String::from("line\nbreak \"quoted\" back\\slash\ttab"),
        first_interaction: String::from("caf\u{e9} \u{1F600} \u{7}"),
        days_spoken: 1,
    };
    let text = affection_document(&d);
    let back = load_affection(Some(&text)).unwrap();
    assert_eq!(back.level, d.level);
    assert_eq!(back.last_interaction, d.last_interaction);
    assert_eq!(back.first_interaction, d.first_interaction);
}

#[test]
fn affection_document_is_valid_json_for_serde() {
    let d = sample_affection();
    let text = affection_document(&d);
    let v: serde_json::Value = serde_json::from_str(&text).unwrap();
    assert_eq!(v.get("level").unwrap().as_u64().unwrap(), 7);
    assert_eq!(v.get("total_messages").unwrap().as_u64().unwrap(), 123);
    assert_eq!(
        v.get("last_interaction").unwrap().as_str().unwrap(),
        "2024-05-01T10:00:00Z"
    );
    assert_eq!(v.get("days_spoken").unwrap().as_u64().unwrap(), 15);
}

#[test]
fn affection_missing_mandatory_field_fails() {
    let text = r#"{"level":1,"total_messages":2,"last_interaction":"x","first_interaction":"y"}"#;
    let err = load_affection(Some(text)).unwrap_err();
    assert!(err.contains("Failed to parse affection data"));
}

#[test]
fn affection_wrong_field_type_fails() {
    let text = r#"{"level":"high","total_messages":2,"last_interaction":"x","first_interaction":"y","days_spoken":3}"#;
    assert!(load_affection(Some(text)).is_err());
}

#[test]
fn affection_malformed_document_fails() {
    assert!(load_affection(Some("{not json")).is_err());
    assert!(load_affection(Some("")).is_err());
}

#[test]
fn affection_level_beyond_u32_fails() {
    let text = r#"{"level":4294967296,"total_messages":2,"last_interaction":"x","first_interaction":"y","days_spoken":3}"#;
    assert!(load_affection(Some(text)).is_err());
}

#[test]
fn settings_defaults_when_no_document() {
    let s = load_settings(None).unwrap();
    assert_eq!(s.ollama_model, "llama3.2");
    assert_eq!(s.voice_id, "af_heart");
    assert!(s.voice_enabled);
    assert!(!s.nsfw_enabled);
    assert_eq!(s.vrm_model_path, None);
    assert_eq!(s.user_name, None);
    assert_eq!(s.memories, None);
    assert_eq!(s.selected_outfit, None);
    assert_eq!(s.selected_hair, None);
    assert_eq!(s.selected_stage, None);
    assert_eq!(s.selected_hair_color, None);
    assert_eq!(s.captions_enabled, Some(true));
    assert!(s.affection_data.is_none());
}

#[test]
fn settings_missing_optional_fields_take_defaults() {
    let text = r#"{"ollama_model":"mistral"}"#;
    let s = load_settings(Some(text)).unwrap();
    assert_eq!(s.ollama_model, "mistral");
    assert_eq!(s.voice_id, "af_heart");
    assert!(s.voice_enabled);
    assert!(!s.nsfw_enabled);
    assert_eq!(s.captions_enabled, Some(true));
    assert_eq!(s.user_name, None);
    assert!(s.affection_data.is_none());
}

#[test]
fn settings_unrecognized_field_does_not_fail() {
    let text = r#"{"someFutureField":123,"another":{"nested":true}}"#;
    let s = load_settings(Some(text)).unwrap();
    assert_eq!(s.ollama_model, "llama3.2");
    assert_eq!(s.captions_enabled, Some(true));
}

#[test]
fn settings_wrong_field_type_fails() {
    let text = r#"{"ollama_model":5}"#;
    assert!(load_settings(Some(text)).is_err());
}

#[test]
fn settings_null_option_differs_from_missing() {
    let text = r#"{"captionsEnabled":null}"#;
    let s = load_settings(Some(text)).unwrap();
    assert_eq!(s.captions_enabled, None);
}

#[test]
fn settings_round_trip_with_embedded_affection() {
    let s = AppSettings {
        ollama_model: String::from("mistral"),
        voice_id: String::from("af_sky"),
        voice_enabled: false,
        vrm_model_path: Some(String::from("/models/ani.vrm")),
        nsfw_enabled: true,
        user_name: Some(String::from("Sam")),
        memories: Some(String::from("likes\ntea")),
        selected_outfit: Some(String::from("casual")),
        selected_hair: None,
        selected_stage: Some(String::from("garden")),
        selected_hair_color: None,
        captions_enabled: Some(false),
        affection_data: Some(AffectionData {
            level: 3,
            total_messages: 9,
            last_interaction: String::from("t1"),
            first_interaction: String::from("t0"),
            days_spoken: 2,
        }),
    };
    let text = settings_document(&s);
    let back = load_settings(Some(&text)).unwrap();
    assert_eq!(back.ollama_model, s.ollama_model);
    assert_eq!(back.voice_id, s.voice_id);
    assert_eq!(back.voice_enabled, s.voice_enabled);
    assert_eq!(back.vrm_model_path, s.vrm_model_path);
    assert_eq!(back.nsfw_enabled, s.nsfw_enabled);
    assert_eq!(back.user_name, s.user_name);
    assert_eq!(back.memories, s.memories);
    assert_eq!(back.selected_outfit, s.selected_outfit);
    assert_eq!(back.selected_hair, s.selected_hair);
    assert_eq!(back.selected_stage, s.selected_stage);
    assert_eq!(back.selected_hair_color, s.selected_hair_color);
    assert_eq!(back.captions_enabled, s.captions_enabled);
    let aff = back.affection_data.unwrap();
    assert_eq!(aff.level, 3);
    assert_eq!(aff.total_messages, 9);
    assert_eq!(aff.days_spoken, 2);
}

#[test]
fn settings_document_is_valid_json_for_serde() {
    let s = AppSettings::default();
    let text = settings_document(&s);
    let v: serde_json::Value = serde_json::from_str(&text).unwrap();
    assert_eq!(v.get("ollama_model").unwrap().as_str().unwrap(), "llama3.2");
    assert_eq!(v.get("voice_id").unwrap().as_str().unwrap(), "af_heart");
    assert!(v.get("voice_enabled").unwrap().as_bool().unwrap());
    assert!(v.get("vrm_model_path").unwrap().is_null());
    assert!(v.get("userName").unwrap().is_null());
    assert_eq!(v.get("captionsEnabled").unwrap().as_bool().unwrap(), true);
    assert!(v.get("affectionData").unwrap().is_null());
}

#[test]
fn settings_bad_embedded_affection_fails() {
    let text = r#"{"affectionData":{"level":1}}"#;
    assert!(load_settings(Some(text)).is_err());
}

#[test]
fn settings_unknown_field_with_negative_number_loads() {
    let s = load_settings(Some(r#"{"x":-1}"#)).unwrap();
    assert_eq!(s.ollama_model, "llama3.2");
    assert_eq!(s.captions_enabled, Some(true));
}

#[test]
fn settings_unknown_fields_with_any_number_shapes_load() {
    let text = r#"{"a":-1.5e-3,"b":18446744073709551616,"c":3.14,"d":0e0,"e":-0}"#;
    let s = load_settings(Some(text)).unwrap();
    assert_eq!(s.voice_id, "af_heart");
}

#[test]
fn settings_string_with_unicode_escapes_loads() {
    let text = "{\"userName\":\"\\u2028 and \\uD83D\\uDE00\"}";
    let s = load_settings(Some(text)).unwrap();
    assert_eq!(s.user_name.unwrap(), "\u{2028} and \u{1F600}");
}

#[test]
fn settings_unknown_field_nested_deeply_loads() {
    let mut text = String::from(r#"{"x":"#);
    for _ in 0..20 {
        text.push_str(r#"{"y":"#);
    }
    text.push('1');
    for _ in 0..20 {
        text.push('}');
    }
    text.push('}');
    let s = load_settings(Some(&text)).unwrap();
    assert_eq!(s.ollama_model, "llama3.2");
}

#[test]
fn settings_nested_past_recursion_limit_fails() {
    let mut text = String::from(r#"{"x":"#);
    for _ in 0..140 {
        text.push('[');
    }
    text.push('1');
    for _ in 0..140 {
        text.push(']');
    }
    text.push('}');
    assert!(load_settings(Some(&text)).is_err());
}

#[test]
fn affection_float_level_fails() {
    let text = r#"{"level":1.5,"total_messages":2,"last_interaction":"x","first_interaction":"y","days_spoken":3}"#;
    assert!(load_affection(Some(text)).is_err());
}
