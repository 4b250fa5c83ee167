use ani_companion::chat::{
    build_chat_request, chat_request_body, chat_result, check_status, models_result,
    ChatMessage, HttpOutcome,
};

fn user_message(content: &str) -> ChatMessage {
    ChatMessage {
        role: String::from("user"),
        content: String::from(content),
    }
}

#[test]
fn system_prompt_is_prepended() {
    let r = build_chat_request(
        String::from("llama3.2"),
        vec![user_message("hi")],
        Some(String::from("be kind")),
    );
    assert_eq!(r.model, "llama3.2");
    assert!(!r.stream);
    assert_eq!(r.messages.len(), 2);
    assert_eq!(r.messages[0].role, "system");
    assert_eq!(r.messages[0].content, "be kind");
    assert_eq!(r.messages[1].role, "user");
    assert_eq!(r.messages[1].content, "hi");
}

#[test]
fn no_system_prompt_keeps_messages_unchanged() {
    let r = build_chat_request(
        String::from("llama3.2"),
        vec![user_message("one"), user_message("two")],
        None,
    );
    assert!(!r.stream);
    assert_eq!(r.messages.len(), 2);
    assert_eq!(r.messages[0].content, "one");
    assert_eq!(r.messages[1].content, "two");
}

#[test]
fn request_body_has_expected_shape() {
    let r = build_chat_request(
        String::from("llama3.2"),
        vec![user_message("hi")],
        Some(String::from("be kind")),
    );
    let body = chat_request_body(&r);
    let v: serde_json::Value = serde_json::from_str(&body).unwrap();
    assert_eq!(v.get("model").unwrap().as_str().unwrap(), "llama3.2");
    assert_eq!(v.get("stream").unwrap().as_bool().unwrap(), false);
    let msgs = v.get("messages").unwrap().as_array().unwrap();
    assert_eq!(msgs.len(), 2);
    assert_eq!(msgs[0].get("role").unwrap().as_str().unwrap(), "system");
    assert_eq!(msgs[0].get("content").unwrap().as_str().unwrap(), "be kind");
    assert_eq!(msgs[1].get("role").unwrap().as_str().unwrap(), "user");
    assert_eq!(msgs[1].get("content").unwrap().as_str().unwrap(), "hi");
}

#[test]
fn chat_success_returns_message_content() {
    let body = r#"{"model":"llama3.2","message":{"role":"assistant","content":"hello there"},"done":true}"#;
    let outcome = HttpOutcome::Response {
        status: 200,
        body: String::from(body),
    };
    assert_eq!(chat_result(&outcome).unwrap(), "hello there");
}

#[test]
fn chat_connect_failure_is_reported() {
    let outcome = HttpOutcome::NoConnection(String::from("connection refused"));
    let err = chat_result(&outcome).unwrap_err();
    assert!(err.contains("Failed to connect to Ollama"));
    assert!(err.contains("connection refused"));
}

#[test]
fn chat_bad_status_mentions_the_code() {
    let outcome = HttpOutcome::Response {
        status: 500,
        body: String::new(),
    };
    let err = chat_result(&outcome).unwrap_err();
    assert!(err.contains("Ollama error"));
    assert!(err.contains("500"));
}

#[test]
fn chat_unreadable_reply_is_a_parse_error() {
    let outcome = HttpOutcome::Response {
        status: 200,
        body: String::from("not json at all"),
    };
    let err = chat_result(&outcome).unwrap_err();
    assert!(err.contains("Failed to parse Ollama response"));
}

#[test]
fn chat_reply_missing_field_is_a_parse_error() {
    let body = r#"{"model":"llama3.2","done":true}"#;
    let outcome = HttpOutcome::Response {
        status: 200,
        body: String::from(body),
    };
    let err = chat_result(&outcome).unwrap_err();
    assert!(err.contains("Failed to parse Ollama response"));
}

#[test]
fn models_are_listed_in_server_order() {
    let body = r#"{"models":[
        {"name":"llama3.2","modified_at":"2024-05-01","size":2000000},
        {"name":"mistral","modified_at":"2024-04-01","size":4000000}
    ]}"#;
    let outcome = HttpOutcome::Response {
        status: 200,
        body: String::from(body),
    };
    let names = models_result(&outcome).unwrap();
    assert_eq!(names, vec!["llama3.2", "mistral"]);
}

#[test]
fn empty_model_list_is_fine() {
    let outcome = HttpOutcome::Response {
        status: 200,
        body: String::from(r#"{"models":[]}"#),
    };
    let names = models_result(&outcome).unwrap();
    assert!(names.is_empty());
}

#[test]
fn models_entry_missing_field_is_a_parse_error() {
    let body = r#"{"models":[{"name":"llama3.2"}]}"#;
    let outcome = HttpOutcome::Response {
        status: 200,
        body: String::from(body),
    };
    let err = models_result(&outcome).unwrap_err();
    assert!(err.contains("Failed to parse models response"));
}

#[test]
fn models_connect_failure_is_reported() {
    let outcome = HttpOutcome::NoConnection(String::from("no route to host"));
    let err = models_result(&outcome).unwrap_err();
    assert!(err.contains("Failed to connect to Ollama"));
}

#[test]
fn status_is_connected_on_success() {
    let outcome = HttpOutcome::Response {
        status: 200,
        body: String::from(r#"{"models":[]}"#),
    };
    let st = check_status(&outcome);
    assert!(st.connected);
    assert!(st.error.is_none());
}

#[test]
fn status_reports_bad_status_without_failing() {
    let outcome = HttpOutcome::Response {
        status: 500,
        body: String::new(),
    };
    let st = check_status(&outcome);
    assert!(!st.connected);
    let msg = st.error.unwrap();
    assert!(msg.contains("Ollama returned status"));
    assert!(msg.contains("500"));
}

#[test]
fn status_reports_connection_trouble_without_failing() {
    let outcome = HttpOutcome::NoConnection(String::from("timed out"));
    let st = check_status(&outcome);
    assert!(!st.connected);
    let msg = st.error.unwrap();
    assert!(msg.contains("Cannot connect to Ollama"));
    assert!(msg.contains("timed out"));
}

#[test]
fn status_error_present_exactly_when_disconnected() {
    let outcomes = vec![
        HttpOutcome::NoConnection(String::from("x")),
        HttpOutcome::Response { status: 200, body: String::new() },
        HttpOutcome::Response { status: 204, body: String::new() },
        HttpOutcome::Response { status: 301, body: String::new() },
        HttpOutcome::Response { status: 404, body: String::new() },
        HttpOutcome::Response { status: 500, body: String::new() },
    ];
    for outcome in &outcomes {
        let st = check_status(outcome);
        assert_eq!(st.connected, st.error.is_none());
    }
}

#[test]
fn chat_reply_with_extra_float_field_still_succeeds() {
    let body = r#"{"model":"llama3.2","message":{"role":"assistant","content":"ok"},"done":true,"total_duration":1.53e9,"load_duration":-1}"#;
    let outcome = HttpOutcome::Response {
        status: 200,
        body: String::from(body),
    };
    assert_eq!(chat_result(&outcome).unwrap(), "ok");
}

#[test]
fn chat_reply_with_escaped_line_separators_succeeds() {
    let body = "{\"model\":\"m\",\"message\":{\"role\":\"assistant\",\"content\":\"a\\u2028b\\u2029c\"},\"done\":true}";
    let outcome = HttpOutcome::Response {
        status: 200,
        body: String::from(body),
    };
    assert_eq!(chat_result(&outcome).unwrap(), "a\u{2028}b\u{2029}c");
}
