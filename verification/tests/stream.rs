use flashback::settings::bearer;
use flashback::stream::{
    chat_request, delta_json, failed_call, Completion, LlmSettings, PromptMessage,
};

fn data(json: &str) -> String {
    format!("data: {json}\n\n")
}

#[test]
fn requests_carry_the_prompt() {
    let cfg = LlmSettings {
        base_url: "http://127.0.0.1:1/v1/".to_string(),
        model: "m".to_string(),
        api_key: Some("k".to_string()),
    };
    let prompt = vec![
        PromptMessage {
            role: "system".to_string(),
            content: "a\"\n\u{1}".to_string(),
        },
        PromptMessage {
            role: "user".to_string(),
            content: "é".to_string(),
        },
    ];
    let q = chat_request(&cfg, &prompt).unwrap();
    assert_eq!(q.url, "http://127.0.0.1:1/v1/chat/completions");
    assert_eq!(q.bearer.as_deref(), Some("k"));
    let v: serde_json::Value = serde_json::from_str(&q.body).unwrap();
    assert_eq!(v["messages"][0]["content"], "a\"\n\u{1}");
    assert_eq!(v["messages"][1]["role"], "user");
    assert_eq!(v["stream"], true);
    assert_eq!(v["stream_options"]["include_usage"], true);
    assert!(q.body.contains(r#""content":"a\"\n\u0001""#));
    let bad = LlmSettings {
        base_url: "http://169.254.169.254/".to_string(),
        ..cfg
    };
    assert!(chat_request(&bad, &prompt).is_err());
    assert!(bearer(Some(" ")).is_none());
}

#[test]
fn frames_add_up_wherever_they_are_cut() {
    let whole = [
        data(r#"{"choices":[{"delta":{"content":"Hel"}}]}"#),
        ": comment\n\n".to_string(),
        data(r#"{"choices":[{"delta":{"content":""}}]}"#),
        data(r#"{"choices":[{"delta":{"content":"lo"}}],"usage":null}"#),
        data(r#"{"choices":[],"usage":{"prompt_tokens":7,"completion_tokens":-2}}"#),
        data("not json"),
        data(" [DONE] "),
    ]
    .concat();
    for cut in 0..whole.len() {
        let mut c = Completion::new();
        let mut parts = c.feed(&whole.as_bytes()[..cut]);
        parts.extend(c.feed(&whole.as_bytes()[cut..]));
        assert_eq!(parts, vec!["Hel", "lo"]);
        let (text, stats) = c.finish(12).unwrap();
        assert_eq!(text, "Hello");
        assert_eq!(stats.prompt_tokens, Some(7));
        assert_eq!(stats.completion_tokens, None);
        assert_eq!(stats.latency_ms, 12);
    }
}

#[test]
fn bytes_that_are_no_text_are_replaced() {
    let mut c = Completion::new();
    let mut bytes = b"data: {\"choices\":[{\"delta\":{\"content\":\"a".to_vec();
    bytes.push(0xff);
    bytes.extend_from_slice(b"\"}}]}\n\n");
    assert_eq!(c.feed(&bytes), vec!["a\u{fffd}"]);
}

#[test]
fn silence_is_a_failure() {
    assert_eq!(
        Completion::new().finish(1).unwrap_err(),
        "stream ended with no content"
    );
    assert_eq!(delta_json("a\"b"), r#"{"t":"a\"b"}"#);
    assert_eq!(
        failed_call("500 Internal Server Error", &"x".repeat(500)),
        format!("500 Internal Server Error: {}", "x".repeat(400))
    );
}

#[test]
fn a_report_replaces_the_counts_and_a_piece_adds_to_the_text() {
    let mut c = Completion::new();
    let mut deltas: Vec<String> = Vec::new();
    c.take_data(Some("a".to_string()), Some((Some(3), None)), &mut deltas);
    c.take_data(Some("b".to_string()), None, &mut deltas);
    assert_eq!(c.text, "ab");
    assert_eq!(c.prompt_tokens, Some(3));
    c.take_data(None, Some((None, Some(5))), &mut deltas);
    assert_eq!(c.prompt_tokens, None);
    assert_eq!(c.completion_tokens, Some(5));
    assert_eq!(deltas, vec!["a".to_string(), "b".to_string()]);
}
