use cli_assistant::config::AppConfig;
use cli_assistant::errors::ClaError;
use cli_assistant::json::{JsonNumber, JsonValue};
use cli_assistant::query::{
    backoff_ms, build_payload, compaction_input, compaction_point, estimate_tokens,
    extract_response_text, is_retryable_status, message_for_status, post_next, post_start,
    summary_payload, PostOutcome, PostState, PostStep,
};

fn s(text: &str) -> JsonValue {
    JsonValue::Str(text.to_string())
}

fn obj(fields: Vec<(&str, JsonValue)>) -> JsonValue {
    JsonValue::Object(fields.into_iter().map(|(k, v)| (k.to_string(), v)).collect())
}

fn field<'a>(v: &'a JsonValue, key: &str) -> &'a JsonValue {
    match v {
        JsonValue::Object(fields) => &fields.iter().find(|(k, _)| k == key).expect("field").1,
        _ => panic!("not an object"),
    }
}

fn items(v: &JsonValue) -> &Vec<JsonValue> {
    match v {
        JsonValue::Array(items) => items,
        _ => panic!("not an array"),
    }
}

fn text(v: &JsonValue) -> &str {
    match v {
        JsonValue::Str(s) => s.as_str(),
        _ => panic!("not a string"),
    }
}

fn message(payload: &JsonValue, i: usize) -> (&str, &str) {
    let m = &items(field(payload, "messages"))[i];
    (text(field(m, "role")), text(field(m, "content")))
}

#[test]
fn message_for_status_returns_known_messages() {
    assert_eq!(
        message_for_status(401),
        "Authentication failed: invalid API key"
    );
    assert_eq!(
        message_for_status(429),
        "Rate limited: too many requests, please try again later"
    );
    assert_eq!(message_for_status(418), "HTTP error 418");
}

#[test]
fn payload_includes_backend_configuration() {
    let mut config = AppConfig::default();
    config.backend.model = "test-model".to_string();
    config.backend.prompt = "test prompt".to_string();
    config.backend.language = "zh-CN".to_string();
    config.backend.max_tokens = 1234;
    config.backend.temperature = 0.25f32.to_bits();

    let payload = build_payload(&config, "hello", None, &[]);

    assert_eq!(text(field(&payload, "model")), "test-model");
    assert_eq!(message(&payload, 0).1, "test prompt\n\nAlways reply in zh-CN.");
    assert_eq!(message(&payload, 1).1, "hello");
    match field(&payload, "max_tokens") {
        JsonValue::Number(JsonNumber::UInt(n)) => assert_eq!(*n, 1234),
        _ => panic!("max_tokens is a number"),
    }
    match field(&payload, "temperature") {
        JsonValue::Number(JsonNumber::F32Bits(b)) => assert_eq!(f32::from_bits(*b), 0.25),
        _ => panic!("temperature is a number"),
    }
}

#[test]
fn estimate_tokens_counts_ascii_and_cjk() {
    assert_eq!(estimate_tokens(""), 0);
    assert_eq!(estimate_tokens("abcd"), 1); // 4 ASCII chars ≈ 1 token
    assert_eq!(estimate_tokens("你好"), 2); // one per non-ASCII char
    assert_eq!(estimate_tokens("ab你好"), 2); // 2/4 + 2
}

#[test]
fn payload_injects_summary_and_turns() {
    let mut config = AppConfig::default();
    config.backend.prompt = "test prompt".to_string();

    let turns = vec![
        ("q1".to_string(), "r1".to_string()),
        ("q2".to_string(), "r2".to_string()),
    ];
    let payload = build_payload(&config, "q3", Some("earlier summary"), &turns);

    let (role, system) = message(&payload, 0);
    assert_eq!(role, "system");
    assert!(system.starts_with("test prompt"));
    assert!(system.contains("[Summary of earlier conversation]"));
    assert!(system.contains("earlier summary"));

    assert_eq!(message(&payload, 1), ("user", "q1"));
    assert_eq!(message(&payload, 2), ("assistant", "r1"));
    assert_eq!(message(&payload, 3).1, "q2");
    assert_eq!(message(&payload, 4).1, "r2");
    assert_eq!(message(&payload, 5), ("user", "q3"));
    assert_eq!(items(field(&payload, "messages")).len(), 6);
}

#[test]
fn payload_without_context_stays_single_turn() {
    let config = AppConfig::default();
    let payload = build_payload(&config, "hello", None, &[]);
    assert_eq!(items(field(&payload, "messages")).len(), 2);
    assert_eq!(message(&payload, 1).1, "hello");
}

#[test]
fn blank_summary_is_left_out() {
    let mut config = AppConfig::default();
    config.backend.prompt = "p".to_string();
    let payload = build_payload(&config, "q", Some("  \n"), &[]);
    assert_eq!(message(&payload, 0).1, "p");
}

#[test]
fn summary_request_uses_the_compaction_cap() {
    let config = AppConfig::default();
    let payload = summary_payload(&config, "material");
    assert_eq!(message(&payload, 1), ("user", "material"));
    match field(&payload, "max_tokens") {
        JsonValue::Number(JsonNumber::UInt(n)) => assert_eq!(*n, 2048),
        _ => panic!("max_tokens is a number"),
    }
}

#[test]
fn compaction_point_triggers_only_when_over_budget() {
    let mut config = AppConfig::default();
    config.backend.context_length = 10_000;
    config.backend.max_tokens = 1_000;

    // Few turns: never compact, even when one turn is huge.
    let few = vec![("x".repeat(50_000), "y".to_string())];
    assert_eq!(compaction_point(&config, "hi", None, &few), None);

    // Many small turns fit the budget.
    let small: Vec<(String, String)> = (0..10)
        .map(|_| ("short".to_string(), "answer".to_string()))
        .collect();
    assert_eq!(compaction_point(&config, "hi", None, &small), None);

    // Many large turns overflow: fold everything but the last 6.
    let large: Vec<(String, String)> = (0..10)
        .map(|_| ("x".repeat(2_000), "y".repeat(2_000)))
        .collect();
    assert_eq!(compaction_point(&config, "hi", None, &large), Some(4));
}

#[test]
fn compaction_input_merges_summary_and_turns() {
    let turns = vec![("q1".to_string(), "r1".to_string())];

    let text = compaction_input(Some("old summary"), &turns);
    assert!(text.contains("Summary of the conversation so far:"));
    assert!(text.contains("old summary"));
    assert!(text.contains("User: q1"));
    assert!(text.contains("Assistant: r1"));

    let text = compaction_input(None, &turns);
    assert!(!text.contains("Summary of the conversation so far:"));
}

#[test]
fn retry_helpers_use_exponential_backoff_and_server_errors() {
    assert_eq!(backoff_ms(1), 200);
    assert_eq!(backoff_ms(2), 400);
    assert_eq!(backoff_ms(3), 800);
    assert!(is_retryable_status(500));
    assert!(is_retryable_status(503));
    assert!(!is_retryable_status(400));
}

#[test]
fn extract_response_text_supports_openai_and_legacy_formats() {
    let openai = obj(vec![(
        "choices",
        JsonValue::Array(vec![obj(vec![("message", obj(vec![("content", s("answer"))]))])]),
    )]);
    assert_eq!(extract_response_text(&openai), Some("answer".to_string()));

    let legacy = obj(vec![("data", obj(vec![("text", s("legacy answer"))]))]);
    assert_eq!(
        extract_response_text(&legacy),
        Some("legacy answer".to_string())
    );

    assert_eq!(
        extract_response_text(&obj(vec![("unexpected", JsonValue::Bool(true))])),
        None
    );
}

fn is_send(step: &PostStep, attempt: u32, delay: u64) -> bool {
    matches!(step, PostStep::Send { attempt: a, delay_ms: d } if *a == attempt && *d == delay)
}

fn chat_message(step: &PostStep) -> String {
    match step {
        PostStep::Failed(e @ ClaError::ChatCommand { .. }) => e.to_string(),
        _ => panic!("expected a chat error"),
    }
}

#[test]
fn post_loop_requires_an_api_key() {
    let (_, step) = post_start("");
    assert!(chat_message(&step).contains("no API key configured"));
    let (state, step) = post_start("k");
    assert_eq!(state.attempt, 0);
    assert!(is_send(&step, 0, 0));
}

#[test]
fn post_loop_does_not_retry_client_errors() {
    let mut state = PostState { attempt: 0, last_err: None };
    let body = obj(vec![("error", obj(vec![("message", s("bad key"))]))]);
    let step = post_next(&mut state, PostOutcome::Status { code: 401, body: Some(body) });
    assert_eq!(
        chat_message(&step),
        "chat command error: Authentication failed: invalid API key: bad key"
    );
}

#[test]
fn post_loop_retries_server_errors_then_succeeds() {
    let mut state = PostState { attempt: 0, last_err: None };
    let body = obj(vec![("error", obj(vec![("message", s("temporary"))]))]);
    let step = post_next(&mut state, PostOutcome::Status { code: 500, body: Some(body) });
    assert!(is_send(&step, 1, 200));
    let answer = obj(vec![(
        "choices",
        JsonValue::Array(vec![obj(vec![("message", obj(vec![("content", s("recovered"))]))])]),
    )]);
    match post_next(&mut state, PostOutcome::Success(Ok(answer))) {
        PostStep::Answer(t) => assert_eq!(t, "recovered"),
        _ => panic!("the answer is returned"),
    }
}

#[test]
fn post_loop_gives_up_after_three_retries() {
    let mut state = PostState { attempt: 0, last_err: None };
    let mut delays = Vec::new();
    loop {
        match post_next(&mut state, PostOutcome::SendError("refused".to_string())) {
            PostStep::Send { delay_ms, .. } => delays.push(delay_ms),
            step => {
                assert_eq!(chat_message(&step), "chat command error: Request failed: refused");
                break;
            }
        }
    }
    assert_eq!(delays, vec![200, 400, 800]);
}

#[test]
fn post_loop_reports_unreadable_and_unexpected_bodies() {
    let mut state = PostState { attempt: 0, last_err: None };
    match post_next(&mut state, PostOutcome::Success(Err("eof".to_string()))) {
        PostStep::Failed(ClaError::ChatCommand { message, source }) => {
            assert_eq!(message, "failed to parse response body");
            assert_eq!(source.as_deref(), Some("eof"));
        }
        _ => panic!("an unreadable body fails"),
    }
    let step = post_next(&mut state, PostOutcome::Success(Ok(obj(vec![]))));
    assert!(matches!(step, PostStep::UnexpectedFormat));
    let e = cli_assistant::query::unexpected_format("{}");
    assert_eq!(e.to_string(), "chat command error: unexpected response format: {}");
}
