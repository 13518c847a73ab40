use cli_assistant::client::commands::{
    add_default_command, chat_list_lines, check_question, gather_input, history_action,
    interactive_step, shell_action, show_legal_notice, stdin_input, HistoryAction, HistoryQuery,
    InteractiveStep, QuestionCheck, ShellAction,
};
use cli_assistant::client::setup::{
    check_configured, confirm_answer, default_model, endpoint_is_valid, mask_key,
    model_list_lines, parse_index, parse_model_ids, select_model,
};
use cli_assistant::client::tui::{conversation_lines, new_state, on_key, on_response, TuiAction, TuiKey};
use cli_assistant::config::AppConfig;
use cli_assistant::dbus::structures::{ChatEntry, ChatList};
use cli_assistant::errors::ClaError;
use cli_assistant::json::JsonValue;
use cli_assistant::rendering::renderer::Renderer;

fn models() -> Vec<String> {
    vec!["gpt-4o".to_string(), "gpt-4o-mini".to_string()]
}

fn args(v: &[&str]) -> Vec<String> {
    v.iter().map(|s| s.to_string()).collect()
}

fn s(text: &str) -> JsonValue {
    JsonValue::Str(text.to_string())
}

fn obj(fields: Vec<(&str, JsonValue)>) -> JsonValue {
    JsonValue::Object(fields.into_iter().map(|(k, v)| (k.to_string(), v)).collect())
}

#[test]
fn select_model_accepts_index_and_name() {
    assert_eq!(select_model("2", &models(), "gpt-4o"), "gpt-4o-mini");
    assert_eq!(select_model("llama3", &models(), "gpt-4o"), "llama3");
    // Out-of-range numbers are treated as literal model names.
    assert_eq!(select_model("9", &models(), "gpt-4o"), "9");
    assert_eq!(select_model("", &models(), "gpt-4o"), "gpt-4o");
}

#[test]
fn indices_parse_as_unsigned_numbers() {
    assert_eq!(parse_index("+1"), Some(1));
    assert_eq!(parse_index("007"), Some(7));
    assert_eq!(parse_index("-1"), None);
    assert_eq!(parse_index("+"), None);
    assert_eq!(parse_index("1x"), None);
    assert_eq!(parse_index("99999999999999999999999"), None);
    assert_eq!(select_model("+1", &models(), "d"), "gpt-4o");
}

#[test]
fn parse_model_ids_reads_openai_shapes() {
    let openai = obj(vec![("data", JsonValue::Array(vec![obj(vec![("id", s("a"))]), obj(vec![("id", s("b"))])]))]);
    assert_eq!(parse_model_ids(&openai), vec!["a", "b"]);

    let bare = obj(vec![("models", JsonValue::Array(vec![s("c"), obj(vec![("id", s("d"))])]))]);
    assert_eq!(parse_model_ids(&bare), vec!["c", "d"]);

    assert!(parse_model_ids(&obj(vec![("unexpected", JsonValue::Bool(true))])).is_empty());
}

#[test]
fn mask_key_hides_the_middle() {
    assert_eq!(mask_key("", false), "(empty)");
    assert_eq!(mask_key("", true), "(from CL_API_KEY)");
    assert_eq!(mask_key("short", false), "********");
    assert_eq!(mask_key("sk-1234567890abcd", false), "sk-1…abcd");
}

#[test]
fn default_model_prefers_the_configured_one() {
    assert_eq!(default_model(&models(), "gpt-4o-mini"), "gpt-4o-mini");
    assert_eq!(default_model(&models(), "other"), "gpt-4o");
    assert_eq!(default_model(&[], "other"), "other");
}

#[test]
fn wizard_answers_are_checked() {
    assert!(endpoint_is_valid("https://api.example.com/v1"));
    assert!(endpoint_is_valid("http://localhost:8080/v1"));
    assert!(!endpoint_is_valid("api.example.com"));
    assert_eq!(confirm_answer(Some("")), Some(true));
    assert_eq!(confirm_answer(Some("YeS")), Some(true));
    assert_eq!(confirm_answer(Some("n")), Some(false));
    assert_eq!(confirm_answer(None), None);
    let many: Vec<String> = (0..32).map(|i| format!("m{}", i)).collect();
    let lines = model_list_lines(&many);
    assert_eq!(lines.len(), 31);
    assert_eq!(lines[0], "  [1] m0");
    assert_eq!(lines[30], "  ... and 2 more");
}

#[test]
fn configuration_guard() {
    let r = Renderer::new(true, false);
    let (out, code) = check_configured(&r, true, false, &Ok(AppConfig::default()));
    assert!(out.is_empty() && code.is_none());
    let (_, code) = check_configured(&r, false, false, &Ok(AppConfig::default()));
    assert_eq!(code, Some(1));
    let (_, code) = check_configured(&r, false, true, &Ok(AppConfig::default()));
    assert_eq!(code, Some(1));
    let mut keyed = AppConfig::default();
    keyed.backend.api_key = "k".to_string();
    let (_, code) = check_configured(&r, false, true, &Ok(keyed));
    assert_eq!(code, None);
    let (_, code) = check_configured(&r, false, true, &Err(ClaError::TomlParse("bad".to_string())));
    assert_eq!(code, Some(1));
}

#[test]
fn chat_is_the_default_subcommand() {
    assert_eq!(add_default_command(args(&["c", "hello"])), args(&["c", "chat", "hello"]));
    assert_eq!(
        add_default_command(args(&["c", "--plain", "hello", "-v"])),
        args(&["c", "--plain", "-v", "chat", "hello"])
    );
    assert_eq!(add_default_command(args(&["c", "history", "--all"])), args(&["c", "history", "--all"]));
    assert_eq!(add_default_command(args(&["c"])), args(&["c"]));
    let once = add_default_command(args(&["c", "-p", "q"]));
    assert_eq!(add_default_command(once.clone()), once);
}

#[test]
fn input_sources_by_priority() {
    assert_eq!(gather_input(Some("q"), Some("s"), None, None), "q");
    assert_eq!(gather_input(Some("  "), Some("s"), None, None), "s");
    assert_eq!(gather_input(None, None, Some(""), Some("t")), "");
    assert_eq!(gather_input(None, None, None, Some("t")), "t");
    assert_eq!(gather_input(None, None, None, Some("")), "");
    assert_eq!(stdin_input("  x \n"), Some("x".to_string()));
    assert_eq!(stdin_input(" \n"), None);
}

#[test]
fn questions_are_checked_and_cut() {
    assert!(matches!(check_question(" a "), QuestionCheck::TooShort));
    assert!(matches!(check_question("é"), QuestionCheck::Ready { trimmed: false, .. }));
    let long = "x".repeat(32_005);
    match check_question(&long) {
        QuestionCheck::Ready { text, trimmed } => {
            assert!(trimmed);
            assert_eq!(text.len(), 32_000);
        }
        QuestionCheck::TooShort => panic!("a long question is kept"),
    }
}

#[test]
fn legal_notice_once_per_session() {
    assert!(show_legal_notice(None, 42));
    assert!(!show_legal_notice(Some("42\n"), 42));
    assert!(show_legal_notice(Some("41"), 42));
}

#[test]
fn chat_listing() {
    let none = ChatList { chats: vec![] };
    assert_eq!(chat_list_lines(&none), vec!["No chats available."]);
    let one = ChatList {
        chats: vec![ChatEntry {
            id: "1".to_string(),
            name: "default".to_string(),
            description: "d".to_string(),
            created_at: "2024".to_string(),
            updated_at: "2024".to_string(),
            deleted_at: None,
        }],
    };
    assert_eq!(
        chat_list_lines(&one),
        vec!["Found a total of 1 chats:", "0. Chat: default - d (created at: 2024)"]
    );
}

#[test]
fn history_and_shell_actions() {
    let (check, action) = history_action(false, false, Some("df"), false, false);
    assert!(check);
    assert!(matches!(action, HistoryAction::Read(HistoryQuery::Filtered(ref f)) if f == "df"));
    let (check, action) = history_action(true, false, None, false, true);
    assert!(!check);
    assert!(matches!(action, HistoryAction::ClearAll));
    assert!(matches!(shell_action(true, true, false), ShellAction::EnableInteractive));
    assert!(matches!(shell_action(false, false, false), ShellAction::Nothing));
}

#[test]
fn interactive_lines() {
    assert!(matches!(interactive_step(None), InteractiveStep::Stop));
    assert!(matches!(interactive_step(Some(" .exit\n")), InteractiveStep::Stop));
    assert!(matches!(interactive_step(Some("  \n")), InteractiveStep::Empty));
    assert!(matches!(interactive_step(Some(" df? \n")), InteractiveStep::Ask(ref q) if q == "df?"));
}

#[test]
fn tui_keys_edit_and_send() {
    let mut state = new_state();
    for c in " hi ".chars() {
        assert!(matches!(on_key(&mut state, TuiKey::Char(c), true), TuiAction::Continue));
    }
    on_key(&mut state, TuiKey::Backspace, true);
    assert_eq!(state.input, " hi");
    assert!(matches!(on_key(&mut state, TuiKey::Enter, true), TuiAction::Ask(ref q) if q == "hi"));
    assert!(state.pending);
    assert_eq!(state.input, "");
    on_key(&mut state, TuiKey::Char('x'), true);
    assert!(matches!(on_key(&mut state, TuiKey::Enter, true), TuiAction::Continue));
    on_response(&mut state, Ok("answer".to_string()));
    assert!(!state.pending);
    let lines = conversation_lines(&state);
    assert_eq!(lines.len(), 2);
    assert_eq!(lines[0].label, "You: ");
    assert_eq!(lines[1].label, "Assistant: ");
    assert!(matches!(on_key(&mut state, TuiKey::CtrlC, true), TuiAction::Quit));
    assert!(matches!(on_key(&mut state, TuiKey::CtrlD, false), TuiAction::Continue));
}
