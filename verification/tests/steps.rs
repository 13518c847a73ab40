use cli_assistant::client::commands::{availability_checked, clear_finished, history_read, interactive_allowed};
use cli_assistant::client::setup::check_configured;
use cli_assistant::client::tui::{new_state, on_key, on_response, TuiAction, TuiKey};
use cli_assistant::config::AppConfig;
use cli_assistant::dbus::structures::HistoryList;
use cli_assistant::errors::ClaError;
use cli_assistant::terminal::TerminalRecorder;
use cli_assistant::client::chat::{chat_begin, chat_step, ChatAction, ChatEvent, ChatRequest, ChatStage};
use cli_assistant::client::commands::{capture_finished, output_index, shell_notice, ShellAction};
use cli_assistant::client::wizard::{
    wizard_begin, wizard_step, NoteKind, RestartOutcome, WizardAction, WizardEvent, WizardStage,
};
use cli_assistant::config::BackendSchema;
use cli_assistant::dbus::structures::{ChatEntry, ChatList};
use cli_assistant::rendering::renderer::{Printed, Renderer};
use cli_assistant::terminal::{collect_blocks, find_output_by_index, TerminalBlock};

fn request(list: bool, delete: Option<&str>, interactive: bool) -> ChatRequest {
    ChatRequest {
        list,
        delete: delete.map(|s| s.to_string()),
        delete_all: false,
        interactive,
        name: None,
        description: None,
    }
}

fn ok(s: &str) -> Result<String, String> {
    Ok(s.to_string())
}

#[test]
fn chat_records_the_question_and_the_answer() {
    let (s, a) = chat_begin(request(false, None, false));
    assert!(matches!(a, ChatAction::Connect));
    let (s, a) = chat_step(s, ChatEvent::Connected(Ok(())));
    assert!(matches!(a, ChatAction::GetUserId));
    let (s, a) = chat_step(s, ChatEvent::UserId(ok("u1")));
    match &a {
        ChatAction::GetChatId { user_id, name } => {
            assert_eq!(user_id, "u1");
            assert_eq!(name, "default");
        }
        _ => panic!("expected a chat lookup"),
    }
    let (s, a) = chat_step(s, ChatEvent::ChatId(Err("missing".to_string())));
    match &a {
        ChatAction::CreateChat { name, description, .. } => {
            assert_eq!(name, "default");
            assert_eq!(description, "Default Command Line Assistant Chat.");
        }
        _ => panic!("expected a chat creation"),
    }
    let (s, a) = chat_step(s, ChatEvent::Created(ok("c1")));
    assert!(matches!(a, ChatAction::GatherInput));
    let (s, a) = chat_step(s, ChatEvent::Input("how do I list files?".to_string()));
    match &a {
        ChatAction::Ask { notes, user_id, question } => {
            assert!(notes.is_empty());
            assert_eq!(user_id, "u1");
            assert_eq!(question, "how do I list files?");
        }
        _ => panic!("expected a question"),
    }
    let (s, a) = chat_step(s, ChatEvent::Answer(ok("use ls")));
    match &a {
        ChatAction::Show(t) => assert_eq!(t, "use ls"),
        _ => panic!("expected the answer shown"),
    }
    let (s, a) = chat_step(s, ChatEvent::Shown);
    match &a {
        ChatAction::WriteHistory { chat_id, user_id, question, response } => {
            assert_eq!(chat_id, "c1");
            assert_eq!(user_id, "u1");
            assert_eq!(question, "how do I list files?");
            assert_eq!(response, "use ls");
        }
        _ => panic!("expected the history written"),
    }
    let (s, a) = chat_step(s, ChatEvent::Written);
    assert!(matches!(a, ChatAction::Exit { code: 0, .. }));
    assert_eq!(s.stage, ChatStage::Done);
}

#[test]
fn chat_refuses_a_short_question() {
    let (s, _) = chat_begin(request(false, None, false));
    let (s, _) = chat_step(s, ChatEvent::Connected(Ok(())));
    let (s, _) = chat_step(s, ChatEvent::UserId(ok("u")));
    let (s, _) = chat_step(s, ChatEvent::ChatId(ok("c")));
    let (_, a) = chat_step(s, ChatEvent::Input(" x ".to_string()));
    match a {
        ChatAction::Exit { notes, code } => {
            assert_eq!(code, 1);
            assert_eq!(notes[0].kind, NoteKind::Error);
            assert_eq!(notes[0].text, "Your query needs to have at least 2 characters.");
        }
        _ => panic!("expected an exit"),
    }
}

#[test]
fn chat_refuses_a_long_blank_multibyte_question() {
    let (s, _) = chat_begin(request(false, None, false));
    let (s, _) = chat_step(s, ChatEvent::Connected(Ok(())));
    let (s, _) = chat_step(s, ChatEvent::UserId(ok("u")));
    let (s, _) = chat_step(s, ChatEvent::ChatId(ok("c")));
    // Ideographic spaces, three bytes each: 32001 bytes in all.
    let blank = format!("{} ", "\u{3000}".repeat(10667));
    assert!(blank.len() > 32000 && !blank.is_char_boundary(32000));
    let (_, a) = chat_step(s, ChatEvent::Input(blank));
    assert!(matches!(a, ChatAction::Exit { code: 1, .. }));
}

#[test]
fn chat_cuts_a_long_question() {
    let (s, _) = chat_begin(request(false, None, false));
    let (s, _) = chat_step(s, ChatEvent::Connected(Ok(())));
    let (s, _) = chat_step(s, ChatEvent::UserId(ok("u")));
    let (s, _) = chat_step(s, ChatEvent::ChatId(ok("c")));
    let (_, a) = chat_step(s, ChatEvent::Input("a".repeat(32010)));
    match a {
        ChatAction::Ask { notes, question, .. } => {
            assert_eq!(question.len(), 32000);
            assert_eq!(notes[0].kind, NoteKind::Warning);
            assert_eq!(notes[0].text, "Question exceeds 32KB limit. Trimming to fit.");
        }
        _ => panic!("expected a question"),
    }
}

#[test]
fn chat_errors_end_with_their_codes() {
    let (s, _) = chat_begin(request(false, None, false));
    let (_, a) = chat_step(s, ChatEvent::Connected(Err("no bus".to_string())));
    match a {
        ChatAction::Exit { notes, code } => {
            assert_eq!(code, 69);
            assert_eq!(notes[0].text, "Failed to connect to daemon: no bus");
        }
        _ => panic!("expected an exit"),
    }
    let (s, _) = chat_begin(request(false, None, false));
    let (s, _) = chat_step(s, ChatEvent::Connected(Ok(())));
    let (_, a) = chat_step(s, ChatEvent::UserId(Err("denied".to_string())));
    match a {
        ChatAction::Exit { notes, code } => {
            assert_eq!(code, 1);
            assert_eq!(notes[0].text, "Failed to get user ID: denied");
        }
        _ => panic!("expected an exit"),
    }
    let (s, _) = chat_begin(request(false, None, false));
    let (s, _) = chat_step(s, ChatEvent::Connected(Ok(())));
    let (s, _) = chat_step(s, ChatEvent::UserId(ok("u")));
    let (s, _) = chat_step(s, ChatEvent::ChatId(ok("c")));
    let (s, _) = chat_step(s, ChatEvent::Input("hello there".to_string()));
    let (_, a) = chat_step(s, ChatEvent::Answer(Err("timeout".to_string())));
    match a {
        ChatAction::Exit { notes, code } => {
            assert_eq!(code, 1);
            assert_eq!(notes[0].text, "Failed to get response: timeout");
        }
        _ => panic!("expected an exit"),
    }
}

#[test]
fn chat_lists_and_deletes() {
    let (s, _) = chat_begin(request(true, None, false));
    let (s, _) = chat_step(s, ChatEvent::Connected(Ok(())));
    let (s, a) = chat_step(s, ChatEvent::UserId(ok("u")));
    assert!(matches!(a, ChatAction::ListChats { .. }));
    let entry = ChatEntry {
        id: "1".to_string(),
        name: "work".to_string(),
        description: "d".to_string(),
        created_at: "t".to_string(),
        updated_at: "t".to_string(),
        deleted_at: None,
    };
    let (_, a) = chat_step(s, ChatEvent::Chats(Ok(ChatList { chats: vec![entry] })));
    match a {
        ChatAction::Exit { notes, code } => {
            assert_eq!(code, 0);
            assert_eq!(notes[0].text, "Found a total of 1 chats:");
            assert_eq!(notes[1].text, "0. Chat: work - d (created at: t)");
        }
        _ => panic!("expected the listing"),
    }
    let (s, _) = chat_begin(request(false, Some("work"), false));
    let (s, _) = chat_step(s, ChatEvent::Connected(Ok(())));
    let (s, a) = chat_step(s, ChatEvent::UserId(ok("u")));
    match &a {
        ChatAction::DeleteChat { name, .. } => assert_eq!(name, "work"),
        _ => panic!("expected a deletion"),
    }
    let (_, a) = chat_step(s, ChatEvent::Deleted(Ok(())));
    match a {
        ChatAction::Exit { notes, code } => {
            assert_eq!(code, 0);
            assert_eq!(notes[0].text, "Chat work deleted successfully.");
        }
        _ => panic!("expected an exit"),
    }
}

#[test]
fn chat_interactive_runs_in_the_chat() {
    let (s, _) = chat_begin(request(false, None, true));
    let (s, _) = chat_step(s, ChatEvent::Connected(Ok(())));
    let (s, _) = chat_step(s, ChatEvent::UserId(ok("u")));
    let (_, a) = chat_step(s, ChatEvent::ChatId(ok("c")));
    match a {
        ChatAction::RunInteractive { user_id, chat_id } => {
            assert_eq!(user_id, "u");
            assert_eq!(chat_id, "c");
        }
        _ => panic!("expected the interactive session"),
    }
}

fn existing() -> BackendSchema {
    let mut b = BackendSchema::default();
    b.api_key = "sk-old".to_string();
    b.model = "m-old".to_string();
    b
}

fn line(s: &str) -> WizardEvent {
    WizardEvent::Line(Some(s.to_string()))
}

#[test]
fn wizard_needs_root() {
    let (s, a) = wizard_begin(false, &existing(), true, false);
    assert_eq!(s.stage, WizardStage::Done);
    match a {
        WizardAction::Exit { notes, code } => {
            assert_eq!(code, 1);
            assert_eq!(notes[0].text, "The wizard writes /etc/cli-assistant/config.toml and must run as root.");
            assert_eq!(notes[1].text, "Run it with: sudo c setup");
        }
        _ => panic!("expected an exit"),
    }
}

#[test]
fn wizard_writes_after_confirmation() {
    let (s, a) = wizard_begin(true, &existing(), true, false);
    match &a {
        WizardAction::Ask { label, default, hidden, .. } => {
            assert_eq!(label, "Endpoint");
            assert_eq!(default, "https://api.deepseek.com/v1");
            assert!(!hidden);
        }
        _ => panic!("expected the endpoint question"),
    }
    let (s, a) = wizard_step(s, line("ftp://x"));
    match &a {
        WizardAction::Ask { label, hint, .. } => {
            assert_eq!(label, "Endpoint");
            assert_eq!(hint.as_deref(), Some("The endpoint must start with http:// or https://"));
        }
        _ => panic!("expected the endpoint asked again"),
    }
    let (s, a) = wizard_step(s, line("https://llm.example/v1/"));
    match &a {
        WizardAction::Ask { label, default, hidden, hint, .. } => {
            assert_eq!(label, "API Key");
            assert_eq!(default, "sk-old");
            assert!(hidden);
            assert_eq!(hint.as_deref(), Some("Current key is kept when left empty"));
        }
        _ => panic!("expected the key question"),
    }
    let (s, a) = wizard_step(s, line(""));
    match &a {
        WizardAction::FetchModels { notes, endpoint, api_key } => {
            assert_eq!(notes[0].text, "Querying https://llm.example/v1/models ...");
            assert_eq!(endpoint, "https://llm.example/v1/");
            assert_eq!(api_key, "sk-old");
        }
        _ => panic!("expected the model probe"),
    }
    let (s, a) = wizard_step(s, WizardEvent::Models(Ok(vec!["a".to_string(), "b".to_string()])));
    match &a {
        WizardAction::Ask { notes, label, default, .. } => {
            assert_eq!(label, "Model");
            assert_eq!(default, "a");
            assert_eq!(notes[1].text, "  [2] b");
        }
        _ => panic!("expected the model question"),
    }
    let (s, _) = wizard_step(s, line("2"));
    assert_eq!(s.model, "b");
    let (s, a) = wizard_step(s, line("en"));
    match &a {
        WizardAction::Confirm { notes, question } => {
            assert_eq!(question, "Write and restart clad?");
            assert_eq!(notes[5].text, "  language : en");
        }
        _ => panic!("expected the confirmation"),
    }
    let (s, a) = wizard_step(s, line("Y"));
    assert!(matches!(a, WizardAction::CreateFolder));
    let (s, a) = wizard_step(s, WizardEvent::FolderReady(Ok(())));
    assert!(matches!(a, WizardAction::ReadTemplate));
    let (s, a) = wizard_step(s, WizardEvent::Template(None));
    match &a {
        WizardAction::WriteConfig(text) => {
            assert!(text.contains("endpoint = \"https://llm.example/v1/\""));
            assert!(text.contains("model = \"b\""));
            assert!(text.contains("language = \"en\""));
        }
        _ => panic!("expected the file written"),
    }
    let (s, a) = wizard_step(s, WizardEvent::Written(Ok(())));
    match &a {
        WizardAction::Restart { notes } => {
            assert_eq!(notes[0].text, "Configuration written to /etc/cli-assistant/config.toml");
        }
        _ => panic!("expected the restart"),
    }
    let (_, a) = wizard_step(s, WizardEvent::Restarted(RestartOutcome::Restarted));
    assert!(matches!(a, WizardAction::Exit { code: 0, .. }));
}

#[test]
fn wizard_ends_on_end_of_input_or_refusal() {
    let (s, _) = wizard_begin(true, &existing(), true, false);
    let (_, a) = wizard_step(s, WizardEvent::Line(None));
    match a {
        WizardAction::Exit { notes, code } => {
            assert_eq!(code, 2);
            assert_eq!(notes[0].kind, NoteKind::Warning);
            assert_eq!(notes[0].text, "Input ended; setup cancelled.");
        }
        _ => panic!("expected an exit"),
    }
    let (s, _) = wizard_begin(true, &existing(), true, true);
    let (s, _) = wizard_step(s, line(""));
    let (s, _) = wizard_step(s, line(""));
    assert_eq!(s.api_key, "");
    let (s, _) = wizard_step(s, WizardEvent::Models(Err("offline".to_string())));
    let (s, _) = wizard_step(s, line(""));
    assert_eq!(s.model, "m-old");
    let (s, _) = wizard_step(s, line(""));
    let (s, a) = wizard_step(s, line("no"));
    assert_eq!(s.stage, WizardStage::Done);
    match a {
        WizardAction::Exit { notes, code } => {
            assert_eq!(code, 2);
            assert_eq!(notes[0].text, "Setup cancelled; nothing was written.");
        }
        _ => panic!("expected an exit"),
    }
}

#[test]
fn wizard_reports_a_failed_restart() {
    let (s, _) = wizard_begin(true, &existing(), false, false);
    let (s, _) = wizard_step(s, line(""));
    let (s, _) = wizard_step(s, line("k"));
    let (s, _) = wizard_step(s, WizardEvent::Models(Ok(vec![])));
    let (s, _) = wizard_step(s, line("m"));
    let (s, _) = wizard_step(s, line(""));
    let (s, _) = wizard_step(s, line(""));
    let (s, _) = wizard_step(s, WizardEvent::FolderReady(Ok(())));
    let (s, a) = wizard_step(s, WizardEvent::Template(Some("[backend]\nmodel = \"x\"\n".to_string())));
    match &a {
        // The current file is not used when the configuration did not load.
        WizardAction::WriteConfig(text) => assert!(text.starts_with("# cli-assistant configuration")),
        _ => panic!("expected the file written"),
    }
    let (s, _) = wizard_step(s, WizardEvent::Written(Ok(())));
    let (_, a) = wizard_step(s, WizardEvent::Restarted(RestartOutcome::Failed(" unit not found \n".to_string())));
    match a {
        WizardAction::Exit { notes, code } => {
            assert_eq!(code, 1);
            assert_eq!(notes[0].text, "Failed to restart clad: unit not found");
        }
        _ => panic!("expected an exit"),
    }
}

fn block(command: &str, output: &str) -> TerminalBlock {
    TerminalBlock { command: command.to_string(), output: output.to_string() }
}

#[test]
fn with_output_one_is_the_latest_block() {
    // In file order: the older block, then the newer one.
    let parsed = vec![block("ls", "older"), block("pwd", "newer")];
    let blocks = collect_blocks(&parsed);
    assert_eq!(find_output_by_index(output_index(1), &blocks), "newer");
    assert_eq!(find_output_by_index(output_index(2), &blocks), "older");
    assert_eq!(find_output_by_index(output_index(3), &blocks), "");
}

#[test]
fn capture_is_announced_and_its_end_decides_the_code() {
    let r = Renderer::new(true, true);
    let (printed, code) = shell_notice(&r, &ShellAction::Capture, "/s/terminal.log").unwrap();
    assert_eq!(code, 0);
    assert_eq!(printed.len(), 2);
    let (printed, code) = capture_finished(&r, &Ok(()));
    assert!(printed.is_empty());
    assert_eq!(code, 0);
    let (printed, code) = capture_finished(&r, &Err("no pty".to_string()));
    assert_eq!(code, 1);
    assert!(matches!(&printed[0], Printed::Stderr(s) if s == "Terminal capture failed: no pty"));
}

#[test]
fn waiting_for_an_answer_blocks_a_second_question() {
    let mut state = new_state();
    for c in "one".chars() {
        on_key(&mut state, TuiKey::Char(c), true);
    }
    assert!(matches!(on_key(&mut state, TuiKey::Enter, true), TuiAction::Ask(_)));
    assert!(state.pending);
    for key in [TuiKey::Char('x'), TuiKey::Backspace, TuiKey::Esc, TuiKey::Other, TuiKey::Char('y')] {
        assert!(matches!(on_key(&mut state, key, true), TuiAction::Continue));
        assert!(state.pending);
        assert_eq!(state.messages.len(), 1);
    }
    assert!(matches!(on_key(&mut state, TuiKey::Enter, true), TuiAction::Continue));
    assert_eq!(state.input, "y");
    on_response(&mut state, Ok("answer".to_string()));
    assert!(!state.pending);
    assert!(matches!(on_key(&mut state, TuiKey::Enter, true), TuiAction::Ask(ref q) if q == "y"));
}

#[test]
fn configuration_hints_point_to_setup() {
    let r = Renderer::new(true, true);
    let (out, code) = check_configured(&r, false, false, &Ok(AppConfig::default()));
    assert_eq!(code, Some(1));
    assert!(matches!(&out[0], Printed::Stderr(s) if s == "No configuration found at /etc/cli-assistant/config.toml."));
    assert!(matches!(&out[1], Printed::Stdout(s) if s == "Run `sudo c setup` to configure the endpoint, API key and model."));
    let (out, _) = check_configured(&r, false, true, &Ok(AppConfig::default()));
    assert!(matches!(&out[0], Printed::Stderr(s) if s == "No API key configured."));
    assert!(matches!(&out[1], Printed::Stdout(s) if s == "Run `sudo c setup` to finish setup, or set CL_API_KEY."));
    let (out, _) = check_configured(&r, false, true, &Err(ClaError::TomlParse("bad".to_string())));
    assert!(matches!(&out[1], Printed::Stdout(s) if s == "Fix the file or re-run `sudo c setup`."));
}

#[test]
fn history_outcomes_decide_messages_and_codes() {
    let r = Renderer::new(true, true);
    assert!(availability_checked(&r, "default", &Ok(true)).is_none());
    let (p, code) = availability_checked(&r, "work", &Ok(false)).unwrap();
    assert_eq!(code, 1);
    assert!(matches!(p, Printed::Stderr(ref s) if s == "Nothing to clean as work chat is not available. Try asking something first."));
    let (p, code) = availability_checked(&r, "work", &Err("bus".to_string())).unwrap();
    assert_eq!(code, 1);
    assert!(matches!(p, Printed::Stderr(ref s) if s == "Failed to check chat availability: bus"));
    let (p, code) = clear_finished(&r, false, &Ok(()));
    assert_eq!(code, 0);
    assert!(matches!(p, Printed::Stdout(ref s) if s == "History cleaned successfully."));
    let (p, code) = clear_finished(&r, true, &Err("x".to_string()));
    assert_eq!(code, 1);
    assert!(matches!(p, Printed::Stderr(ref s) if s == "Failed to clear all history: x"));
    let (groups, code) = history_read(&r, &Ok(HistoryList { histories: vec![] }));
    assert_eq!(code, 0);
    assert!(matches!(&groups[0][0], Printed::Stdout(s) if s == "No history entries found"));
    let (groups, code) = history_read(&r, &Err("gone".to_string()));
    assert_eq!(code, 1);
    assert!(matches!(&groups[0][0], Printed::Stderr(s) if s == "Failed to get history: gone"));
}

#[test]
fn interactive_mode_waits_for_capture_to_end() {
    let r = Renderer::new(true, true);
    assert!(interactive_allowed(&r, false).is_none());
    let (p, code) = interactive_allowed(&r, true).unwrap();
    assert_eq!(code, 1);
    assert!(matches!(p, Printed::Stderr(ref s) if s.starts_with("Interactive mode is not available")));
}

#[test]
fn an_ascii_command_is_logged_as_typed() {
    let mut recorder = TerminalRecorder::new();
    let mut written = Vec::new();
    written.extend(recorder.handle(b"\x1b]$ "));
    written.extend(recorder.handle(b"ls -la"));
    written.extend(recorder.handle(b"\r\n"));
    written.extend(recorder.handle(b"total 0\r\n"));
    written.extend(recorder.write_json_block());
    assert_eq!(written.len(), 1);
    assert_eq!(written[0].command, "\x1b]$ ls -la");
    assert_eq!(written[0].output, "total 0");
}
