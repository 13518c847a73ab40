use cli_assistant::config::AppConfig;
use cli_assistant::daemon::audit::event;
use cli_assistant::daemon::chat::{
    apply_fold, chat_entry, chat_id_or_not_found, compose_user_message, context_chat,
    latest_chat_name, plan_compaction, CompactionPlan, Conversation,
};
use cli_assistant::daemon::history::{ensure_history_enabled, filter_entries, history_entry};
use cli_assistant::daemon::models::{ChatContext, ChatModel, HistoryModel, InteractionModel};
use cli_assistant::dbus::exceptions::ClaDbusError;
use cli_assistant::dbus::structures::{AttachmentInput, HistoryEntry, Question, StdinInput, TerminalInput};

fn question(message: &str) -> Question {
    Question {
        message: message.to_string(),
        stdin: None,
        attachment: None,
        terminal: None,
        systeminfo: None,
        context_chat: None,
    }
}

fn interaction(id: &str, q: &str, r: &str) -> InteractionModel {
    InteractionModel {
        id: id.to_string(),
        history_id: "h".to_string(),
        question: q.to_string(),
        response: r.to_string(),
        created_at: "t".to_string(),
        updated_at: "t".to_string(),
        summarized: false,
        deleted_at: None,
    }
}

fn entry(q: &str, r: &str) -> HistoryEntry {
    HistoryEntry {
        id: "i".to_string(),
        chat_id: "c".to_string(),
        question: q.to_string(),
        response: r.to_string(),
        created_at: "t".to_string(),
    }
}

fn chat(id: &str, name: &str) -> ChatModel {
    ChatModel {
        id: id.to_string(),
        user_id: "u".to_string(),
        name: name.to_string(),
        description: None,
        created_at: "c".to_string(),
        updated_at: "u".to_string(),
        deleted_at: None,
    }
}

#[test]
fn error_name_round_trip() {
    let cases: Vec<(ClaDbusError, &str)> = vec![
        (
            ClaDbusError::RequestFailed("oops".into()),
            "com.redhat.lightspeed.RequestFailed",
        ),
        (
            ClaDbusError::CorruptedHistory("bad file".into()),
            "com.redhat.lightspeed.CorruptedHistory",
        ),
        (
            ClaDbusError::MissingHistoryFile("/tmp/h.json".into()),
            "com.redhat.lightspeed.MissingHistoryFile",
        ),
        (
            ClaDbusError::HistoryNotAvailable("no data".into()),
            "com.redhat.lightspeed.HistoryNotAvailable",
        ),
        (
            ClaDbusError::HistoryNotEnabled,
            "com.redhat.lightspeed.HistoryNotEnabled",
        ),
        (
            ClaDbusError::ChatNotFound("abc-123".into()),
            "com.redhat.lightspeed.ChatNotFound",
        ),
    ];

    for (err, expected_name) in cases {
        assert_eq!(err.error_name(), expected_name);
        // The generic D-Bus failure carries the name and the message.
        assert!(err.failed_message().starts_with(&format!("[{}] ", expected_name)));
    }
}

#[test]
fn disabled_history_returns_dedicated_error() {
    let err = ensure_history_enabled(false).unwrap_err();
    assert!(err.to_string().contains("history not enabled"));
}

#[test]
fn enabled_history_passes_guard() {
    assert!(ensure_history_enabled(true).is_ok());
}

#[test]
fn user_message_carries_the_attached_context() {
    let mut q = question("why?");
    assert_eq!(compose_user_message(&q), "why?");
    q.stdin = Some(StdinInput { stdin: "in".to_string() });
    q.attachment = Some(AttachmentInput { contents: "body".to_string(), mimetype: "text/plain".to_string() });
    q.terminal = Some(TerminalInput { output: String::new() });
    assert_eq!(
        compose_user_message(&q),
        "why?\n\n[stdin context]\nin\n\n[attached file: text/plain]\nbody"
    );
}

#[test]
fn history_entries_join_their_turns() {
    let h = HistoryModel {
        id: "h1".to_string(),
        user_id: "u".to_string(),
        chat_id: "c1".to_string(),
        created_at: "now".to_string(),
        updated_at: "now".to_string(),
        summary: None,
        deleted_at: None,
    };
    let e = history_entry(&h, &[interaction("1", "q1", "r1"), interaction("2", "q3", "r3")]);
    assert_eq!(e.question, "q1\nq3");
    assert_eq!(e.response, "r1\nr3");
    assert_eq!(e.chat_id, "c1");
    let single = history_entry(&h, &[interaction("1", "How do I check disk space?", "Use df -h.")]);
    assert_eq!(single.question, "How do I check disk space?");
    assert_eq!(single.response, "Use df -h.");
}

#[test]
fn filtered_history_keeps_matching_entries() {
    let entries = vec![entry("disk space", "df"), entry("memory", "free -h"), entry("x", "use df")];
    let kept = filter_entries(&entries, "df");
    assert_eq!(kept.len(), 2);
    assert_eq!(kept[0].question, "disk space");
    assert_eq!(kept[1].question, "x");
}

#[test]
fn chats_are_found_or_reported_missing() {
    assert_eq!(chat_id_or_not_found(&Some(chat("id1", "work")), "work").ok(), Some("id1".to_string()));
    match chat_id_or_not_found(&None, "work") {
        Err(e) => assert_eq!(e.to_string(), "chat not found: work"),
        Ok(_) => panic!("a missing chat is reported"),
    }
    match latest_chat_name(&None) {
        Err(e) => assert_eq!(e.to_string(), "chat not found: no chats"),
        Ok(_) => panic!("no chats is reported"),
    }
    let listed = chat_entry(&chat("id1", "work"));
    assert_eq!(listed.description, "");
}

#[test]
fn context_is_only_loaded_with_history_on() {
    let mut q = question("hi");
    assert_eq!(context_chat(&q, true), None);
    q.context_chat = Some("work".to_string());
    assert_eq!(context_chat(&q, true), Some("work".to_string()));
    assert_eq!(context_chat(&q, false), None);
}

#[test]
fn long_conversations_fold_all_but_six_turns() {
    let mut config = AppConfig::default();
    config.backend.context_length = 10_000;
    config.backend.max_tokens = 1_000;
    let big = "x".repeat(2_000);
    let interactions: Vec<InteractionModel> = (0..10)
        .map(|i| interaction(&format!("id{}", i), &big, &big))
        .collect();
    let context = ChatContext { history_id: "h".to_string(), summary: None, interactions };
    match plan_compaction(&config, "hi", &context) {
        CompactionPlan::Fold { count, material, folded_ids, context } => {
            assert_eq!(count, 4);
            assert_eq!(folded_ids, vec!["id0", "id1", "id2", "id3"]);
            assert!(material.starts_with("Turns to fold in:"));
            let after = apply_fold(context, count, "summary".to_string());
            assert_eq!(after.summary.as_deref(), Some("summary"));
            assert_eq!(after.turns.len(), 6);
        }
        CompactionPlan::Keep(_) => panic!("the history is over budget"),
    }
    let small = ChatContext {
        history_id: "h".to_string(),
        summary: Some("s".to_string()),
        interactions: vec![interaction("a", "q", "r")],
    };
    match plan_compaction(&config, "hi", &small) {
        CompactionPlan::Keep(Conversation { summary, turns }) => {
            assert_eq!(summary.as_deref(), Some("s"));
            assert_eq!(turns, vec![("q".to_string(), "r".to_string())]);
        }
        CompactionPlan::Fold { .. } => panic!("a short history is kept"),
    }
}

#[test]
fn audit_events_only_when_enabled() {
    assert!(event(false, "AskQuestion", "u", None).is_none());
    let e = event(true, "ClearHistory", "u", Some("c")).unwrap();
    assert_eq!(e.action, "ClearHistory");
    assert_eq!(e.chat_id.as_deref(), Some("c"));
}
