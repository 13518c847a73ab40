use cli_assistant::config::{
    default_config_template, AppConfig, AuthSchema, BackendSchema, DatabaseSchema,
    DEFAULT_TEMPERATURE_BITS,
};
use cli_assistant::constants::{APP_NAME, DEFAULT_CONFIG_PATH, VERSION};
use cli_assistant::paths::{get_xdg_data_path, get_xdg_state_path, join};

fn backend_with_endpoint(endpoint: &str) -> BackendSchema {
    BackendSchema { endpoint: endpoint.to_string(), ..Default::default() }
}

/// A backend carrying only the fields the setup wizard manages.
fn wizard_values(endpoint: &str, api_key: &str, model: &str, language: &str) -> BackendSchema {
    BackendSchema {
        endpoint: endpoint.to_string(),
        api_key: api_key.to_string(),
        model: model.to_string(),
        language: language.to_string(),
        ..Default::default()
    }
}

fn parsed(text: &str) -> toml::Value {
    toml::from_str(text).expect("rendered config must parse")
}

#[test]
fn version_is_nonempty() {
    assert!(!VERSION.is_empty());
}

#[test]
fn config_path_is_absolute() {
    assert!(DEFAULT_CONFIG_PATH.starts_with('/'));
}

#[test]
fn chat_completions_url() {
    let mut backend = backend_with_endpoint("https://api.openai.com/v1");
    assert_eq!(
        backend.chat_completions_url(),
        "https://api.openai.com/v1/chat/completions"
    );

    backend.endpoint = "https://api.openai.com/v1/".to_string();
    assert_eq!(
        backend.chat_completions_url(),
        "https://api.openai.com/v1/chat/completions"
    );

    backend.endpoint = "https://my-proxy.example.com/v2".to_string();
    assert_eq!(
        backend.chat_completions_url(),
        "https://my-proxy.example.com/v2/chat/completions"
    );
}

#[test]
fn models_url() {
    let mut backend = backend_with_endpoint("https://api.openai.com/v1");
    assert_eq!(backend.models_url(), "https://api.openai.com/v1/models");

    backend.endpoint = "https://my-proxy.example.com/v2/".to_string();
    assert_eq!(
        backend.models_url(),
        "https://my-proxy.example.com/v2/models"
    );
}

#[test]
fn urls_ignore_any_number_of_trailing_slashes() {
    let backend = backend_with_endpoint("https://x.example/v1///");
    assert_eq!(backend.chat_completions_url(), "https://x.example/v1/chat/completions");
}

#[test]
fn auth_schema_defaults() {
    let auth = AuthSchema::default();
    assert_eq!(auth.cert_file, "/etc/pki/consumer/cert.pem");
    assert_eq!(auth.key_file, "/etc/pki/consumer/key.pem");
}

#[test]
fn database_schema_defaults() {
    let db = DatabaseSchema::default();
    assert_eq!(db.path, "/var/lib/cli-assistant/cla.db");
}

#[test]
fn app_config_defaults() {
    let config = AppConfig::default();
    assert_eq!(config.backend.endpoint, "https://api.deepseek.com/v1");
    assert_eq!(config.backend.model, "deepseek-v4-flash");
    assert_eq!(config.backend.max_tokens, 32768);
    assert_eq!(config.backend.context_length, 256000);
    assert_eq!(f32::from_bits(config.backend.temperature), 0.3f32);
    assert_eq!(config.backend.temperature, DEFAULT_TEMPERATURE_BITS);
    assert_eq!(config.backend.timeout, 120);
    assert!(config.history.enabled);
    assert_eq!(config.logging.level, "INFO");
    assert!(config.logging.audit.enabled);
}

#[test]
fn effective_prompt_appends_language() {
    let mut backend = BackendSchema { prompt: "p".to_string(), ..Default::default() };
    assert_eq!(backend.effective_prompt(), "p");
    backend.language = "zh-CN".to_string();
    assert_eq!(backend.effective_prompt(), "p\n\nAlways reply in zh-CN.");
}

#[test]
fn environment_key_takes_precedence_when_not_empty() {
    let backend = BackendSchema { api_key: "file-key".to_string(), ..Default::default() };
    assert_eq!(backend.effective_api_key(None), "file-key");
    assert_eq!(backend.effective_api_key(Some("")), "file-key");
    assert_eq!(backend.effective_api_key(Some("env-key")), "env-key");
}

#[test]
fn rendered_template_parses_and_keeps_values() {
    let values = wizard_values(
        "https://api.deepseek.com/v1",
        "sk-secret",
        "deepseek-chat",
        "zh-CN",
    );
    let rendered = values.render_into_template(default_config_template());

    let config = parsed(&rendered);
    let backend = &config["backend"];
    assert_eq!(backend["endpoint"].as_str(), Some("https://api.deepseek.com/v1"));
    assert_eq!(backend["api_key"].as_str(), Some("sk-secret"));
    assert_eq!(backend["model"].as_str(), Some("deepseek-chat"));
    assert_eq!(backend["language"].as_str(), Some("zh-CN"));

    // Fields the wizard does not ask about keep their template defaults.
    assert_eq!(backend["max_tokens"].as_integer(), Some(32768));
    assert_eq!(backend["context_length"].as_integer(), Some(256000));
    assert!((backend["temperature"].as_float().unwrap() - 0.3).abs() < 1e-6);
    assert_eq!(backend["timeout"].as_integer(), Some(120));
    assert_eq!(
        config["database"]["path"].as_str(),
        Some("/var/lib/cli-assistant/cla.db")
    );
    assert_eq!(config["history"]["enabled"].as_bool(), Some(true));

    // Comments survive rendering.
    assert!(rendered.contains("# Base URL of the OpenAI-compatible API"));
    assert!(rendered.contains("# ── Database (SQLite)"));
}

#[test]
fn rendered_template_escapes_hostile_values() {
    let values = wizard_values(
        "https://example.com/v1",
        "sk-\"quoted\"\\back\\slash",
        "m\"odel",
        "",
    );
    let rendered = values.render_into_template(default_config_template());

    let config = parsed(&rendered);
    assert_eq!(config["backend"]["api_key"].as_str(), Some("sk-\"quoted\"\\back\\slash"));
    assert_eq!(config["backend"]["model"].as_str(), Some("m\"odel"));
    assert_eq!(config["backend"]["language"].as_str(), Some(""));
}

#[test]
fn render_into_template_preserves_hand_edited_values() {
    // Re-running the wizard must not reset values the user edited outside it.
    let template = "# my config\n\
                    [backend]\n\
                    endpoint = \"https://old.example.com/v1\"\n\
                    model = \"old-model\"\n\
                    api_key = \"\"\n\
                    max_tokens = 64000\n\
                    language = \"\"\n\
                    \n\
                    [database]\n\
                    path = \"/tmp/custom.db\"\n";

    let values = wizard_values("https://new.example.com/v1", "sk-new", "new-model", "zh-CN");
    let rendered = values.render_into_template(template);

    let config = parsed(&rendered);
    assert_eq!(config["backend"]["endpoint"].as_str(), Some("https://new.example.com/v1"));
    assert_eq!(config["backend"]["api_key"].as_str(), Some("sk-new"));
    assert_eq!(config["backend"]["model"].as_str(), Some("new-model"));
    assert_eq!(config["backend"]["language"].as_str(), Some("zh-CN"));
    assert_eq!(config["backend"]["max_tokens"].as_integer(), Some(64000));
    assert_eq!(config["database"]["path"].as_str(), Some("/tmp/custom.db"));
    assert!(rendered.contains("# my config"));
}

#[test]
fn render_keeps_indentation_and_other_sections() {
    let template = "[backend]\n  model = \"a\"\n# model = \"comment\"\n[other]\nmodel = \"b\"";
    let values = wizard_values("e", "k", "m", "l");
    let rendered = values.render_into_template(template);
    assert_eq!(
        rendered,
        "[backend]\n  model = \"m\"\n# model = \"comment\"\n[other]\nmodel = \"b\"\n"
    );
}

#[test]
fn state_path_contains_app_name() {
    let path = get_xdg_state_path(None, Some("/home/u/.local/state"), Some("/home/u"));
    assert!(path.ends_with(APP_NAME));
    assert_eq!(path, "/home/u/.local/state/command-line-assistant");
    assert_eq!(
        get_xdg_state_path(Some("/x"), None, None),
        "/x/command-line-assistant"
    );
    assert_eq!(
        get_xdg_state_path(None, None, Some("/h")),
        "/h/.local/state/command-line-assistant"
    );
}

#[test]
fn data_path_contains_app_name() {
    let path = get_xdg_data_path(None, Some("/home/u/.local/share"));
    assert!(path.ends_with(APP_NAME));
    assert_eq!(get_xdg_data_path(None, None), "~/.local/share/command-line-assistant");
}

#[test]
fn join_adds_one_separator() {
    assert_eq!(join("/a", "b"), "/a/b");
    assert_eq!(join("/a/", "b"), "/a/b");
    assert_eq!(join("", "b"), "b");
}
