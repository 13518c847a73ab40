//! The setup wizard as a state machine: each step takes what the last action
//! brought back (an answer, the model list, the outcome of a file operation)
//! and gives the next state and the next action.
use vstd::prelude::*;
use crate::config::{render_lines, toml_string_literal, BackendSchema, CONFIG_TEMPLATE, endpoint_url, default_config_template};
use crate::constants::DEFAULT_CONFIG_PATH;
use crate::text::{append_str, chars_of, lines, string_of, trim, trim_chars, starts_with};
use super::setup::{
    answer_or_default, confirm_answer, default_model, endpoint_is_valid, is_yes, key_default,
    masked, model_line, model_list_lines, select_model, summary_lines, texts, wizard_backend,
    chosen_model,
};
use crate::session::decimal;

verus! {

/// The directory that holds the configuration file.
pub const DEFAULT_CONFIG_DIR: &'static str = "/etc/cli-assistant";

/// How a message is shown.
#[derive(Clone, Copy, Debug, PartialEq, Eq, Structural)]
pub enum NoteKind {
    Normal,
    Info,
    Warning,
    Error,
}

/// A message to show.
#[derive(Debug)]
pub struct Note {
    pub kind: NoteKind,
    pub text: String,
}

/// The messages, as kinds and texts.
pub open spec fn note_views(v: Seq<Note>) -> Seq<(NoteKind, Seq<char>)> {
    v.map_values(|n: Note| (n.kind, n.text@))
}

/// Where the wizard stands.
#[derive(Clone, Copy, Debug, PartialEq, Eq, Structural)]
pub enum WizardStage {
    Endpoint,
    ApiKey,
    Models,
    Model,
    Language,
    Confirm,
    Folder,
    Template,
    Writing,
    Restarting,
    Done,
}

/// The wizard's state: what it started from and the answers so far.
#[derive(Debug)]
pub struct WizardState {
    pub stage: WizardStage,
    /// The configured endpoint, key, model and language (the defaults offered).
    pub old_endpoint: String,
    pub old_api_key: String,
    pub old_model: String,
    pub old_language: String,
    /// Whether the existing configuration file was read without error.
    pub existing_usable: bool,
    /// Whether `CL_API_KEY` is set.
    pub env_key_set: bool,
    pub endpoint: String,
    pub api_key: String,
    pub models: Vec<String>,
    pub default_model: String,
    pub model: String,
    pub language: String,
}

/// The outcome of restarting the daemon.
pub enum RestartOutcome {
    /// It restarted.
    Restarted,
    /// It ran and failed, with this error output.
    Failed(String),
    /// It could not be run, for this reason.
    NotRun(String),
}

/// What the last action brought back.
pub enum WizardEvent {
    /// The line answered, or `None` where input ended.
    Line(Option<String>),
    /// The models the endpoint offers, or why they could not be fetched.
    Models(Result<Vec<String>, String>),
    /// The configuration directory was created, or why not.
    FolderReady(Result<(), String>),
    /// The current configuration file's text, where it exists and was read.
    Template(Option<String>),
    /// The configuration was written, or why not.
    Written(Result<(), String>),
    /// How the restart went.
    Restarted(RestartOutcome),
}

/// What the wizard does next.
pub enum WizardAction {
    /// Show the notes, then the hint (indented), then prompt with `label` (and
    /// the default in brackets unless `hidden` or empty) and read a line,
    /// without echo when `hidden`.
    Ask { notes: Vec<Note>, hint: Option<String>, label: String, default: String, hidden: bool },
    /// Show the notes, then fetch the model list of `endpoint` with `api_key`.
    FetchModels { notes: Vec<Note>, endpoint: String, api_key: String },
    /// Show the notes, then ask `question` with a `[Y/n]` prompt and read a line.
    Confirm { notes: Vec<Note>, question: String },
    /// Create the configuration directory.
    CreateFolder,
    /// Back up the current configuration file where there is one, and read it.
    ReadTemplate,
    /// Write this text to the configuration file.
    WriteConfig(String),
    /// Show the notes, then restart the daemon.
    Restart { notes: Vec<Note> },
    /// Show the notes and end with this exit code.
    Exit { notes: Vec<Note>, code: i32 },
}

/// The state as plain values.
pub struct WizardView {
    pub stage: WizardStage,
    pub old: (Seq<char>, Seq<char>, Seq<char>, Seq<char>),
    pub existing_usable: bool,
    pub env_key_set: bool,
    pub endpoint: Seq<char>,
    pub api_key: Seq<char>,
    pub models: Seq<Seq<char>>,
    pub default_model: Seq<char>,
    pub model: Seq<char>,
    pub language: Seq<char>,
}

impl WizardState {
    pub open spec fn view(&self) -> WizardView {
        WizardView {
            stage: self.stage,
            old: (self.old_endpoint@, self.old_api_key@, self.old_model@, self.old_language@),
            existing_usable: self.existing_usable,
            env_key_set: self.env_key_set,
            endpoint: self.endpoint@,
            api_key: self.api_key@,
            models: texts(self.models@),
            default_model: self.default_model@,
            model: self.model@,
            language: self.language@,
        }
    }
}

/// `v` at another stage.
pub open spec fn at(v: WizardView, stage: WizardStage) -> WizardView {
    WizardView { stage, ..v }
}

/// The hint for the endpoint question.
pub const ENDPOINT_HINT: &'static str = "Include the version path, e.g. https://api.openai.com/v1";

/// The message for an endpoint that is refused.
pub const ENDPOINT_INVALID: &'static str = "The endpoint must start with http:// or https://";

/// The hint for the key question when `CL_API_KEY` is set.
pub const KEY_ENV_HINT: &'static str = "CL_API_KEY is set and takes precedence — press Enter to keep using it";

/// The hint for the key question when a key is configured.
pub const KEY_KEPT_HINT: &'static str = "Current key is kept when left empty";

/// The hint for the language question.
pub const LANGUAGE_HINT: &'static str = "e.g. zh-CN, en, ja — leave empty to let the model decide";

/// The confirmation question.
pub const CONFIRM_QUESTION: &'static str = "Write and restart clad?";

/// The notice that input ended.
pub const CANCELLED: &'static str = "Input ended; setup cancelled.";

/// The notice that the confirmation was declined.
pub const DECLINED: &'static str = "Setup cancelled; nothing was written.";

/// The hint shown for the API key question.
pub open spec fn key_hint(env_key_set: bool, default: Seq<char>) -> Option<Seq<char>> {
    if env_key_set {
        Some(KEY_ENV_HINT@)
    } else if default.len() > 0 {
        Some(KEY_KEPT_HINT@)
    } else {
        None
    }
}

/// The optional text's view.
pub open spec fn opt_text(o: Option<String>) -> Option<Seq<char>> {
    match o {
        Some(s) => Some(s@),
        None => None,
    }
}

/// Whether `a` asks the question `label` with these notes, hint and default.
pub open spec fn asks(
    a: WizardAction,
    notes: Seq<(NoteKind, Seq<char>)>,
    hint: Option<Seq<char>>,
    label: Seq<char>,
    default: Seq<char>,
    hidden: bool,
) -> bool {
    a matches WizardAction::Ask { notes: n, hint: h, label: l, default: d, hidden: x } && note_views(n@)
        == notes && opt_text(h) == hint && l@ == label && d@ == default && x == hidden
}

/// Whether `a` shows these notes and exits with `code`.
pub open spec fn exits(a: WizardAction, notes: Seq<(NoteKind, Seq<char>)>, code: i32) -> bool {
    a matches WizardAction::Exit { notes: n, code: c } && note_views(n@) == notes && c == code
}

/// Whether `r` ends the wizard because input ended: nothing else changes.
pub open spec fn cancels(v: WizardView, r: (WizardState, WizardAction)) -> bool {
    &&& r.0.view() == at(v, WizardStage::Done)
    &&& exits(r.1, seq![(NoteKind::Warning, CANCELLED@)], 2)
}

/// The notes before the confirmation: the summary of what will be written.
pub open spec fn summary_notes(endpoint: Seq<char>, api_key: Seq<char>, env_key_set: bool, model: Seq<char>, language: Seq<char>) -> Seq<(NoteKind, Seq<char>)> {
    seq![
        (NoteKind::Normal, Seq::<char>::empty()),
        (NoteKind::Normal, "About to write "@ + DEFAULT_CONFIG_PATH@),
        (NoteKind::Normal, "  endpoint : "@ + endpoint),
        (NoteKind::Normal, "  api_key  : "@ + masked(api_key, env_key_set)),
        (NoteKind::Normal, "  model    : "@ + model),
        (NoteKind::Normal, "  language : "@ + if language.len() == 0 { "(model default)"@ } else { language }),
    ]
}

/// The notes listing the models fetched.
pub open spec fn model_notes(models: Seq<Seq<char>>) -> Seq<(NoteKind, Seq<char>)> {
    Seq::new(
        if models.len() > 30 { 31 } else { models.len() },
        |i: int| if i < 30 {
            (NoteKind::Normal, model_line(i as nat, models[i]))
        } else {
            (NoteKind::Normal, "  ... and "@ + decimal((models.len() - 30) as nat) + " more"@)
        },
    )
}

/// The text written: the template (the current file where it was read and
/// the configuration was usable, else the built-in one) with the four answers
/// substituted in.
pub open spec fn config_text(v: WizardView, current: Option<Seq<char>>) -> Seq<char> {
    let template = match current {
        Some(t) => if v.existing_usable { t } else { CONFIG_TEMPLATE@ },
        None => CONFIG_TEMPLATE@,
    };
    render_lines(
        lines(template),
        seq![],
        (
            toml_string_literal(v.endpoint),
            toml_string_literal(v.api_key),
            toml_string_literal(v.model),
            toml_string_literal(v.language),
        ),
    )
}

/// Whether `event` is what the action of `stage` brings back.
pub open spec fn fits(stage: WizardStage, event: WizardEvent) -> bool {
    match stage {
        WizardStage::Endpoint | WizardStage::ApiKey | WizardStage::Model | WizardStage::Language
        | WizardStage::Confirm => event is Line,
        WizardStage::Models => event matches WizardEvent::Models(m) && (m matches Ok(l) ==> l@.len() <= u32::MAX),
        WizardStage::Folder => event is FolderReady,
        WizardStage::Template => event is Template,
        WizardStage::Writing => event is Written,
        WizardStage::Restarting => event is Restarted,
        WizardStage::Done => false,
    }
}

/// A message.
fn note(kind: NoteKind, text: &str) -> (r: Note)
    ensures
        r.kind == kind,
        r.text@ == text@,
{
    Note { kind, text: text.to_owned() }
}

/// A message whose text is `a` then `b`.
fn note2(kind: NoteKind, a: &str, b: &str) -> (r: Note)
    ensures
        r.kind == kind,
        r.text@ == a@ + b@,
{
    let mut t = chars_of(a);
    append_str(&mut t, b);
    Note { kind, text: string_of(t.as_slice()) }
}

/// A message whose text is `a`, `b`, then `c`.
fn note3(kind: NoteKind, a: &str, b: &str, c: &str) -> (r: Note)
    ensures
        r.kind == kind,
        r.text@ == a@ + b@ + c@,
{
    let mut t = chars_of(a);
    append_str(&mut t, b);
    append_str(&mut t, c);
    Note { kind, text: string_of(t.as_slice()) }
}

/// The action ending the wizard because input ended.
fn cancel_action() -> (r: WizardAction)
    ensures
        exits(r, seq![(NoteKind::Warning, CANCELLED@)], 2),
{
    let notes = vec![note(NoteKind::Warning, CANCELLED)];
    assert(note_views(notes@) =~= seq![(NoteKind::Warning, CANCELLED@)]);
    WizardAction::Exit { notes, code: 2 }
}

/// The question for the API key.
fn ask_key(env_key_set: bool, default: String) -> (r: WizardAction)
    ensures
        asks(r, seq![], key_hint(env_key_set, default@), "API Key"@, default@, true),
{
    let hint = if env_key_set {
        Some(KEY_ENV_HINT.to_owned())
    } else if !default.as_str().is_empty() {
        Some(KEY_KEPT_HINT.to_owned())
    } else {
        None
    };
    let notes: Vec<Note> = Vec::new();
    assert(note_views(notes@) =~= seq![]);
    WizardAction::Ask { notes, hint, label: "API Key".to_owned(), default, hidden: true }
}

/// The wizard's first step: refused unless run as root, else it greets and
/// asks for the endpoint, offering the configured one.
pub fn wizard_begin(
    is_root: bool,
    existing: &BackendSchema,
    existing_usable: bool,
    env_key_set: bool,
) -> (r: (WizardState, WizardAction))
    ensures
        r.0.old_endpoint@ == existing.endpoint@,
        r.0.old_api_key@ == existing.api_key@,
        r.0.old_model@ == existing.model@,
        r.0.old_language@ == existing.language@,
        r.0.existing_usable == existing_usable,
        r.0.env_key_set == env_key_set,
        !is_root ==> r.0.stage == WizardStage::Done && exits(
            r.1,
            seq![
                (NoteKind::Error, "The wizard writes "@ + DEFAULT_CONFIG_PATH@ + " and must run as root."@),
                (NoteKind::Normal, "Run it with: sudo c setup"@),
            ],
            1,
        ),
        is_root ==> r.0.stage == WizardStage::Endpoint && asks(
            r.1,
            seq![
                (NoteKind::Normal, "cli-assistant setup — press Enter to accept the value in brackets."@),
                (NoteKind::Normal, Seq::<char>::empty()),
            ],
            Some(ENDPOINT_HINT@),
            "Endpoint"@,
            existing.endpoint@,
            false,
        ),
{
    let state = WizardState {
        stage: if is_root { WizardStage::Endpoint } else { WizardStage::Done },
        old_endpoint: existing.endpoint.clone(),
        old_api_key: existing.api_key.clone(),
        old_model: existing.model.clone(),
        old_language: existing.language.clone(),
        existing_usable,
        env_key_set,
        endpoint: String::new(),
        api_key: String::new(),
        models: Vec::new(),
        default_model: String::new(),
        model: String::new(),
        language: String::new(),
    };
    if !is_root {
        let notes = vec![
            note3(NoteKind::Error, "The wizard writes ", DEFAULT_CONFIG_PATH, " and must run as root."),
            note(NoteKind::Normal, "Run it with: sudo c setup"),
        ];
        assert(note_views(notes@) =~= seq![
            (NoteKind::Error, "The wizard writes "@ + DEFAULT_CONFIG_PATH@ + " and must run as root."@),
            (NoteKind::Normal, "Run it with: sudo c setup"@),
        ]);
        return (state, WizardAction::Exit { notes, code: 1 });
    }
    let notes = vec![
        note(NoteKind::Normal, "cli-assistant setup — press Enter to accept the value in brackets."),
        note(NoteKind::Normal, ""),
    ];
    proof {
        reveal_strlit("");
        assert(""@ =~= Seq::<char>::empty());
        assert(notes@[1].text@ =~= Seq::<char>::empty());
    }
    assert(note_views(notes@) =~= seq![
        (NoteKind::Normal, "cli-assistant setup — press Enter to accept the value in brackets."@),
        (NoteKind::Normal, Seq::<char>::empty()),
    ]);
    let default = existing.endpoint.clone();
    (state, WizardAction::Ask { notes, hint: Some(ENDPOINT_HINT.to_owned()), label: "Endpoint".to_owned(), default, hidden: false })
}


/// The key offered as the default.
pub open spec fn key_default_of(v: WizardView) -> Seq<char> {
    if v.env_key_set { Seq::<char>::empty() } else { v.old.1 }
}

/// The model offered as the default among `models`.
pub open spec fn default_model_of(models: Seq<Seq<char>>, configured: Seq<char>) -> Seq<char> {
    if models.len() == 0 || models.contains(configured) { configured } else { models[0] }
}

/// Messages as notes of one kind.
fn normal_notes(lines: Vec<String>) -> (r: Vec<Note>)
    ensures
        note_views(r@) == texts(lines@).map_values(|t: Seq<char>| (NoteKind::Normal, t)),
{
    let mut out: Vec<Note> = Vec::new();
    let mut i: usize = 0;
    while i < lines.len()
        invariant
            i <= lines.len(),
            note_views(out@) == texts(lines@.take(i as int)).map_values(|t: Seq<char>| (NoteKind::Normal, t)),
        decreases lines.len() - i,
    {
        out.push(note(NoteKind::Normal, lines[i].as_str()));
        assert(texts(lines@.take(i + 1)).map_values(|t: Seq<char>| (NoteKind::Normal, t)) =~= texts(
            lines@.take(i as int),
        ).map_values(|t: Seq<char>| (NoteKind::Normal, t)).push((NoteKind::Normal, lines@[i as int]@)));
        assert(note_views(out@) =~= note_views(out@.drop_last()).push((NoteKind::Normal, lines@[i as int]@)));
        i += 1;
    }
    assert(lines@.take(lines.len() as int) =~= lines@);
    out
}

/// One step of the wizard: what the last action brought back decides the
/// next state and action.
pub fn wizard_step(state: WizardState, event: WizardEvent) -> (r: (WizardState, WizardAction))
    requires
        fits(state.stage, event),
    ensures
        state.stage == WizardStage::Endpoint ==> match event {
            WizardEvent::Line(None) => cancels(state.view(), r),
            WizardEvent::Line(Some(a)) => {
                let v = if a@.len() == 0 { state.old_endpoint@ } else { a@ };
                if starts_with(v, "http://"@) || starts_with(v, "https://"@) {
                    &&& r.0.view() == WizardView { stage: WizardStage::ApiKey, endpoint: v, ..state.view() }
                    &&& asks(r.1, seq![], key_hint(state.env_key_set, key_default_of(state.view())), "API Key"@, key_default_of(state.view()), true)
                } else {
                    &&& r.0.view() == state.view()
                    &&& asks(r.1, seq![], Some(ENDPOINT_INVALID@), "Endpoint"@, state.old_endpoint@, false)
                }
            },
            _ => true,
        },
        state.stage == WizardStage::ApiKey ==> match event {
            WizardEvent::Line(None) => cancels(state.view(), r),
            WizardEvent::Line(Some(a)) => {
                let k = if a@.len() == 0 { key_default_of(state.view()) } else { a@ };
                &&& r.0.view() == WizardView { stage: WizardStage::Models, api_key: k, ..state.view() }
                &&& r.1 matches WizardAction::FetchModels { notes, endpoint, api_key }
                &&& note_views(notes@) == seq![(NoteKind::Info, "Querying "@ + endpoint_url(state.endpoint@, "/models"@) + " ..."@)]
                &&& endpoint@ == state.endpoint@
                &&& api_key@ == k
            },
            _ => true,
        },
        state.stage == WizardStage::Models ==> match event {
            WizardEvent::Models(Ok(list)) => {
                let dm = default_model_of(texts(list@), state.old_model@);
                &&& r.0.view() == WizardView { stage: WizardStage::Model, models: texts(list@), default_model: dm, ..state.view() }
                &&& asks(r.1, model_notes(texts(list@)), None, "Model"@, dm, false)
            },
            WizardEvent::Models(Err(e)) => {
                &&& r.0.view() == WizardView { stage: WizardStage::Model, models: seq![], default_model: state.old_model@, ..state.view() }
                &&& asks(
                    r.1,
                    seq![
                        (NoteKind::Warning, "Could not fetch the model list: "@ + e@),
                        (NoteKind::Normal, "Enter the model name manually."@),
                    ],
                    None,
                    "Model"@,
                    state.old_model@,
                    false,
                )
            },
            _ => true,
        },
        state.stage == WizardStage::Model ==> match event {
            WizardEvent::Line(None) => cancels(state.view(), r),
            WizardEvent::Line(Some(a)) => {
                &&& r.0.view() == WizardView {
                    stage: WizardStage::Language,
                    model: chosen_model(a@, texts(state.models@), state.default_model@),
                    ..state.view()
                }
                &&& asks(r.1, seq![], Some(LANGUAGE_HINT@), "Reply language"@, state.old_language@, false)
            },
            _ => true,
        },
        state.stage == WizardStage::Language ==> match event {
            WizardEvent::Line(None) => cancels(state.view(), r),
            WizardEvent::Line(Some(a)) => {
                let l = if a@.len() == 0 { state.old_language@ } else { a@ };
                &&& r.0.view() == WizardView { stage: WizardStage::Confirm, language: l, ..state.view() }
                &&& r.1 matches WizardAction::Confirm { notes, question }
                &&& note_views(notes@) == summary_notes(state.endpoint@, state.api_key@, state.env_key_set, state.model@, l)
                &&& question@ == CONFIRM_QUESTION@
            },
            _ => true,
        },
        state.stage == WizardStage::Confirm ==> match event {
            WizardEvent::Line(None) => cancels(state.view(), r),
            WizardEvent::Line(Some(a)) => if is_yes(a@) {
                &&& r.0.view() == at(state.view(), WizardStage::Folder)
                &&& r.1 is CreateFolder
            } else {
                &&& r.0.view() == at(state.view(), WizardStage::Done)
                &&& exits(r.1, seq![(NoteKind::Warning, DECLINED@)], 2)
            },
            _ => true,
        },
        state.stage == WizardStage::Folder ==> match event {
            WizardEvent::FolderReady(Ok(())) => {
                &&& r.0.view() == at(state.view(), WizardStage::Template)
                &&& r.1 is ReadTemplate
            },
            WizardEvent::FolderReady(Err(e)) => {
                &&& r.0.view() == at(state.view(), WizardStage::Done)
                &&& exits(r.1, seq![(NoteKind::Error, "Failed to create "@ + DEFAULT_CONFIG_DIR@ + ": "@ + e@)], 1)
            },
            _ => true,
        },
        state.stage == WizardStage::Template ==> match event {
            WizardEvent::Template(t) => {
                &&& r.0.view() == at(state.view(), WizardStage::Writing)
                &&& r.1 matches WizardAction::WriteConfig(c) && c@ == config_text(state.view(), opt_text(t))
            },
            _ => true,
        },
        state.stage == WizardStage::Writing ==> match event {
            WizardEvent::Written(Ok(())) => {
                &&& r.0.view() == at(state.view(), WizardStage::Restarting)
                &&& r.1 matches WizardAction::Restart { notes }
                &&& note_views(notes@) == seq![
                    (NoteKind::Normal, "Configuration written to "@ + DEFAULT_CONFIG_PATH@),
                    (NoteKind::Info, "Restarting clad.service ..."@),
                ]
            },
            WizardEvent::Written(Err(e)) => {
                &&& r.0.view() == at(state.view(), WizardStage::Done)
                &&& exits(r.1, seq![(NoteKind::Error, "Failed to write "@ + DEFAULT_CONFIG_PATH@ + ": "@ + e@)], 1)
            },
            _ => true,
        },
        state.stage == WizardStage::Restarting ==> {
            &&& r.0.view() == at(state.view(), WizardStage::Done)
            &&& match event {
                WizardEvent::Restarted(RestartOutcome::Restarted) => exits(
                    r.1,
                    seq![(NoteKind::Normal, "clad restarted. Try: c \"how do I check disk space?\""@)],
                    0,
                ),
                WizardEvent::Restarted(RestartOutcome::Failed(err)) => exits(
                    r.1,
                    seq![
                        (NoteKind::Error, "Failed to restart clad: "@ + trim(err@)),
                        (NoteKind::Normal, "Restart it manually: sudo systemctl restart clad"@),
                    ],
                    1,
                ),
                WizardEvent::Restarted(RestartOutcome::NotRun(err)) => exits(
                    r.1,
                    seq![
                        (NoteKind::Error, "Could not run systemctl: "@ + err@),
                        (NoteKind::Normal, "Restart the daemon manually: sudo systemctl restart clad"@),
                    ],
                    1,
                ),
                _ => true,
            }
        },
{
    let mut s = state;
    let ghost v0 = s.view();
    match s.stage {
        WizardStage::Endpoint => match event {
            WizardEvent::Line(None) => {
                s.stage = WizardStage::Done;
                (s, cancel_action())
            },
            WizardEvent::Line(Some(a)) => {
                let v = answer_or_default(a.as_str(), s.old_endpoint.as_str());
                if endpoint_is_valid(v.as_str()) {
                    s.stage = WizardStage::ApiKey;
                    s.endpoint = v;
                    let kd = key_default(s.env_key_set, s.old_api_key.as_str());
                    let act = ask_key(s.env_key_set, kd);
                    (s, act)
                } else {
                    let notes: Vec<Note> = Vec::new();
                    assert(note_views(notes@) =~= seq![]);
                    let d = s.old_endpoint.clone();
                    (s, WizardAction::Ask { notes, hint: Some(ENDPOINT_INVALID.to_owned()), label: "Endpoint".to_owned(), default: d, hidden: false })
                }
            },
            _ => {
                s.stage = WizardStage::Done;
                (s, cancel_action())
            },
        },
        WizardStage::ApiKey => match event {
            WizardEvent::Line(None) => {
                s.stage = WizardStage::Done;
                (s, cancel_action())
            },
            WizardEvent::Line(Some(a)) => {
                let kd = key_default(s.env_key_set, s.old_api_key.as_str());
                let k = answer_or_default(a.as_str(), kd.as_str());
                s.stage = WizardStage::Models;
                s.api_key = k;
                let probe = BackendSchema { endpoint: s.endpoint.clone(), ..BackendSchema::default() };
                let url = probe.models_url();
                let notes = vec![note3(NoteKind::Info, "Querying ", url.as_str(), " ...")];
                assert(note_views(notes@) =~= seq![(NoteKind::Info, "Querying "@ + endpoint_url(s.endpoint@, "/models"@) + " ..."@)]);
                let e = s.endpoint.clone();
                let k2 = s.api_key.clone();
                (s, WizardAction::FetchModels { notes, endpoint: e, api_key: k2 })
            },
            _ => {
                s.stage = WizardStage::Done;
                (s, cancel_action())
            },
        },
        WizardStage::Models => match event {
            WizardEvent::Models(Ok(list)) => {
                let dm = default_model(list.as_slice(), s.old_model.as_str());
                let lines = model_list_lines(list.as_slice());
                let notes = normal_notes(lines);
                proof {
                    assert(note_views(notes@) =~= model_notes(texts(list@)));
                }
                s.stage = WizardStage::Model;
                s.models = list;
                s.default_model = dm;
                let d = s.default_model.clone();
                (s, WizardAction::Ask { notes, hint: None, label: "Model".to_owned(), default: d, hidden: false })
            },
            WizardEvent::Models(Err(e)) => {
                let notes = vec![
                    note2(NoteKind::Warning, "Could not fetch the model list: ", e.as_str()),
                    note(NoteKind::Normal, "Enter the model name manually."),
                ];
                assert(note_views(notes@) =~= seq![
                    (NoteKind::Warning, "Could not fetch the model list: "@ + e@),
                    (NoteKind::Normal, "Enter the model name manually."@),
                ]);
                s.stage = WizardStage::Model;
                s.models = Vec::new();
                s.default_model = s.old_model.clone();
                proof {
                    assert(texts(s.models@) =~= Seq::<Seq<char>>::empty());
                }
                let d = s.old_model.clone();
                (s, WizardAction::Ask { notes, hint: None, label: "Model".to_owned(), default: d, hidden: false })
            },
            _ => {
                s.stage = WizardStage::Done;
                (s, cancel_action())
            },
        },
        WizardStage::Model => match event {
            WizardEvent::Line(None) => {
                s.stage = WizardStage::Done;
                (s, cancel_action())
            },
            WizardEvent::Line(Some(a)) => {
                s.model = select_model(a.as_str(), s.models.as_slice(), s.default_model.as_str());
                s.stage = WizardStage::Language;
                let notes: Vec<Note> = Vec::new();
                assert(note_views(notes@) =~= seq![]);
                let d = s.old_language.clone();
                (s, WizardAction::Ask { notes, hint: Some(LANGUAGE_HINT.to_owned()), label: "Reply language".to_owned(), default: d, hidden: false })
            },
            _ => {
                s.stage = WizardStage::Done;
                (s, cancel_action())
            },
        },
        WizardStage::Language => match event {
            WizardEvent::Line(None) => {
                s.stage = WizardStage::Done;
                (s, cancel_action())
            },
            WizardEvent::Line(Some(a)) => {
                s.language = answer_or_default(a.as_str(), s.old_language.as_str());
                s.stage = WizardStage::Confirm;
                let lines = summary_lines(s.endpoint.as_str(), s.api_key.as_str(), s.env_key_set, s.model.as_str(), s.language.as_str());
                assert(lines@[0]@ =~= Seq::<char>::empty());
                let ghost lv = texts(lines@);
                let notes = normal_notes(lines);
                proof {
                    assert(lv.len() == 6);
                    assert(note_views(notes@) =~= summary_notes(s.endpoint@, s.api_key@, s.env_key_set, s.model@, s.language@));
                }
                (s, WizardAction::Confirm { notes, question: CONFIRM_QUESTION.to_owned() })
            },
            _ => {
                s.stage = WizardStage::Done;
                (s, cancel_action())
            },
        },
        WizardStage::Confirm => match event {
            WizardEvent::Line(l) => {
                let answer = match &l {
                    Some(a) => confirm_answer(Some(a.as_str())),
                    None => confirm_answer(None),
                };
                match answer {
                    None => {
                        s.stage = WizardStage::Done;
                        (s, cancel_action())
                    },
                    Some(true) => {
                        s.stage = WizardStage::Folder;
                        (s, WizardAction::CreateFolder)
                    },
                    Some(false) => {
                        s.stage = WizardStage::Done;
                        let notes = vec![note(NoteKind::Warning, DECLINED)];
                        assert(note_views(notes@) =~= seq![(NoteKind::Warning, DECLINED@)]);
                        (s, WizardAction::Exit { notes, code: 2 })
                    },
                }
            },
            _ => {
                s.stage = WizardStage::Done;
                (s, cancel_action())
            },
        },
        WizardStage::Folder => match event {
            WizardEvent::FolderReady(Ok(())) => {
                s.stage = WizardStage::Template;
                (s, WizardAction::ReadTemplate)
            },
            WizardEvent::FolderReady(Err(e)) => {
                s.stage = WizardStage::Done;
                let notes = vec![note3(NoteKind::Error, "Failed to create ", DEFAULT_CONFIG_DIR, ": ")];
                let mut t = chars_of(notes[0].text.as_str());
                append_str(&mut t, e.as_str());
                let notes = vec![Note { kind: NoteKind::Error, text: string_of(t.as_slice()) }];
                assert(note_views(notes@) =~= seq![(NoteKind::Error, "Failed to create "@ + DEFAULT_CONFIG_DIR@ + ": "@ + e@)]);
                (s, WizardAction::Exit { notes, code: 1 })
            },
            _ => {
                s.stage = WizardStage::Done;
                (s, cancel_action())
            },
        },
        WizardStage::Template => match event {
            WizardEvent::Template(t) => {
                let values = wizard_backend(s.endpoint.clone(), s.api_key.clone(), s.model.clone(), s.language.clone());
                let text = match &t {
                    Some(current) => if s.existing_usable {
                        values.render_into_template(current.as_str())
                    } else {
                        values.render_into_template(default_config_template())
                    },
                    None => values.render_into_template(default_config_template()),
                };
                s.stage = WizardStage::Writing;
                (s, WizardAction::WriteConfig(text))
            },
            _ => {
                s.stage = WizardStage::Done;
                (s, cancel_action())
            },
        },
        WizardStage::Writing => match event {
            WizardEvent::Written(Ok(())) => {
                s.stage = WizardStage::Restarting;
                let notes = vec![
                    note2(NoteKind::Normal, "Configuration written to ", DEFAULT_CONFIG_PATH),
                    note(NoteKind::Info, "Restarting clad.service ..."),
                ];
                assert(note_views(notes@) =~= seq![
                    (NoteKind::Normal, "Configuration written to "@ + DEFAULT_CONFIG_PATH@),
                    (NoteKind::Info, "Restarting clad.service ..."@),
                ]);
                (s, WizardAction::Restart { notes })
            },
            WizardEvent::Written(Err(e)) => {
                s.stage = WizardStage::Done;
                let mut t = chars_of("Failed to write ");
                append_str(&mut t, DEFAULT_CONFIG_PATH);
                append_str(&mut t, ": ");
                append_str(&mut t, e.as_str());
                let notes = vec![Note { kind: NoteKind::Error, text: string_of(t.as_slice()) }];
                assert(note_views(notes@) =~= seq![(NoteKind::Error, "Failed to write "@ + DEFAULT_CONFIG_PATH@ + ": "@ + e@)]);
                (s, WizardAction::Exit { notes, code: 1 })
            },
            _ => {
                s.stage = WizardStage::Done;
                (s, cancel_action())
            },
        },
        WizardStage::Restarting => {
            s.stage = WizardStage::Done;
            match event {
                WizardEvent::Restarted(RestartOutcome::Restarted) => {
                    let notes = vec![note(NoteKind::Normal, "clad restarted. Try: c \"how do I check disk space?\"")];
                    assert(note_views(notes@) =~= seq![(NoteKind::Normal, "clad restarted. Try: c \"how do I check disk space?\""@)]);
                    (s, WizardAction::Exit { notes, code: 0 })
                },
                WizardEvent::Restarted(RestartOutcome::Failed(err)) => {
                    let ev = chars_of(err.as_str());
                    let tv = trim_chars(ev.as_slice());
                    let ts = string_of(tv.as_slice());
                    let notes = vec![
                        note2(NoteKind::Error, "Failed to restart clad: ", ts.as_str()),
                        note(NoteKind::Normal, "Restart it manually: sudo systemctl restart clad"),
                    ];
                    assert(note_views(notes@) =~= seq![
                        (NoteKind::Error, "Failed to restart clad: "@ + trim(err@)),
                        (NoteKind::Normal, "Restart it manually: sudo systemctl restart clad"@),
                    ]);
                    (s, WizardAction::Exit { notes, code: 1 })
                },
                WizardEvent::Restarted(RestartOutcome::NotRun(err)) => {
                    let notes = vec![
                        note2(NoteKind::Error, "Could not run systemctl: ", err.as_str()),
                        note(NoteKind::Normal, "Restart the daemon manually: sudo systemctl restart clad"),
                    ];
                    assert(note_views(notes@) =~= seq![
                        (NoteKind::Error, "Could not run systemctl: "@ + err@),
                        (NoteKind::Normal, "Restart the daemon manually: sudo systemctl restart clad"@),
                    ]);
                    (s, WizardAction::Exit { notes, code: 1 })
                },
                _ => (s, cancel_action()),
            }
        },
        WizardStage::Done => (s, cancel_action()),
    }
}

} // verus!
