//! Configuration schema, its defaults, and the rendering of the setup
//! wizard's values into a configuration template.
//!
//! The file itself is read and parsed at the edge of the program; here the
//! configuration is plain values. File paths are held as text, the sampling
//! temperature by the bits of its `f32`.
use vstd::prelude::*;
use crate::text::{
    append_chars, append_str, chars_eq, chars_of, find, find_char, lines, slice_chars,
    split_lines, starts_with, string_of, trim, trim_chars, trim_end_char, trim_end_char_chars,
    trim_start, trim_start_char, trim_start_char_chars, trim_start_chars,
};

verus! {

/// TLS authentication for the backend endpoint.
#[derive(Clone, Debug)]
pub struct AuthSchema {
    /// Client certificate PEM file.
    pub cert_file: String,
    /// Client private key PEM file.
    pub key_file: String,
}

impl Default for AuthSchema {
    fn default() -> (r: Self)
        ensures
            r.cert_file@ == "/etc/pki/consumer/cert.pem"@,
            r.key_file@ == "/etc/pki/consumer/key.pem"@,
    {
        AuthSchema {
            cert_file: "/etc/pki/consumer/cert.pem".to_owned(),
            key_file: "/etc/pki/consumer/key.pem".to_owned(),
        }
    }
}

/// The system prompt used when the configuration sets none.
pub const DEFAULT_PROMPT: &'static str = "You are a command-line assistant for Linux system administration. Answer concisely and accurately, and prefer standard, widely available tools. Keep commands copy-pasteable; before any destructive or irreversible step, explain what it does and call out the risk. If a request is ambiguous, state your assumption briefly and answer the most likely intent.";

/// The bits of the default sampling temperature, `0.3_f32`.
pub const DEFAULT_TEMPERATURE_BITS: u32 = 0x3e99999a;

/// Backend service connection settings for an OpenAI-compatible API. The
/// endpoint includes the version path; `/chat/completions` is appended.
#[derive(Clone, Debug)]
pub struct BackendSchema {
    /// Base URL of the API endpoint.
    pub endpoint: String,
    /// Model name.
    pub model: String,
    /// API key (`Bearer` token); `CL_API_KEY` takes precedence.
    pub api_key: String,
    /// System prompt prepended to every conversation.
    pub prompt: String,
    /// Maximum tokens in the response.
    pub max_tokens: u32,
    /// Model context window in tokens; drives history compaction.
    pub context_length: u32,
    /// Sampling temperature, as the bits of an `f32`.
    pub temperature: u32,
    /// Reply language; empty lets the model decide.
    pub language: String,
    /// TLS authentication settings.
    pub auth: AuthSchema,
    /// Request timeout in seconds.
    pub timeout: u64,
    /// Proxies, protocol to URL, ordered by protocol.
    pub proxies: Vec<(String, String)>,
}

impl Default for BackendSchema {
    fn default() -> (r: Self)
        ensures
            r.endpoint@ == "https://api.deepseek.com/v1"@,
            r.model@ == "deepseek-v4-flash"@,
            r.api_key@ == Seq::<char>::empty(),
            r.prompt@ == DEFAULT_PROMPT@,
            r.max_tokens == 32768,
            r.context_length == 256000,
            r.temperature == DEFAULT_TEMPERATURE_BITS,
            r.language@ == Seq::<char>::empty(),
            r.auth.cert_file@ == "/etc/pki/consumer/cert.pem"@,
            r.auth.key_file@ == "/etc/pki/consumer/key.pem"@,
            r.timeout == 120,
            r.proxies@.len() == 0,
    {
        BackendSchema {
            endpoint: "https://api.deepseek.com/v1".to_owned(),
            model: "deepseek-v4-flash".to_owned(),
            api_key: String::new(),
            prompt: DEFAULT_PROMPT.to_owned(),
            max_tokens: 32768,
            context_length: 256000,
            temperature: DEFAULT_TEMPERATURE_BITS,
            language: String::new(),
            auth: AuthSchema::default(),
            timeout: 120,
            proxies: Vec::new(),
        }
    }
}

/// The URL `suffix` appended to `endpoint` without its trailing slashes.
pub open spec fn endpoint_url(endpoint: Seq<char>, suffix: Seq<char>) -> Seq<char> {
    trim_end_char(endpoint, '/') + suffix
}

/// The system prompt, with the reply language appended when one is set.
pub open spec fn prompt_with_language(prompt: Seq<char>, language: Seq<char>) -> Seq<char> {
    if language.len() == 0 {
        prompt
    } else {
        prompt + "\n\nAlways reply in "@ + language + "."@
    }
}

/// The API key in effect: the environment's when set and non-empty, else the
/// configured one.
pub open spec fn api_key_in_effect(configured: Seq<char>, env: Option<Seq<char>>) -> Seq<char> {
    match env {
        Some(k) => if k.len() > 0 {
            k
        } else {
            configured
        },
        None => configured,
    }
}

/// The four values the setup wizard manages, each as a TOML string literal.
pub struct TemplateLiterals {
    pub endpoint: String,
    pub api_key: String,
    pub model: String,
    pub language: String,
}

/// The literals for `endpoint`, `api_key`, `model` and `language`, in that
/// order.
pub type Literals = (Seq<char>, Seq<char>, Seq<char>, Seq<char>);

impl View for TemplateLiterals {
    type V = (Seq<char>, Seq<char>, Seq<char>, Seq<char>);

    open spec fn view(&self) -> (Seq<char>, Seq<char>, Seq<char>, Seq<char>) {
        (self.endpoint@, self.api_key@, self.model@, self.language@)
    }
}

/// The literal that replaces the value of `key`, where `key` is one of the
/// wizard's keys.
pub open spec fn literal_for(key: Seq<char>, lits: Literals) -> Option<Seq<char>> {
    if key == "endpoint"@ {
        Some(lits.0)
    } else if key == "api_key"@ {
        Some(lits.1)
    } else if key == "model"@ {
        Some(lits.2)
    } else if key == "language"@ {
        Some(lits.3)
    } else {
        None
    }
}

/// The section named by a header line `trimmed` (which begins with `[`): the
/// text after the opening brackets up to the first `]`.
pub open spec fn section_name(trimmed: Seq<char>) -> Seq<char> {
    let t = trim_start_char(trimmed, '[');
    match find(t, seq![']']) {
        Some(p) => t.take(p as int),
        None => t,
    }
}

/// The key of an assignment line `trimmed`: the trimmed text before its first
/// `=`, if it has one.
pub open spec fn assignment_key(trimmed: Seq<char>) -> Option<Seq<char>> {
    match find(trimmed, seq!['=']) {
        Some(p) => Some(trim(trimmed.take(p as int))),
        None => None,
    }
}

/// The replacement for `line` in section `section`, if the line assigns one
/// of the wizard's keys inside `[backend]`: the line's indentation, the key,
/// ` = ` and the literal.
pub open spec fn replaced_line(line: Seq<char>, section: Seq<char>, lits: Literals) -> Option<Seq<char>> {
    let trimmed = trim_start(line);
    if starts_with(trimmed, seq!['[']) || section != "backend"@ || starts_with(trimmed, seq!['#']) {
        None
    } else {
        match assignment_key(trimmed) {
            None => None,
            Some(key) => match literal_for(key, lits) {
                None => None,
                Some(lit) => Some(line.take(line.len() - trimmed.len()) + key + " = "@ + lit),
            },
        }
    }
}

/// The section in effect after `line`.
pub open spec fn next_section(line: Seq<char>, section: Seq<char>) -> Seq<char> {
    let trimmed = trim_start(line);
    if starts_with(trimmed, seq!['[']) {
        section_name(trimmed)
    } else {
        section
    }
}

/// The rendering of template lines `ls` starting in section `section`: every
/// line copied with a newline, except assignments of the wizard's keys in
/// `[backend]`, which are rewritten with the new literal.
pub open spec fn render_lines(ls: Seq<Seq<char>>, section: Seq<char>, lits: Literals) -> Seq<char>
    decreases ls.len(),
{
    if ls.len() == 0 {
        seq![]
    } else {
        let out = match replaced_line(ls[0], section, lits) {
            Some(r) => r,
            None => ls[0],
        };
        out + seq!['\n'] + render_lines(ls.drop_first(), next_section(ls[0], section), lits)
    }
}

/// A name for what the `toml` crate writes for a string value: the TOML
/// string literal that reads back as `s`.
pub uninterp spec fn toml_string_literal(s: Seq<char>) -> Seq<char>;

/// `toml::Value::String(s).to_string()`: the TOML literal for `s`, quoted and
/// escaped by the `toml` crate. The contract only names the result.
#[verifier::external_body]
fn toml_literal(s: &str) -> (r: String)
    ensures
        r@ == toml_string_literal(s@),
{
    toml::Value::String(s.to_string()).to_string()
}

impl BackendSchema {
    /// Resolve the effective API key from the configured value and the value
    /// of `CL_API_KEY`, which takes precedence when set and non-empty.
    pub fn effective_api_key(&self, env_key: Option<&str>) -> (r: String)
        ensures
            r@ == api_key_in_effect(
                self.api_key@,
                match env_key {
                    Some(k) => Some(k@),
                    None => None,
                },
            ),
    {
        match env_key {
            Some(k) => if !k.is_empty() {
                k.to_owned()
            } else {
                self.api_key.clone()
            },
            None => self.api_key.clone(),
        }
    }

    /// The full chat completions endpoint URL.
    pub fn chat_completions_url(&self) -> (r: String)
        ensures
            r@ == endpoint_url(self.endpoint@, "/chat/completions"@),
    {
        let e = chars_of(self.endpoint.as_str());
        let mut out = trim_end_char_chars(e.as_slice(), '/');
        append_str(&mut out, "/chat/completions");
        string_of(out.as_slice())
    }

    /// The model listing endpoint URL.
    pub fn models_url(&self) -> (r: String)
        ensures
            r@ == endpoint_url(self.endpoint@, "/models"@),
    {
        let e = chars_of(self.endpoint.as_str());
        let mut out = trim_end_char_chars(e.as_slice(), '/');
        append_str(&mut out, "/models");
        string_of(out.as_slice())
    }

    /// The system prompt, with an instruction to reply in the configured
    /// language when one is set.
    pub fn effective_prompt(&self) -> (r: String)
        ensures
            r@ == prompt_with_language(self.prompt@, self.language@),
    {
        if self.language.as_str().is_empty() {
            return self.prompt.clone();
        }
        let mut out = chars_of(self.prompt.as_str());
        append_str(&mut out, "\n\nAlways reply in ");
        append_str(&mut out, self.language.as_str());
        append_str(&mut out, ".");
        string_of(out.as_slice())
    }

    /// Render `template` with the wizard-managed values substituted in: only
    /// `endpoint`, `api_key`, `model` and `language` inside `[backend]` are
    /// replaced, by escaped TOML string literals; every other line is copied.
    pub fn render_into_template(&self, template: &str) -> (r: String)
        ensures
            r@ == render_lines(
                lines(template@),
                seq![],
                (
                    toml_string_literal(self.endpoint@),
                    toml_string_literal(self.api_key@),
                    toml_string_literal(self.model@),
                    toml_string_literal(self.language@),
                ),
            ),
    {
        let lits = TemplateLiterals {
            endpoint: toml_literal(self.endpoint.as_str()),
            api_key: toml_literal(self.api_key.as_str()),
            model: toml_literal(self.model.as_str()),
            language: toml_literal(self.language.as_str()),
        };
        render_with_literals(template, &lits)
    }
}

/// Render `template` with the given TOML literals (see `render_lines`).
pub fn render_with_literals(template: &str, lits: &TemplateLiterals) -> (r: String)
    ensures
        r@ == render_lines(lines(template@), seq![], lits@),
{
    let t = chars_of(template);
    let ls = split_lines(t.as_slice());
    let ghost all = lines(template@);
    let backend = chars_of("backend");
    let mut section: Vec<char> = Vec::new();
    let mut out: Vec<char> = Vec::new();
    let mut i: usize = 0;
    assert(all.skip(0) =~= all);
    assert(section@ =~= seq![]);
    while i < ls.len()
        invariant
            i <= ls.len(),
            ls@.len() == all.len(),
            forall|j: int| 0 <= j < ls@.len() ==> #[trigger] ls@[j]@ == all[j],
            backend@ == "backend"@,
            render_lines(all, seq![], lits@) == out@ + render_lines(all.skip(i as int), section@, lits@),
        decreases ls.len() - i,
    {
        let line = &ls[i];
        let ghost rest = all.skip(i as int);
        assert(rest[0] == line@);
        assert(rest.drop_first() =~= all.skip(i + 1));
        let replaced = replace_line(line.as_slice(), section.as_slice(), backend.as_slice(), lits);
        match replaced {
            Some(r) => append_chars(&mut out, r.as_slice()),
            None => append_chars(&mut out, line.as_slice()),
        }
        out.push('\n');
        let trimmed = trim_start_chars(line.as_slice());
        proof {
            lemma_starts_with_char(trimmed@, '[');
        }
        if trimmed.len() > 0 && trimmed[0] == '[' {
            section = section_of(trimmed.as_slice());
        }
        i += 1;
    }
    assert(all.skip(i as int) =~= Seq::<Seq<char>>::empty());
    assert(out@ + Seq::<char>::empty() =~= out@);
    string_of(out.as_slice())
}

/// Whether `s` begins with `c`.
pub proof fn lemma_starts_with_char(s: Seq<char>, c: char)
    ensures
        starts_with(s, seq![c]) <==> (s.len() > 0 && s[0] == c),
{
    if s.len() > 0 && s[0] == c {
        assert(s.subrange(0, 1) =~= seq![c]);
    }
    if starts_with(s, seq![c]) {
        assert(s.subrange(0, 1)[0] == s[0]);
        assert(seq![c][0] == c);
    }
}

/// The section named by a header line (see `section_name`).
fn section_of(trimmed: &[char]) -> (r: Vec<char>)
    ensures
        r@ == section_name(trimmed@),
{
    let t = trim_start_char_chars(trimmed, '[');
    match find_char(t.as_slice(), ']', 0) {
        Some(p) => {
            let r = slice_chars(t.as_slice(), 0, p);
            assert(r@ =~= t@.take(p as int));
            r
        },
        None => t,
    }
}

/// The literal for a wizard key (see `literal_for`).
fn literal_of<'a>(key: &[char], lits: &'a TemplateLiterals) -> (r: Option<&'a String>)
    ensures
        match r {
            Some(l) => literal_for(key@, lits@) == Some(l@),
            None => literal_for(key@, lits@) is None,
        },
{
    let e = chars_of("endpoint");
    let a = chars_of("api_key");
    let m = chars_of("model");
    let l = chars_of("language");
    if chars_eq(key, e.as_slice()) {
        Some(&lits.endpoint)
    } else if chars_eq(key, a.as_slice()) {
        Some(&lits.api_key)
    } else if chars_eq(key, m.as_slice()) {
        Some(&lits.model)
    } else if chars_eq(key, l.as_slice()) {
        Some(&lits.language)
    } else {
        None
    }
}

/// The replacement for one template line (see `replaced_line`).
fn replace_line(line: &[char], section: &[char], backend: &[char], lits: &TemplateLiterals) -> (r: Option<Vec<char>>)
    requires
        backend@ == "backend"@,
    ensures
        match r {
            Some(x) => replaced_line(line@, section@, lits@) == Some(x@),
            None => replaced_line(line@, section@, lits@) is None,
        },
{
    let trimmed = trim_start_chars(line);
    let header = trimmed.len() > 0 && trimmed[0] == '[';
    let comment = trimmed.len() > 0 && trimmed[0] == '#';
    proof {
        lemma_starts_with_char(trimmed@, '[');
        lemma_starts_with_char(trimmed@, '#');
    }
    if header || !chars_eq(section, backend) || comment {
        return None;
    }
    match find_char(trimmed.as_slice(), '=', 0) {
        None => None,
        Some(p) => {
            let before = slice_chars(trimmed.as_slice(), 0, p);
            assert(before@ =~= trimmed@.take(p as int));
            let key = trim_chars(before.as_slice());
            match literal_of(key.as_slice(), lits) {
                None => None,
                Some(lit) => {
                    proof {
                        crate::text::lemma_trim_start_suffix(line@);
                    }
                    let mut out = slice_chars(line, 0, line.len() - trimmed.len());
                    assert(out@ =~= line@.take(line@.len() - trimmed@.len()));
                    append_chars(&mut out, key.as_slice());
                    append_str(&mut out, " = ");
                    append_str(&mut out, lit.as_str());
                    Some(out)
                },
            }
        },
    }
}

/// Trailing slashes on the endpoint do not change the URLs built from it.
pub proof fn lemma_url_ignores_trailing_slash(endpoint: Seq<char>, suffix: Seq<char>)
    ensures
        endpoint_url(endpoint.push('/'), suffix) == endpoint_url(endpoint, suffix),
{
    assert(endpoint.push('/').drop_last() =~= endpoint);
}

/// `ls` with a newline after each line.
pub open spec fn joined_lines(ls: Seq<Seq<char>>) -> Seq<char>
    decreases ls.len(),
{
    if ls.len() == 0 {
        seq![]
    } else {
        ls[0] + seq!['\n'] + joined_lines(ls.drop_first())
    }
}

/// Outside `[backend]`, rendering copies every line: a template without
/// section headers, read outside the backend section, comes out line for
/// line as it went in.
pub proof fn lemma_render_copies_other_sections(ls: Seq<Seq<char>>, section: Seq<char>, lits: Literals)
    requires
        section != "backend"@,
        forall|i: int| 0 <= i < ls.len() ==> !starts_with(trim_start(#[trigger] ls[i]), seq!['[']),
    ensures
        render_lines(ls, section, lits) == joined_lines(ls),
    decreases ls.len(),
{
    if ls.len() > 0 {
        assert(!starts_with(trim_start(ls[0]), seq!['[']));
        assert forall|i: int| 0 <= i < ls.drop_first().len() implies !starts_with(trim_start(#[trigger] ls.drop_first()[i]), seq!['[']) by {
            assert(ls.drop_first()[i] == ls[i + 1]);
        }
        lemma_render_copies_other_sections(ls.drop_first(), section, lits);
    }
}

/// Database connection settings (SQLite).
#[derive(Clone, Debug)]
pub struct DatabaseSchema {
    /// Path to the SQLite database file.
    pub path: String,
}

impl Default for DatabaseSchema {
    fn default() -> (r: Self)
        ensures
            r.path@ == "/var/lib/cli-assistant/cla.db"@,
    {
        DatabaseSchema { path: "/var/lib/cli-assistant/cla.db".to_owned() }
    }
}

/// History feature settings.
#[derive(Clone, Copy, Debug, PartialEq, Eq, Structural)]
pub struct HistorySchema {
    /// Whether history recording is enabled.
    pub enabled: bool,
}

impl Default for HistorySchema {
    fn default() -> (r: Self)
        ensures
            r.enabled,
    {
        HistorySchema { enabled: true }
    }
}

/// Audit logging settings.
#[derive(Clone, Copy, Debug, PartialEq, Eq, Structural)]
pub struct AuditSchema {
    /// Whether audit logging is enabled.
    pub enabled: bool,
}

impl Default for AuditSchema {
    fn default() -> (r: Self)
        ensures
            r.enabled,
    {
        AuditSchema { enabled: true }
    }
}

/// Logging configuration.
#[derive(Clone, Debug)]
pub struct LoggingSchema {
    /// Log level (TRACE, DEBUG, INFO, WARN, ERROR).
    pub level: String,
    /// Audit logging settings.
    pub audit: AuditSchema,
}

impl Default for LoggingSchema {
    fn default() -> (r: Self)
        ensures
            r.level@ == "INFO"@,
            r.audit.enabled,
    {
        LoggingSchema { level: "INFO".to_owned(), audit: AuditSchema::default() }
    }
}

/// Top-level application configuration, one field per TOML table.
#[derive(Clone, Debug)]
pub struct AppConfig {
    pub backend: BackendSchema,
    pub database: DatabaseSchema,
    pub history: HistorySchema,
    pub logging: LoggingSchema,
}

impl Default for AppConfig {
    fn default() -> (r: Self)
        ensures
            r.backend.endpoint@ == "https://api.deepseek.com/v1"@,
            r.backend.model@ == "deepseek-v4-flash"@,
            r.backend.api_key@ == Seq::<char>::empty(),
            r.backend.prompt@ == DEFAULT_PROMPT@,
            r.backend.max_tokens == 32768,
            r.backend.context_length == 256000,
            r.backend.temperature == DEFAULT_TEMPERATURE_BITS,
            r.backend.language@ == Seq::<char>::empty(),
            r.backend.timeout == 120,
            r.backend.proxies@.len() == 0,
            r.database.path@ == "/var/lib/cli-assistant/cla.db"@,
            r.history.enabled,
            r.logging.level@ == "INFO"@,
            r.logging.audit.enabled,
    {
        AppConfig {
            backend: BackendSchema::default(),
            database: DatabaseSchema::default(),
            history: HistorySchema::default(),
            logging: LoggingSchema::default(),
        }
    }
}

/// The built-in configuration template, with the documented defaults and
/// their comments.
pub const CONFIG_TEMPLATE: &'static str = "# cli-assistant configuration\n#\n# Written by `sudo c setup`; restart clad after editing by hand\n# (`sudo systemctl restart clad`).\n\n# ── Backend (OpenAI-compatible API) ─────────────────────────────\n[backend]\n# Base URL of the OpenAI-compatible API, including the version path.\n# The client appends /chat/completions.\nendpoint = \"https://api.deepseek.com/v1\"\n# Model name.\nmodel = \"deepseek-v4-flash\"\n# API key (Bearer token). CL_API_KEY takes precedence when set.\napi_key = \"\"\n# System prompt prepended to every conversation.\nprompt = \"You are a command-line assistant for Linux system administration. Answer concisely and accurately, and prefer standard, widely available tools. Keep commands copy-pasteable; before any destructive or irreversible step, explain what it does and call out the risk. If a request is ambiguous, state your assumption briefly and answer the most likely intent.\"\n# Reply language (e.g. zh-CN, en, ja); empty lets the model decide.\nlanguage = \"\"\n# Maximum tokens in the response.\nmax_tokens = 32768\n# Model context window in tokens (drives history compaction).\ncontext_length = 256000\n# Sampling temperature (0.0-2.0).\ntemperature = 0.3\n# Request timeout in seconds.\ntimeout = 120\n\n# ── Database (SQLite) ───────────────────────────────────────────\n[database]\npath = \"/var/lib/cli-assistant/cla.db\"\n\n# ── History ─────────────────────────────────────────────────────\n[history]\nenabled = true\n\n# ── Logging ─────────────────────────────────────────────────────\n[logging]\nlevel = \"INFO\"\n\n[logging.audit]\nenabled = true\n";

/// The built-in configuration template, used when no configuration file
/// exists yet.
pub fn default_config_template() -> (r: &'static str)
    ensures
        r@ == CONFIG_TEMPLATE@,
{
    CONFIG_TEMPLATE
}

} // verus!
