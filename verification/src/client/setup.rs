//! The setup wizard's decisions: whether the client is configured, the
//! answers to its questions, the model list, and the values it writes.
use vstd::prelude::*;
use crate::config::{AppConfig, BackendSchema, DEFAULT_PROMPT, DEFAULT_TEMPERATURE_BITS};
use crate::constants::DEFAULT_CONFIG_PATH;
use crate::errors::{error_text, ClaError};
use crate::json::{as_text, get, get_key, text_of, JsonValue};
use crate::rendering::renderer::{Printed, Renderer};
use crate::session::{decimal, decimal_text};
use crate::text::{append_chars, append_str, chars_eq, chars_of, slice_chars, starts_with, starts_with_chars, string_of};

verus! {

/// Maximum number of models shown in the selection list.
pub const MAX_MODELS_SHOWN: usize = 30;

// ---------------------------------------------------------------------------
// Whether the client is configured
// ---------------------------------------------------------------------------

/// A warning as the renderer shows it.
pub open spec fn warned(renderer: Renderer, message: Seq<char>) -> Seq<char> {
    crate::rendering::renderer::decorated(renderer.plain, "🤔 "@, message, renderer.theme.warning, renderer.theme.no_color)
}

/// Guard for commands that need a working backend: the exit code when the
/// client must stop, `None` when it may go on, with what to print. A
/// non-empty `CL_API_KEY` suffices; otherwise the configuration file must
/// exist, parse, and hold an API key.
pub fn check_configured(renderer: &Renderer, env_key_set: bool, config_exists: bool, loaded: &Result<AppConfig, ClaError>) -> (r: (Vec<Printed>, Option<i32>))
    ensures
        env_key_set ==> r.0@.len() == 0 && r.1 is None,
        !env_key_set && !config_exists ==> r.1 == Some(1i32) && r.0@.len() == 2
            && (r.0@[0] matches Printed::Stderr(s) && s@ == warned(*renderer, "No configuration found at "@ + DEFAULT_CONFIG_PATH@ + "."@))
            && (r.0@[1] matches Printed::Stdout(s) && s@ == "Run `sudo c setup` to configure the endpoint, API key and model."@),
        !env_key_set && config_exists ==> match loaded {
            Ok(c) => if c.backend.api_key@.len() > 0 {
                r.0@.len() == 0 && r.1 is None
            } else {
                &&& r.1 == Some(1i32)
                &&& r.0@.len() == 2
                &&& r.0@[0] matches Printed::Stderr(s) && s@ == warned(*renderer, "No API key configured."@)
                &&& r.0@[1] matches Printed::Stdout(s) && s@ == "Run `sudo c setup` to finish setup, or set CL_API_KEY."@
            },
            Err(e) => r.1 == Some(1i32) && r.0@.len() == 2 && (r.0@[0] matches Printed::Stderr(s)
                && s@ == crate::rendering::renderer::decorated(
                renderer.plain,
                "🙁 "@,
                "Failed to parse "@ + DEFAULT_CONFIG_PATH@ + ": "@ + error_text(*e),
                renderer.theme.error,
                renderer.theme.no_color,
            )) && (r.0@[1] matches Printed::Stdout(s) && s@ == "Fix the file or re-run `sudo c setup`."@),
        },
{
    let mut out: Vec<Printed> = Vec::new();
    if env_key_set {
        return (out, None);
    }
    if !config_exists {
        let mut m = chars_of("No configuration found at ");
        append_str(&mut m, DEFAULT_CONFIG_PATH);
        append_str(&mut m, ".");
        let s = string_of(m.as_slice());
        out.push(renderer.warning(s.as_str()));
        out.push(renderer.normal("Run `sudo c setup` to configure the endpoint, API key and model."));
        return (out, Some(1));
    }
    match loaded {
        Ok(config) => {
            if !config.backend.api_key.as_str().is_empty() {
                (out, None)
            } else {
                out.push(renderer.warning("No API key configured."));
                out.push(renderer.normal("Run `sudo c setup` to finish setup, or set CL_API_KEY."));
                (out, Some(1))
            }
        },
        Err(e) => {
            let mut m = chars_of("Failed to parse ");
            append_str(&mut m, DEFAULT_CONFIG_PATH);
            append_str(&mut m, ": ");
            let et = e.to_string();
            append_str(&mut m, et.as_str());
            let s = string_of(m.as_slice());
            out.push(renderer.error(s.as_str()));
            out.push(renderer.normal("Fix the file or re-run `sudo c setup`."));
            (out, Some(1))
        },
    }
}

/// Input ended during the wizard: a warning, and exit code 2.
pub fn cancelled(renderer: &Renderer) -> (r: (Printed, i32))
    ensures
        r.1 == 2,
        r.0 matches Printed::Stderr(s) && s@ == crate::rendering::renderer::decorated(
            renderer.plain,
            "🤔 "@,
            "Input ended; setup cancelled."@,
            renderer.theme.warning,
            renderer.theme.no_color,
        ),
{
    (renderer.warning("Input ended; setup cancelled."), 2)
}

// ---------------------------------------------------------------------------
// Answers
// ---------------------------------------------------------------------------

/// An endpoint is accepted when it starts with `http://` or `https://`.
pub fn endpoint_is_valid(v: &str) -> (r: bool)
    ensures
        r == (starts_with(v@, "http://"@) || starts_with(v@, "https://"@)),
{
    let c = chars_of(v);
    let h = chars_of("http://");
    let hs = chars_of("https://");
    starts_with_chars(c.as_slice(), h.as_slice()) || starts_with_chars(c.as_slice(), hs.as_slice())
}

/// The answer to a question, the default when left empty.
pub fn answer_or_default(answer: &str, default: &str) -> (r: String)
    ensures
        r@ == if answer@.len() == 0 { default@ } else { answer@ },
{
    if answer.is_empty() {
        default.to_owned()
    } else {
        answer.to_owned()
    }
}

/// The default offered for the API key: none when `CL_API_KEY` is set (it
/// takes precedence, and a second copy would go stale), else the current key.
pub fn key_default(env_key_set: bool, current: &str) -> (r: String)
    ensures
        r@ == if env_key_set { Seq::<char>::empty() } else { current@ },
{
    if env_key_set {
        String::new()
    } else {
        current.to_owned()
    }
}

/// `c` lowered when it is an ASCII capital.
pub open spec fn ascii_lower(c: char) -> char {
    if 'A' <= c <= 'Z' {
        ((c as u32) + 32) as char
    } else {
        c
    }
}

/// A yes/no answer: an empty answer, `y` or `yes` in any case mean yes.
pub open spec fn is_yes(answer: Seq<char>) -> bool {
    let l = answer.map_values(|c: char| ascii_lower(c));
    l.len() == 0 || l == "y"@ || l == "yes"@
}

/// The answer to a yes/no confirmation; `None` at end of input.
pub fn confirm_answer(answer: Option<&str>) -> (r: Option<bool>)
    ensures
        match answer {
            None => r is None,
            Some(a) => r == Some(is_yes(a@)),
        },
{
    match answer {
        None => None,
        Some(a) => {
            let v = chars_of(a);
            let mut l: Vec<char> = Vec::new();
            let mut i: usize = 0;
            while i < v.len()
                invariant
                    i <= v.len(),
                    l@ == v@.take(i as int).map_values(|c: char| ascii_lower(c)),
                decreases v.len() - i,
            {
                let c = v[i];
                let lc = if 'A' <= c && c <= 'Z' {
                    let u = c as u32 + 32;
                    char_of(u)
                } else {
                    c
                };
                l.push(lc);
                assert(v@.take(i + 1).map_values(|c: char| ascii_lower(c)) =~= v@.take(i as int).map_values(|c: char| ascii_lower(c)).push(ascii_lower(c)));
                i += 1;
            }
            assert(v@.take(v.len() as int) =~= v@);
            let y = chars_of("y");
            let yes = chars_of("yes");
            Some(l.len() == 0 || chars_eq(l.as_slice(), y.as_slice()) || chars_eq(l.as_slice(), yes.as_slice()))
        },
    }
}

/// The lowercase ASCII letter with code `u`.
fn char_of(u: u32) -> (c: char)
    requires
        97 <= u <= 122,
    ensures
        c == u as char,
{
    let b = u as u8;
    b as char
}

// ---------------------------------------------------------------------------
// Models
// ---------------------------------------------------------------------------

/// The value of a decimal digit.
pub open spec fn digit_value(c: char) -> int {
    c as int - 48
}

/// Whether every character of `s` is an ASCII digit.
pub open spec fn all_digits(s: Seq<char>) -> bool {
    forall|i: int| 0 <= i < s.len() ==> '0' <= #[trigger] s[i] <= '9'
}

/// The number written by the digits `s`.
pub open spec fn digits_value(s: Seq<char>) -> nat
    decreases s.len(),
{
    if s.len() == 0 {
        0
    } else {
        (digits_value(s.drop_last()) * 10 + digit_value(s.last())) as nat
    }
}

/// `str::parse::<usize>`: an optional `+` and at least one digit, with a
/// value that fits.
pub open spec fn parse_usize(s: Seq<char>) -> Option<nat> {
    let digits = if s.len() > 0 && s[0] == '+' { s.drop_first() } else { s };
    if digits.len() == 0 || !all_digits(digits) || digits_value(digits) > usize::MAX {
        None
    } else {
        Some(digits_value(digits))
    }
}

/// A longer prefix of digits is worth at least as much.
proof fn lemma_digits_value_grows(s: Seq<char>, k: int)
    requires
        0 <= k <= s.len(),
        all_digits(s),
    ensures
        digits_value(s.take(k)) <= digits_value(s),
    decreases s.len() - k,
{
    if k < s.len() {
        lemma_digits_value_grows(s, k + 1);
        assert(s.take(k + 1).drop_last() =~= s.take(k));
    } else {
        assert(s.take(k) =~= s);
    }
}

/// Parse `s` as a `usize` (see `parse_usize`).
pub fn parse_index(s: &str) -> (r: Option<usize>)
    ensures
        match r {
            Some(n) => parse_usize(s@) == Some(n as nat),
            None => parse_usize(s@) is None,
        },
{
    let v = chars_of(s);
    let start: usize = if v.len() > 0 && v[0] == '+' { 1 } else { 0 };
    let d = slice_chars(v.as_slice(), start, v.len());
    let ghost digits = if s@.len() > 0 && s@[0] == '+' { s@.drop_first() } else { s@ };
    assert(d@ =~= digits);
    if d.len() == 0 {
        return None;
    }
    let mut value: usize = 0;
    let mut i: usize = 0;
    while i < d.len()
        invariant
            i <= d.len(),
            d@ == digits,
            digits == (if s@.len() > 0 && s@[0] == '+' { s@.drop_first() } else { s@ }),
            d@.len() > 0,
            all_digits(d@.take(i as int)),
            value == digits_value(d@.take(i as int)),
        decreases d.len() - i,
    {
        let c = d[i];
        assert(d@.take(i + 1).drop_last() =~= d@.take(i as int));
        assert(d@.take(i + 1).last() == c);
        if !('0' <= c && c <= '9') {
            assert(d@[i as int] == c);
            assert(!all_digits(d@));
            return None;
        }
        let dv = (c as u32 - 48) as usize;
        if value > (usize::MAX - dv) / 10 {
            proof {
                assert(all_digits(d@.take(i + 1)));
                assert(digits_value(d@.take(i + 1)) == value * 10 + dv);
                assert(value * 10 + dv > usize::MAX) by (nonlinear_arith)
                    requires value > (usize::MAX - dv) / 10, dv <= 9;
                if all_digits(d@) {
                    lemma_digits_value_grows(d@, i + 1);
                }
            }
            return None;
        }
        assert(value * 10 + dv <= usize::MAX) by (nonlinear_arith)
            requires value <= (usize::MAX - dv) / 10, dv <= 9;
        value = value * 10 + dv;
        i += 1;
    }
    assert(d@.take(d.len() as int) =~= d@);
    Some(value)
}

/// The model chosen by an answer: the default for an empty answer, the
/// model at a 1-based position in the list, else the answer as a name.
pub open spec fn chosen_model(answer: Seq<char>, models: Seq<Seq<char>>, default: Seq<char>) -> Seq<char> {
    if answer.len() == 0 {
        default
    } else if parse_usize(answer) matches Some(k) && 1 <= k <= models.len() {
        models[parse_usize(answer)->0 - 1]
    } else {
        answer
    }
}

/// The views of strings.
pub open spec fn texts(v: Seq<String>) -> Seq<Seq<char>> {
    v.map_values(|s: String| s@)
}

/// Interpret the model answer: a 1-based index into the fetched list, or a
/// literal model name; an empty answer keeps the default.
pub fn select_model(answer: &str, models: &[String], default: &str) -> (r: String)
    ensures
        r@ == chosen_model(answer@, texts(models@), default@),
{
    if answer.is_empty() {
        return default.to_owned();
    }
    if let Some(index) = parse_index(answer) {
        if index >= 1 && index <= models.len() {
            return models[index - 1].clone();
        }
    }
    answer.to_owned()
}

/// The model offered as the default: the configured one when the endpoint
/// offers it (or offered none), else the first it offered.
pub fn default_model(models: &[String], configured: &str) -> (r: String)
    ensures
        r@ == if models@.len() == 0 || texts(models@).contains(configured@) {
            configured@
        } else {
            models@[0]@
        },
{
    if models.len() == 0 {
        return configured.to_owned();
    }
    let c = chars_of(configured);
    let mut i: usize = 0;
    while i < models.len()
        invariant
            i <= models.len(),
            c@ == configured@,
            forall|j: int| 0 <= j < i ==> texts(models@)[j] != configured@,
        decreases models.len() - i,
    {
        let m = chars_of(models[i].as_str());
        if chars_eq(m.as_slice(), c.as_slice()) {
            assert(texts(models@)[i as int] == configured@);
            return configured.to_owned();
        }
        i += 1;
    }
    models[0].clone()
}

/// The line showing model `i` (0-based) of the list.
pub open spec fn model_line(i: nat, id: Seq<char>) -> Seq<char> {
    "  ["@ + decimal(i + 1) + "] "@ + id
}

/// The model list shown: the first thirty, numbered from 1, and a count of
/// the rest.
pub fn model_list_lines(models: &[String]) -> (r: Vec<String>)
    requires
        models@.len() <= u32::MAX,
    ensures
        r@.len() == if models@.len() > 30 { 31 } else { models@.len() },
        forall|i: int| 0 <= i < r@.len() && i < 30 ==> #[trigger] r@[i]@ == model_line(i as nat, models@[i]@),
        models@.len() > 30 ==> r@[30]@ == "  ... and "@ + decimal((models@.len() - 30) as nat) + " more"@,
{
    let mut out: Vec<String> = Vec::new();
    let shown = if models.len() > MAX_MODELS_SHOWN { MAX_MODELS_SHOWN } else { models.len() };
    let mut i: usize = 0;
    while i < shown
        invariant
            i <= shown <= models.len() <= u32::MAX,
            shown <= 30,
            out@.len() == i,
            forall|j: int| 0 <= j < i ==> #[trigger] out@[j]@ == model_line(j as nat, models@[j]@),
        decreases shown - i,
    {
        let mut line = chars_of("  [");
        let d = decimal_text((i + 1) as u32);
        append_chars(&mut line, d.as_slice());
        append_str(&mut line, "] ");
        append_str(&mut line, models[i].as_str());
        out.push(string_of(line.as_slice()));
        i += 1;
    }
    if models.len() > MAX_MODELS_SHOWN {
        let mut line = chars_of("  ... and ");
        let d = decimal_text((models.len() - MAX_MODELS_SHOWN) as u32);
        append_chars(&mut line, d.as_slice());
        append_str(&mut line, " more");
        out.push(string_of(line.as_slice()));
    }
    out
}

/// An API key for display: a note for an empty key, eight stars for a
/// short one, else its first and last four characters around an ellipsis.
pub open spec fn masked(key: Seq<char>, env_fallback: bool) -> Seq<char> {
    if key.len() == 0 {
        if env_fallback {
            "(from CL_API_KEY)"@
        } else {
            "(empty)"@
        }
    } else if key.len() <= 8 {
        "********"@
    } else {
        key.take(4) + seq!['…'] + key.skip(key.len() - 4)
    }
}

/// Mask an API key for display: first and last four characters only.
pub fn mask_key(key: &str, env_fallback: bool) -> (r: String)
    ensures
        r@ == masked(key@, env_fallback),
{
    let chars = chars_of(key);
    if chars.len() == 0 {
        return if env_fallback {
            "(from CL_API_KEY)".to_owned()
        } else {
            "(empty)".to_owned()
        };
    }
    if chars.len() <= 8 {
        return "********".to_owned();
    }
    let mut out = slice_chars(chars.as_slice(), 0, 4);
    out.push('…');
    let tail = slice_chars(chars.as_slice(), chars.len() - 4, chars.len());
    append_chars(&mut out, tail.as_slice());
    assert(out@ =~= masked(key@, env_fallback));
    string_of(out.as_slice())
}

/// A masked key never shows more than eight of the key's characters.
pub proof fn lemma_mask_hides_middle(key: Seq<char>, env_fallback: bool)
    requires
        key.len() > 8,
    ensures
        masked(key, env_fallback).len() == 9,
        masked(key, env_fallback)[4] == '…',
{
}

/// The entries of an OpenAI-style model list: the `data` array, else a bare
/// `models` array.
pub open spec fn model_entries(body: JsonValue) -> Option<Seq<JsonValue>> {
    match get_key(body, "data"@) {
        Some(JsonValue::Array(items)) => Some(items@),
        _ => match get_key(body, "models"@) {
            Some(JsonValue::Array(items)) => Some(items@),
            _ => None,
        },
    }
}

/// The id of an entry: its `id` string, else the entry itself when a string.
pub open spec fn entry_id(entry: JsonValue) -> Option<Seq<char>> {
    match get_key(entry, "id"@) {
        Some(v) => match as_text(v) {
            Some(t) => Some(t),
            None => as_text(entry),
        },
        None => as_text(entry),
    }
}

/// The ids of the entries that have one, in order.
pub open spec fn entry_ids(entries: Seq<JsonValue>) -> Seq<Seq<char>>
    decreases entries.len(),
{
    if entries.len() == 0 {
        seq![]
    } else {
        let rest = entry_ids(entries.drop_last());
        match entry_id(entries.last()) {
            Some(t) => rest.push(t),
            None => rest,
        }
    }
}

/// The id of one entry (see `entry_id`).
fn id_of(entry: &JsonValue) -> (r: Option<String>)
    ensures
        match r {
            Some(t) => entry_id(*entry) == Some(t@),
            None => entry_id(*entry) is None,
        },
{
    if let Some(v) = get(entry, "id") {
        if let Some(t) = text_of(v) {
            return Some(t.clone());
        }
    }
    match text_of(entry) {
        Some(t) => Some(t.clone()),
        None => None,
    }
}

/// The entries array named `key`, if the body has one.
fn array_at<'a>(body: &'a JsonValue, key: &str) -> (r: Option<&'a Vec<JsonValue>>)
    ensures
        match r {
            Some(items) => get_key(*body, key@) == Some(JsonValue::Array(*items)),
            None => !(get_key(*body, key@) matches Some(JsonValue::Array(_))),
        },
{
    match get(body, key) {
        Some(JsonValue::Array(items)) => Some(items),
        _ => None,
    }
}

/// Extract model ids from an OpenAI-style `{"data": [{"id": ...}]}` body,
/// accepting a bare `{"models": [...]}` as a fallback.
pub fn parse_model_ids(body: &JsonValue) -> (r: Vec<String>)
    ensures
        texts(r@) == match model_entries(*body) {
            Some(entries) => entry_ids(entries),
            None => Seq::<Seq<char>>::empty(),
        },
{
    let entries = match array_at(body, "data") {
        Some(items) => items,
        None => match array_at(body, "models") {
            Some(items) => items,
            None => {
                let out: Vec<String> = Vec::new();
                assert(texts(out@) =~= Seq::<Seq<char>>::empty());
                return out;
            },
        },
    };
    let mut out: Vec<String> = Vec::new();
    let mut i: usize = 0;
    assert(entries@.take(0) =~= Seq::<JsonValue>::empty());
    assert(texts(out@) =~= Seq::<Seq<char>>::empty());
    while i < entries.len()
        invariant
            i <= entries.len(),
            texts(out@) == entry_ids(entries@.take(i as int)),
        decreases entries.len() - i,
    {
        let ghost prev = out@;
        assert(entries@.take(i + 1).drop_last() =~= entries@.take(i as int));
        assert(entries@.take(i + 1).last() == entries@[i as int]);
        match id_of(&entries[i]) {
            Some(t) => {
                out.push(t);
                assert(texts(out@) =~= texts(prev).push(out@.last()@));
            },
            None => {},
        }
        i += 1;
    }
    assert(entries@.take(entries.len() as int) =~= entries@);
    out
}

/// The fetched model list, or the error that none were listed.
pub fn models_or_error(ids: Vec<String>) -> (r: Result<Vec<String>, String>)
    ensures
        ids@.len() == 0 ==> (r matches Err(e) && e@ == "the response contained no model ids"@),
        ids@.len() > 0 ==> (r matches Ok(v) && v@ == ids@),
{
    if ids.len() == 0 {
        Err("the response contained no model ids".to_owned())
    } else {
        Ok(ids)
    }
}

// ---------------------------------------------------------------------------
// What is written
// ---------------------------------------------------------------------------

/// The backend values the wizard writes: its four answers, the defaults for
/// the rest.
pub fn wizard_backend(endpoint: String, api_key: String, model: String, language: String) -> (r: BackendSchema)
    ensures
        r.endpoint@ == endpoint@,
        r.api_key@ == api_key@,
        r.model@ == model@,
        r.language@ == language@,
        r.prompt@ == DEFAULT_PROMPT@,
        r.max_tokens == 32768,
        r.context_length == 256000,
        r.temperature == DEFAULT_TEMPERATURE_BITS,
        r.timeout == 120,
{
    let mut b = BackendSchema::default();
    b.endpoint = endpoint;
    b.api_key = api_key;
    b.model = model;
    b.language = language;
    b
}

/// Whether the current file is the template: when it parsed and exists.
pub fn reuse_existing_template(existing_is_usable: bool, exists: bool) -> (r: bool)
    ensures
        r == (existing_is_usable && exists),
{
    existing_is_usable && exists
}

/// The summary shown before writing: the path, then the endpoint, the masked
/// key, the model, and the language (or that the model decides).
pub fn summary_lines(endpoint: &str, api_key: &str, env_key_set: bool, model: &str, language: &str) -> (r: Vec<String>)
    ensures
        r@.len() == 6,
        r@[0]@.len() == 0,
        r@[1]@ == "About to write "@ + DEFAULT_CONFIG_PATH@,
        r@[2]@ == "  endpoint : "@ + endpoint@,
        r@[3]@ == "  api_key  : "@ + masked(api_key@, env_key_set),
        r@[4]@ == "  model    : "@ + model@,
        r@[5]@ == "  language : "@ + if language@.len() == 0 { "(model default)"@ } else { language@ },
{
    let mut out: Vec<String> = Vec::new();
    out.push(String::new());
    let mut l = chars_of("About to write ");
    append_str(&mut l, DEFAULT_CONFIG_PATH);
    out.push(string_of(l.as_slice()));
    let mut l = chars_of("  endpoint : ");
    append_str(&mut l, endpoint);
    out.push(string_of(l.as_slice()));
    let mut l = chars_of("  api_key  : ");
    let m = mask_key(api_key, env_key_set);
    append_str(&mut l, m.as_str());
    out.push(string_of(l.as_slice()));
    let mut l = chars_of("  model    : ");
    append_str(&mut l, model);
    out.push(string_of(l.as_slice()));
    let mut l = chars_of("  language : ");
    if language.is_empty() {
        append_str(&mut l, "(model default)");
    } else {
        append_str(&mut l, language);
    }
    out.push(string_of(l.as_slice()));
    out
}

} // verus!
