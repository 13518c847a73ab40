//! Chat completion requests to an OpenAI-compatible `/chat/completions`
//! endpoint: the payloads, token estimates, history compaction, and the
//! decisions of the retrying POST loop. Sending and waiting happen at the
//! edge of the program, which reports each outcome back here.
use vstd::prelude::*;
use vstd::arithmetic::power2::{pow2, lemma2_to64, lemma2_to64_rest, lemma_pow2_unfold, lemma_pow2_strictly_increases};
use crate::config::{prompt_with_language, AppConfig};
use crate::errors::ClaError;
use crate::json::{as_text, get_index, get_key, opt_key, opt_text, JsonNumber, JsonValue};
use crate::session::decimal;
use crate::text::{append_chars, append_str, chars_of, string_of, trim, trim_chars};

verus! {

/// Maximum number of automatic retries on transient failures.
pub const MAX_RETRIES: u32 = 3;

/// Turns kept verbatim when compacting; older ones are folded into the
/// summary.
pub const COMPACT_KEEP_TURNS: usize = 6;

/// Output cap of the summarization request.
pub const COMPACTION_MAX_TOKENS: u32 = 2048;

/// Instructions handed to the model when compacting a conversation.
pub const COMPACTION_INSTRUCTION: &'static str = "You are compacting the history of a Linux system administration conversation so it can continue in a smaller context. Keep the user's goals, environment details, decisions made, commands that worked or failed, and unresolved problems. Drop greetings, repetition, and the full text of long command outputs. Reply in the same language as the conversation, write at most 600 words, and output only the summary.";

// ---------------------------------------------------------------------------
// Status messages
// ---------------------------------------------------------------------------

/// The message for an HTTP status: a known description, else
/// `HTTP error <code>`.
pub open spec fn status_message(code: u16) -> Seq<char> {
    if code == 400 {
        "Bad request: the server could not understand the request"@
    } else if code == 401 {
        "Authentication failed: invalid API key"@
    } else if code == 403 {
        "Forbidden: access denied"@
    } else if code == 404 {
        "Not found: the requested endpoint does not exist"@
    } else if code == 429 {
        "Rate limited: too many requests, please try again later"@
    } else if code == 500 {
        "Internal server error"@
    } else if code == 502 {
        "Bad gateway"@
    } else if code == 503 {
        "Service unavailable: the server is temporarily unable to handle the request"@
    } else {
        "HTTP error "@ + decimal(code as nat)
    }
}

/// The human-readable message for an HTTP status code.
pub fn message_for_status(code: u16) -> (r: String)
    ensures
        r@ == status_message(code),
{
    if code == 400 {
        "Bad request: the server could not understand the request".to_owned()
    } else if code == 401 {
        "Authentication failed: invalid API key".to_owned()
    } else if code == 403 {
        "Forbidden: access denied".to_owned()
    } else if code == 404 {
        "Not found: the requested endpoint does not exist".to_owned()
    } else if code == 429 {
        "Rate limited: too many requests, please try again later".to_owned()
    } else if code == 500 {
        "Internal server error".to_owned()
    } else if code == 502 {
        "Bad gateway".to_owned()
    } else if code == 503 {
        "Service unavailable: the server is temporarily unable to handle the request".to_owned()
    } else {
        let mut out = chars_of("HTTP error ");
        let d = crate::session::decimal_text(code as u32);
        append_chars(&mut out, d.as_slice());
        string_of(out.as_slice())
    }
}

// ---------------------------------------------------------------------------
// Token estimates
// ---------------------------------------------------------------------------

/// Number of ASCII characters in `s`.
pub open spec fn ascii_count(s: Seq<char>) -> nat
    decreases s.len(),
{
    if s.len() == 0 {
        0
    } else {
        ascii_count(s.drop_last()) + if (s.last() as u32) < 128 { 1nat } else { 0nat }
    }
}

/// The token estimate of `s`: a quarter of its ASCII characters (rounded
/// down), plus one per other character.
pub open spec fn token_estimate(s: Seq<char>) -> nat {
    ascii_count(s) / 4 + (s.len() - ascii_count(s)) as nat
}

/// There are no more ASCII characters than characters.
pub proof fn lemma_ascii_count_bound(s: Seq<char>)
    ensures
        ascii_count(s) <= s.len(),
    decreases s.len(),
{
    if s.len() > 0 {
        lemma_ascii_count_bound(s.drop_last());
    }
}

/// Approximate the token count of `text` without a tokenizer: ASCII
/// characters count roughly four per token, other characters (e.g. CJK) one
/// each. The estimate errs high, so compaction runs early.
pub fn estimate_tokens(text: &str) -> (r: u64)
    ensures
        r == token_estimate(text@),
{
    let v = chars_of(text);
    let mut ascii: usize = 0;
    let mut i: usize = 0;
    while i < v.len()
        invariant
            i <= v.len(),
            ascii == ascii_count(v@.take(i as int)),
            ascii <= i,
        decreases v.len() - i,
    {
        assert(v@.take(i + 1).drop_last() =~= v@.take(i as int));
        if (v[i] as u32) < 128 {
            ascii += 1;
        }
        i += 1;
    }
    assert(v@.take(v.len() as int) =~= v@);
    let total = v.len() as u64;
    let a = ascii as u64;
    a / 4 + (total - a)
}

/// The ASCII characters of a concatenation are those of its parts.
pub proof fn lemma_ascii_count_concat(a: Seq<char>, b: Seq<char>)
    ensures
        ascii_count(a + b) == ascii_count(a) + ascii_count(b),
    decreases b.len(),
{
    if b.len() == 0 {
        assert(a + b =~= a);
    } else {
        lemma_ascii_count_concat(a, b.drop_last());
        assert((a + b).drop_last() =~= a + b.drop_last());
    }
}

// ---------------------------------------------------------------------------
// Payloads
// ---------------------------------------------------------------------------

/// The views of question/response pairs.
pub open spec fn pairs(turns: Seq<(String, String)>) -> Seq<(Seq<char>, Seq<char>)> {
    turns.map_values(|t: (String, String)| (t.0@, t.1@))
}

/// The optional text's view.
pub open spec fn opt_str(s: Option<&str>) -> Option<Seq<char>> {
    match s {
        Some(x) => Some(x@),
        None => None,
    }
}

/// A summary counts when it is present and not blank.
pub open spec fn usable_summary(summary: Option<Seq<char>>) -> Option<Seq<char>> {
    match summary {
        Some(s) => if trim(s).len() > 0 {
            Some(s)
        } else {
            None
        },
        None => None,
    }
}

/// The system message: the effective prompt, then the summary when there is
/// a usable one.
pub open spec fn system_text(prompt: Seq<char>, summary: Option<Seq<char>>) -> Seq<char> {
    match usable_summary(summary) {
        Some(s) => prompt + "\n\n[Summary of earlier conversation]\n"@ + s,
        None => prompt,
    }
}

/// The user and assistant messages of the turns, oldest first.
pub open spec fn turn_messages(turns: Seq<(Seq<char>, Seq<char>)>) -> Seq<(Seq<char>, Seq<char>)>
    decreases turns.len(),
{
    if turns.len() == 0 {
        seq![]
    } else {
        turn_messages(turns.drop_last()) + seq![
            ("user"@, turns.last().0),
            ("assistant"@, turns.last().1),
        ]
    }
}

/// The (role, content) messages of a chat request.
pub open spec fn chat_messages(system: Seq<char>, turns: Seq<(Seq<char>, Seq<char>)>, user: Seq<char>) -> Seq<(Seq<char>, Seq<char>)> {
    seq![("system"@, system)] + turn_messages(turns) + seq![("user"@, user)]
}

/// The turns become user and assistant messages in order: turn `i` is
/// messages `2i` and `2i + 1`.
pub proof fn lemma_turn_messages(turns: Seq<(Seq<char>, Seq<char>)>, i: int)
    requires
        0 <= i < turns.len(),
    ensures
        turn_messages(turns).len() == 2 * turns.len(),
        turn_messages(turns)[2 * i] == ("user"@, turns[i].0),
        turn_messages(turns)[2 * i + 1] == ("assistant"@, turns[i].1),
    decreases turns.len(),
{
    lemma_turn_messages_len(turns);
    if i < turns.len() - 1 {
        lemma_turn_messages(turns.drop_last(), i);
        lemma_turn_messages_len(turns.drop_last());
        assert(turns.drop_last()[i] == turns[i]);
    }
}

/// Two messages per turn.
pub proof fn lemma_turn_messages_len(turns: Seq<(Seq<char>, Seq<char>)>)
    ensures
        turn_messages(turns).len() == 2 * turns.len(),
    decreases turns.len(),
{
    if turns.len() > 0 {
        lemma_turn_messages_len(turns.drop_last());
    }
}

/// A request carries the system message, two messages per turn, and the
/// question last.
pub proof fn lemma_chat_messages_shape(system: Seq<char>, turns: Seq<(Seq<char>, Seq<char>)>, user: Seq<char>)
    ensures
        chat_messages(system, turns, user).len() == 2 * turns.len() + 2,
        chat_messages(system, turns, user)[0] == ("system"@, system),
        chat_messages(system, turns, user).last() == ("user"@, user),
{
    lemma_turn_messages_len(turns);
}

/// `v` is the string `s`.
pub open spec fn is_text(v: JsonValue, s: Seq<char>) -> bool {
    v matches JsonValue::Str(x) && x@ == s
}

/// `v` is the message object `{"role": role, "content": content}`.
pub open spec fn is_message(v: JsonValue, message: (Seq<char>, Seq<char>)) -> bool {
    &&& v matches JsonValue::Object(f)
    &&& f@.len() == 2
    &&& f@[0].0@ == "role"@ && is_text(f@[0].1, message.0)
    &&& f@[1].0@ == "content"@ && is_text(f@[1].1, message.1)
}

/// `v` is the array of the message objects `messages`.
pub open spec fn is_messages(v: JsonValue, messages: Seq<(Seq<char>, Seq<char>)>) -> bool {
    &&& v matches JsonValue::Array(items)
    &&& items@.len() == messages.len()
    &&& forall|i: int| 0 <= i < messages.len() ==> is_message(#[trigger] items@[i], messages[i])
}

/// `v` is the request `{"model", "messages", "max_tokens", "temperature"}`.
pub open spec fn is_request(v: JsonValue, model: Seq<char>, messages: Seq<(Seq<char>, Seq<char>)>, max_tokens: u32, temperature: u32) -> bool {
    &&& v matches JsonValue::Object(f)
    &&& f@.len() == 4
    &&& f@[0].0@ == "model"@ && is_text(f@[0].1, model)
    &&& f@[1].0@ == "messages"@ && is_messages(f@[1].1, messages)
    &&& f@[2].0@ == "max_tokens"@ && f@[2].1 == JsonValue::Number(JsonNumber::UInt(max_tokens as u64))
    &&& f@[3].0@ == "temperature"@ && f@[3].1 == JsonValue::Number(JsonNumber::F32Bits(temperature))
}

/// The JSON string of `s`.
fn text_value(s: &str) -> (r: JsonValue)
    ensures
        is_text(r, s@),
{
    JsonValue::Str(s.to_owned())
}

/// The message object with `role` and `content`.
fn message_value(role: &str, content: &str) -> (r: JsonValue)
    ensures
        is_message(r, (role@, content@)),
{
    let mut f: Vec<(String, JsonValue)> = Vec::new();
    f.push(("role".to_owned(), text_value(role)));
    f.push(("content".to_owned(), text_value(content)));
    JsonValue::Object(f)
}

/// The request object around `messages`.
fn request_value(model: &str, messages: Vec<JsonValue>, max_tokens: u32, temperature: u32) -> (r: JsonValue)
    ensures
        forall|m: Seq<(Seq<char>, Seq<char>)>| is_messages(JsonValue::Array(messages), m) ==> #[trigger] is_request(r, model@, m, max_tokens, temperature),
{
    let mut f: Vec<(String, JsonValue)> = Vec::new();
    f.push(("model".to_owned(), text_value(model)));
    f.push(("messages".to_owned(), JsonValue::Array(messages)));
    f.push(("max_tokens".to_owned(), JsonValue::Number(JsonNumber::UInt(max_tokens as u64))));
    f.push(("temperature".to_owned(), JsonValue::Number(JsonNumber::F32Bits(temperature))));
    JsonValue::Object(f)
}

/// The system message text (see `system_text`).
fn system_message(prompt: String, summary: Option<&str>) -> (r: String)
    ensures
        r@ == system_text(prompt@, opt_str(summary)),
{
    match summary {
        Some(s) => {
            let sv = chars_of(s);
            let t = trim_chars(sv.as_slice());
            if t.len() > 0 {
                let mut out = chars_of(prompt.as_str());
                append_str(&mut out, "\n\n[Summary of earlier conversation]\n");
                append_str(&mut out, s);
                string_of(out.as_slice())
            } else {
                prompt
            }
        },
        None => prompt,
    }
}

/// Build the chat completion request: the system message (the effective
/// prompt and any usable summary), the retained turns oldest first as user
/// and assistant messages, then the question.
pub fn build_payload(config: &AppConfig, user_message: &str, summary: Option<&str>, turns: &[(String, String)]) -> (r: JsonValue)
    ensures
        is_request(
            r,
            config.backend.model@,
            chat_messages(
                system_text(
                    prompt_with_language(config.backend.prompt@, config.backend.language@),
                    opt_str(summary),
                ),
                pairs(turns@),
                user_message@,
            ),
            config.backend.max_tokens,
            config.backend.temperature,
        ),
{
    let prompt = config.backend.effective_prompt();
    let system = system_message(prompt, summary);
    let ghost sys = system@;
    let mut messages: Vec<JsonValue> = Vec::new();
    messages.push(message_value("system", system.as_str()));
    let mut i: usize = 0;
    assert(pairs(turns@).take(0) =~= Seq::<(Seq<char>, Seq<char>)>::empty());
    while i < turns.len()
        invariant
            i <= turns.len(),
            is_messages(
                JsonValue::Array(messages),
                seq![("system"@, sys)] + turn_messages(pairs(turns@).take(i as int)),
            ),
        decreases turns.len() - i,
    {
        let ghost before = seq![("system"@, sys)] + turn_messages(pairs(turns@).take(i as int));
        let ghost prev = messages@;
        messages.push(message_value("user", turns[i].0.as_str()));
        messages.push(message_value("assistant", turns[i].1.as_str()));
        proof {
            let p = pairs(turns@);
            assert(p.take(i + 1).drop_last() =~= p.take(i as int));
            assert(p.take(i + 1).last() == (turns@[i as int].0@, turns@[i as int].1@));
            let after = seq![("system"@, sys)] + turn_messages(p.take(i + 1));
            assert(after =~= before + seq![("user"@, turns@[i as int].0@), ("assistant"@, turns@[i as int].1@)]);
            assert forall|j: int| 0 <= j < after.len() implies is_message(#[trigger] messages@[j], after[j]) by {
                if j < before.len() {
                    assert(messages@[j] == prev[j]);
                }
            }
        }
        i += 1;
    }
    let ghost before = seq![("system"@, sys)] + turn_messages(pairs(turns@));
    let ghost prev = messages@;
    messages.push(message_value("user", user_message));
    proof {
        assert(pairs(turns@).take(turns@.len() as int) =~= pairs(turns@));
        let all = chat_messages(sys, pairs(turns@), user_message@);
        assert(all =~= before.push(("user"@, user_message@)));
        assert forall|j: int| 0 <= j < all.len() implies is_message(#[trigger] messages@[j], all[j]) by {
            if j < before.len() {
                assert(messages@[j] == prev[j]);
            }
        }
        assert(is_messages(JsonValue::Array(messages), all));
    }
    request_value(
        config.backend.model.as_str(),
        messages,
        config.backend.max_tokens,
        config.backend.temperature,
    )
}

/// The summarization request: the compaction instruction as the system
/// message, `text` as the user message, and the compaction output cap.
pub fn summary_payload(config: &AppConfig, text: &str) -> (r: JsonValue)
    ensures
        is_request(
            r,
            config.backend.model@,
            seq![("system"@, COMPACTION_INSTRUCTION@), ("user"@, text@)],
            COMPACTION_MAX_TOKENS,
            config.backend.temperature,
        ),
{
    let mut messages: Vec<JsonValue> = Vec::new();
    messages.push(message_value("system", COMPACTION_INSTRUCTION));
    messages.push(message_value("user", text));
    proof {
        let m = seq![("system"@, COMPACTION_INSTRUCTION@), ("user"@, text@)];
        assert(is_message(messages@[0], m[0]));
        assert(is_message(messages@[1], m[1]));
        assert(is_messages(JsonValue::Array(messages), m));
    }
    request_value(
        config.backend.model.as_str(),
        messages,
        COMPACTION_MAX_TOKENS,
        config.backend.temperature,
    )
}

// ---------------------------------------------------------------------------
// Compaction
// ---------------------------------------------------------------------------

/// The token estimate of the turns, questions and responses alike.
pub open spec fn turns_tokens(turns: Seq<(Seq<char>, Seq<char>)>) -> nat
    decreases turns.len(),
{
    if turns.len() == 0 {
        0
    } else {
        turns_tokens(turns.drop_last()) + token_estimate(turns.last().0) + token_estimate(turns.last().1)
    }
}

/// The tokens set aside for the prompt, the question and the summary.
pub open spec fn reserved_tokens(prompt: Seq<char>, user: Seq<char>, summary: Option<Seq<char>>) -> nat {
    token_estimate(prompt) + token_estimate(user) + match summary {
        Some(s) => token_estimate(s),
        None => 0,
    }
}

/// `a - b`, or 0 where `b > a`.
pub open spec fn sat_minus(a: int, b: int) -> nat {
    if a > b {
        (a - b) as nat
    } else {
        0
    }
}

/// How many leading turns to fold into the summary: none while there are at
/// most six turns or the turns use at most three quarters of the history
/// budget (the context window less the response cap and the reserved
/// tokens); else all but the last six.
pub open spec fn fold_count(context_length: u32, max_tokens: u32, reserved: nat, used: nat, n: nat) -> Option<nat> {
    let budget = sat_minus(sat_minus(context_length as int, max_tokens as int) as int, reserved as int);
    if n <= 6 || 4 * used <= 3 * budget {
        None
    } else {
        Some((n - 6) as nat)
    }
}

/// How many leading turns should be folded into the summary before sending
/// the next question; `None` while the history fits the budget or there is
/// nothing left to fold.
///
/// The budget test `used <= 0.75 * budget` is decided exactly, as
/// `4 * used <= 3 * budget`: the budget never exceeds the `u32` context
/// window, where both forms agree.
pub fn compaction_point(config: &AppConfig, user_message: &str, summary: Option<&str>, turns: &[(String, String)]) -> (r: Option<usize>)
    requires
        reserved_tokens(
            prompt_with_language(config.backend.prompt@, config.backend.language@),
            user_message@,
            opt_str(summary),
        ) <= u64::MAX,
        turns_tokens(pairs(turns@)) <= u64::MAX,
    ensures
        match r {
            Some(k) => fold_count(
                config.backend.context_length,
                config.backend.max_tokens,
                reserved_tokens(
                    prompt_with_language(config.backend.prompt@, config.backend.language@),
                    user_message@,
                    opt_str(summary),
                ),
                turns_tokens(pairs(turns@)),
                turns@.len(),
            ) == Some(k as nat),
            None => fold_count(
                config.backend.context_length,
                config.backend.max_tokens,
                reserved_tokens(
                    prompt_with_language(config.backend.prompt@, config.backend.language@),
                    user_message@,
                    opt_str(summary),
                ),
                turns_tokens(pairs(turns@)),
                turns@.len(),
            ) is None,
        },
{
    if turns.len() <= COMPACT_KEEP_TURNS {
        return None;
    }
    let prompt = config.backend.effective_prompt();
    let p = estimate_tokens(prompt.as_str());
    let u = estimate_tokens(user_message);
    let s = match summary {
        Some(x) => estimate_tokens(x),
        None => 0,
    };
    let reserved = p + u + s;
    let window = config.backend.context_length as u64;
    let cap = config.backend.max_tokens as u64;
    let after_cap = if window > cap { window - cap } else { 0 };
    let budget = if after_cap > reserved { after_cap - reserved } else { 0 };
    let mut used: u64 = 0;
    let mut i: usize = 0;
    assert(pairs(turns@).take(0) =~= Seq::<(Seq<char>, Seq<char>)>::empty());
    while i < turns.len()
        invariant
            i <= turns.len(),
            used == turns_tokens(pairs(turns@).take(i as int)),
            turns_tokens(pairs(turns@)) <= u64::MAX,
        decreases turns.len() - i,
    {
        let q = estimate_tokens(turns[i].0.as_str());
        let a = estimate_tokens(turns[i].1.as_str());
        proof {
            let pt = pairs(turns@);
            assert(pt.take(i + 1).drop_last() =~= pt.take(i as int));
            lemma_turns_tokens_prefix(pt, i + 1);
        }
        used = used + q + a;
        i += 1;
    }
    assert(pairs(turns@).take(turns@.len() as int) =~= pairs(turns@));
    if (used as u128) * 4 <= (budget as u128) * 3 {
        return None;
    }
    Some(turns.len() - COMPACT_KEEP_TURNS)
}

/// A prefix of the turns uses no more tokens than all of them.
pub proof fn lemma_turns_tokens_prefix(turns: Seq<(Seq<char>, Seq<char>)>, k: int)
    requires
        0 <= k <= turns.len(),
    ensures
        turns_tokens(turns.take(k)) <= turns_tokens(turns),
    decreases turns.len() - k,
{
    if k < turns.len() {
        lemma_turns_tokens_prefix(turns, k + 1);
        assert(turns.take(k + 1).drop_last() =~= turns.take(k));
    } else {
        assert(turns.take(k) =~= turns);
    }
}

/// Compaction keeps the last six turns: it folds nothing while there are at
/// most six, and otherwise exactly the turns before the last six.
pub proof fn lemma_compaction_keeps_last_six(context_length: u32, max_tokens: u32, reserved: nat, used: nat, n: nat)
    ensures
        n <= 6 ==> fold_count(context_length, max_tokens, reserved, used, n) is None,
        fold_count(context_length, max_tokens, reserved, used, n) matches Some(k) ==> n > 6 && n - k == 6,
{
}

/// Compaction is monotone in the history's size: where some history is
/// compacted, a larger one with the same number of turns is too.
pub proof fn lemma_compaction_monotone(context_length: u32, max_tokens: u32, reserved: nat, used1: nat, used2: nat, n: nat)
    requires
        used1 <= used2,
        fold_count(context_length, max_tokens, reserved, used1, n) is Some,
    ensures
        fold_count(context_length, max_tokens, reserved, used2, n) == fold_count(context_length, max_tokens, reserved, used1, n),
{
}

/// The material handed to the model when compacting: any usable summary,
/// then each turn as `User:` and `Assistant:` lines.
pub open spec fn compaction_text(summary: Option<Seq<char>>, turns: Seq<(Seq<char>, Seq<char>)>) -> Seq<char> {
    (match usable_summary(summary) {
        Some(s) => "Summary of the conversation so far:\n"@ + s + "\n\n"@,
        None => seq![],
    }) + "Turns to fold in:\n\n"@ + turns_text(turns)
}

/// Each turn as `User: q\nAssistant: r\n\n`.
pub open spec fn turns_text(turns: Seq<(Seq<char>, Seq<char>)>) -> Seq<char>
    decreases turns.len(),
{
    if turns.len() == 0 {
        seq![]
    } else {
        turns_text(turns.drop_last()) + "User: "@ + turns.last().0 + "\nAssistant: "@ + turns.last().1 + "\n\n"@
    }
}

/// The text of one folded turn.
pub open spec fn turn_block(t: (Seq<char>, Seq<char>)) -> Seq<char> {
    "User: "@ + t.0 + "\nAssistant: "@ + t.1 + "\n\n"@
}

/// The total length of the blocks of the first `i` turns.
pub open spec fn blocks_len(turns: Seq<(Seq<char>, Seq<char>)>, i: int) -> nat
    decreases i,
{
    if i <= 0 {
        0
    } else {
        blocks_len(turns, i - 1) + turn_block(turns[i - 1]).len()
    }
}

/// The first turns' block lengths do not depend on the turns after them.
proof fn lemma_blocks_len_prefix(turns: Seq<(Seq<char>, Seq<char>)>, n: int, i: int)
    requires
        0 <= i <= n <= turns.len(),
    ensures
        blocks_len(turns.take(n), i) == blocks_len(turns, i),
    decreases i,
{
    if i > 0 {
        lemma_blocks_len_prefix(turns, n, i - 1);
    }
}

/// Every turn folded in appears in the compaction material, whole and in
/// order: turn `i` is exactly the text between the blocks of the turns before
/// it and those up to it, and the material is all the blocks and nothing
/// more.
pub proof fn lemma_turns_text_blocks(turns: Seq<(Seq<char>, Seq<char>)>)
    ensures
        turns_text(turns).len() == blocks_len(turns, turns.len() as int),
        forall|i: int| 0 <= i < turns.len() ==> #[trigger] turns_text(turns).subrange(
            blocks_len(turns, i) as int,
            blocks_len(turns, i + 1) as int,
        ) == turn_block(turns[i]),
    decreases turns.len(),
{
    if turns.len() > 0 {
        let n = turns.len() as int;
        let init = turns.drop_last();
        lemma_turns_text_blocks(init);
        assert(init =~= turns.take(n - 1));
        let whole = turns_text(turns);
        let head = turns_text(init);
        let last = turn_block(turns.last());
        assert(whole =~= head + last);
        assert forall|i: int| 0 <= i < turns.len() implies #[trigger] turns_text(turns).subrange(
            blocks_len(turns, i) as int,
            blocks_len(turns, i + 1) as int,
        ) == turn_block(turns[i]) by {
            lemma_blocks_len_prefix(turns, n - 1, i);
            lemma_blocks_len_prefix(turns, n - 1, n - 1);
            if i < n - 1 {
                lemma_blocks_len_prefix(turns, n - 1, i + 1);
                assert(init[i] == turns[i]);
                assert(blocks_len(turns, i + 1) <= blocks_len(turns, n - 1)) by {
                    lemma_blocks_len_mono(turns, i + 1, n - 1);
                }
                assert(head.subrange(blocks_len(init, i) as int, blocks_len(init, i + 1) as int)
                    == turn_block(init[i]));
                assert(whole.subrange(blocks_len(turns, i) as int, blocks_len(turns, i + 1) as int)
                    =~= head.subrange(blocks_len(turns, i) as int, blocks_len(turns, i + 1) as int));
            } else {
                assert(whole.subrange(blocks_len(turns, i) as int, blocks_len(turns, i + 1) as int)
                    =~= last);
            }
        }
        lemma_blocks_len_prefix(turns, n - 1, n - 1);
    }
}

/// The compaction material is its opening (summary and heading, as for no
/// turns) followed by every turn's block, whole and in order.
pub proof fn lemma_compaction_text_turns(summary: Option<Seq<char>>, turns: Seq<(Seq<char>, Seq<char>)>)
    ensures
        compaction_text(summary, turns).len() == compaction_text(summary, seq![]).len() + blocks_len(turns, turns.len() as int),
        forall|i: int| 0 <= i < turns.len() ==> #[trigger] compaction_text(summary, turns).subrange(
            (compaction_text(summary, seq![]).len() + blocks_len(turns, i)) as int,
            (compaction_text(summary, seq![]).len() + blocks_len(turns, i + 1)) as int,
        ) == turn_block(turns[i]),
{
    lemma_turns_text_blocks(turns);
    let h = compaction_text(summary, seq![]);
    assert(turns_text(Seq::<(Seq<char>, Seq<char>)>::empty()) =~= Seq::<char>::empty());
    let whole = compaction_text(summary, turns);
    assert(whole =~= h + turns_text(turns));
    assert forall|i: int| 0 <= i < turns.len() implies #[trigger] compaction_text(summary, turns).subrange(
        (h.len() + blocks_len(turns, i)) as int,
        (h.len() + blocks_len(turns, i + 1)) as int,
    ) == turn_block(turns[i]) by {
        lemma_blocks_len_mono(turns, i, i + 1);
        lemma_blocks_len_mono(turns, i + 1, turns.len() as int);
        assert(whole.subrange((h.len() + blocks_len(turns, i)) as int, (h.len() + blocks_len(turns, i + 1)) as int)
            =~= turns_text(turns).subrange(blocks_len(turns, i) as int, blocks_len(turns, i + 1) as int));
    }
}

/// Block lengths grow with the number of turns.
proof fn lemma_blocks_len_mono(turns: Seq<(Seq<char>, Seq<char>)>, i: int, j: int)
    requires
        0 <= i <= j,
    ensures
        blocks_len(turns, i) <= blocks_len(turns, j),
    decreases j,
{
    if i < j {
        lemma_blocks_len_mono(turns, i, j - 1);
    }
}

/// Render the material handed to the model when compacting a conversation.
pub fn compaction_input(summary: Option<&str>, turns: &[(String, String)]) -> (r: String)
    ensures
        r@ == compaction_text(opt_str(summary), pairs(turns@)),
{
    let mut out: Vec<char> = Vec::new();
    match summary {
        Some(s) => {
            let sv = chars_of(s);
            let t = trim_chars(sv.as_slice());
            if t.len() > 0 {
                append_str(&mut out, "Summary of the conversation so far:\n");
                append_str(&mut out, s);
                append_str(&mut out, "\n\n");
            }
        },
        None => {},
    }
    append_str(&mut out, "Turns to fold in:\n\n");
    let ghost head = out@;
    let mut i: usize = 0;
    assert(pairs(turns@).take(0) =~= Seq::<(Seq<char>, Seq<char>)>::empty());
    while i < turns.len()
        invariant
            i <= turns.len(),
            out@ == head + turns_text(pairs(turns@).take(i as int)),
        decreases turns.len() - i,
    {
        append_str(&mut out, "User: ");
        append_str(&mut out, turns[i].0.as_str());
        append_str(&mut out, "\nAssistant: ");
        append_str(&mut out, turns[i].1.as_str());
        append_str(&mut out, "\n\n");
        proof {
            let pt = pairs(turns@);
            assert(pt.take(i + 1).drop_last() =~= pt.take(i as int));
            assert(pt.take(i + 1).last() == (turns@[i as int].0@, turns@[i as int].1@));
        }
        i += 1;
    }
    assert(pairs(turns@).take(turns@.len() as int) =~= pairs(turns@));
    string_of(out.as_slice())
}

// ---------------------------------------------------------------------------
// Retries
// ---------------------------------------------------------------------------

/// The wait before retry `attempt` (1-based): 200 ms, doubling each time.
pub open spec fn backoff(attempt: nat) -> nat {
    200 * pow2((attempt - 1) as nat)
}

/// Exponential backoff for retry attempt `attempt` (1-based).
pub fn backoff_ms(attempt: u32) -> (r: u64)
    requires
        1 <= attempt <= 57,
    ensures
        r == backoff(attempt as nat),
{
    proof {
        lemma2_to64();
        lemma2_to64_rest();
    }
    let mut r: u64 = 200;
    let mut i: u32 = 1;
    while i < attempt
        invariant
            1 <= i <= attempt <= 57,
            r == 200 * pow2((i - 1) as nat),
            pow2(56) == 0x100000000000000,
        decreases attempt - i,
    {
        proof {
            lemma_pow2_unfold(i as nat);
            if i < 56 {
                lemma_pow2_strictly_increases(i as nat, 56);
            }
        }
        r = r * 2;
        i += 1;
    }
    r
}

/// Each retry waits twice as long as the one before.
pub proof fn lemma_backoff_doubles(attempt: nat)
    requires
        attempt >= 1,
    ensures
        backoff(attempt + 1) == 2 * backoff(attempt),
{
    lemma_pow2_unfold(attempt);
}

/// Server errors (5xx) are retried.
pub open spec fn retryable(code: u16) -> bool {
    500 <= code <= 599
}

/// Return true when an HTTP status should be retried.
pub fn is_retryable_status(code: u16) -> (r: bool)
    ensures
        r == retryable(code),
{
    500 <= code && code <= 599
}

/// The assistant text of an OpenAI-style body,
/// `choices[0].message.content`.
pub open spec fn openai_text(body: JsonValue) -> Option<Seq<char>> {
    match get_key(body, "choices"@) {
        Some(c) => opt_text(opt_key(opt_key(get_index(c, 0), "message"@), "content"@)),
        None => None,
    }
}

/// The assistant text of a response body: OpenAI's
/// `choices[0].message.content`, else the legacy `data.text`.
pub open spec fn response_text(body: JsonValue) -> Option<Seq<char>> {
    match openai_text(body) {
        Some(t) => Some(t),
        None => opt_text(opt_key(get_key(body, "data"@), "text"@)),
    }
}

/// Extract the assistant text from an OpenAI-compatible or legacy body.
pub fn extract_response_text(body: &JsonValue) -> (r: Option<String>)
    ensures
        match r {
            Some(t) => response_text(*body) == Some(t@),
            None => response_text(*body) is None,
        },
{
    if let Some(c) = crate::json::get(body, "choices") {
        if let Some(first) = crate::json::at(c, 0) {
            if let Some(m) = crate::json::get(first, "message") {
                if let Some(content) = crate::json::get(m, "content") {
                    if let Some(t) = crate::json::text_of(content) {
                        return Some(t.clone());
                    }
                }
            }
        }
    }
    if let Some(d) = crate::json::get(body, "data") {
        if let Some(t) = crate::json::get(d, "text") {
            if let Some(s) = crate::json::text_of(t) {
                return Some(s.clone());
            }
        }
    }
    None
}

/// The detail of an error body, `error.message`.
pub open spec fn error_detail(body: Option<JsonValue>) -> Option<Seq<char>> {
    match body {
        Some(b) => opt_text(opt_key(get_key(b, "error"@), "message"@)),
        None => None,
    }
}

/// The message of a failed status: its description, then `: ` and the
/// body's detail when it has a non-empty one.
pub open spec fn status_failure(code: u16, detail: Option<Seq<char>>) -> Seq<char> {
    match detail {
        Some(d) => if d.len() > 0 {
            status_message(code) + ": "@ + d
        } else {
            status_message(code)
        },
        None => status_message(code),
    }
}

/// What one POST attempt came to, as reported by the sender.
pub enum PostOutcome {
    /// The request could not be sent; the error's message.
    SendError(String),
    /// A success status; its body read as JSON, or the reading error's message.
    Success(Result<JsonValue, String>),
    /// Any other status, with its body read as JSON where it could be.
    Status { code: u16, body: Option<JsonValue> },
}

/// What the POST loop does next.
pub enum PostStep {
    /// Send attempt `attempt` (0-based) after waiting `delay_ms`.
    Send { attempt: u32, delay_ms: u64 },
    /// Finished with the answer.
    Answer(String),
    /// Finished with an error.
    Failed(ClaError),
    /// The success body holds no answer in a known shape; report it (see
    /// `unexpected_format`).
    UnexpectedFormat,
}

/// The state of the POST loop: the attempt just made (0-based) and the error
/// of the last failed attempt.
pub struct PostState {
    pub attempt: u32,
    pub last_err: Option<String>,
}

/// The message that ends the loop when retries run out.
pub open spec fn exhausted_message(last_err: Option<Seq<char>>) -> Seq<char> {
    match last_err {
        Some(e) => e,
        None => "All retries exhausted"@,
    }
}

/// The optional message's view.
pub open spec fn opt_string(s: Option<String>) -> Option<Seq<char>> {
    match s {
        Some(x) => Some(x@),
        None => None,
    }
}

/// `step` is a chat error whose message is `m`.
pub open spec fn is_chat_failure(step: PostStep, m: Seq<char>) -> bool {
    step matches PostStep::Failed(ClaError::ChatCommand { message, source: None }) && message@ == m
}

/// Start the POST loop: without an API key it fails at once; otherwise the
/// first attempt is sent without waiting.
pub fn post_start(api_key: &str) -> (r: (PostState, PostStep))
    ensures
        r.0.attempt == 0,
        r.0.last_err is None,
        api_key@.len() == 0 ==> is_chat_failure(
            r.1,
            "no API key configured — set `api_key` in config or `CL_API_KEY` env var"@,
        ),
        api_key@.len() > 0 ==> r.1 == (PostStep::Send { attempt: 0, delay_ms: 0 }),
{
    let state = PostState { attempt: 0, last_err: None };
    if api_key.is_empty() {
        return (
            state,
            PostStep::Failed(
                ClaError::chat(
                    "no API key configured — set `api_key` in config or `CL_API_KEY` env var",
                ),
            ),
        );
    }
    (state, PostStep::Send { attempt: 0, delay_ms: 0 })
}

/// The `Authorization` header value for `api_key`.
pub fn bearer(api_key: &str) -> (r: String)
    ensures
        r@ == "Bearer "@ + api_key@,
{
    let mut out = chars_of("Bearer ");
    append_str(&mut out, api_key);
    string_of(out.as_slice())
}

/// After a failed attempt with message `err`: the next attempt after its
/// backoff while retries remain, else the failure with `err`.
fn retry_or_fail(state: &mut PostState, err: String) -> (r: PostStep)
    requires
        old(state).attempt <= MAX_RETRIES,
    ensures
        final(state).last_err == Some(err),
        old(state).attempt < MAX_RETRIES ==> final(state).attempt == old(state).attempt + 1 && r
            == (PostStep::Send {
            attempt: (old(state).attempt + 1) as u32,
            delay_ms: backoff((old(state).attempt + 1) as nat) as u64,
        }),
        old(state).attempt >= MAX_RETRIES ==> final(state).attempt == old(state).attempt
            && is_chat_failure(r, err@),
{
    if state.attempt < MAX_RETRIES {
        let next = state.attempt + 1;
        let delay = backoff_ms(next);
        state.attempt = next;
        state.last_err = Some(err);
        PostStep::Send { attempt: next, delay_ms: delay }
    } else {
        let failure = ClaError::chat(err.as_str());
        state.last_err = Some(err);
        PostStep::Failed(failure)
    }
}

/// Decide what follows an attempt's outcome. A send error or a server error
/// (5xx) is retried, after 200, 400 and 800 ms, until three retries have
/// been made; then the loop fails with the last error. A client error is
/// final; a success gives the body's answer, fails when the body could not
/// be read, and asks for the body's report when it has no answer.
pub fn post_next(state: &mut PostState, outcome: PostOutcome) -> (r: PostStep)
    requires
        old(state).attempt <= MAX_RETRIES,
    ensures
        final(state).attempt <= MAX_RETRIES,
        match outcome {
            PostOutcome::SendError(e) => {
                let err = "Request failed: "@ + e@;
                &&& opt_string(final(state).last_err) == Some(err)
                &&& old(state).attempt < MAX_RETRIES ==> r == (PostStep::Send {
                    attempt: (old(state).attempt + 1) as u32,
                    delay_ms: backoff((old(state).attempt + 1) as nat) as u64,
                })
                &&& old(state).attempt >= MAX_RETRIES ==> is_chat_failure(r, err)
            },
            PostOutcome::Success(Err(e)) => r matches PostStep::Failed(
                ClaError::ChatCommand { message, source: Some(s) },
            ) && message@ == "failed to parse response body"@ && s@ == e@,
            PostOutcome::Success(Ok(body)) => match response_text(body) {
                Some(t) => r matches PostStep::Answer(a) && a@ == t,
                None => r is UnexpectedFormat,
            },
            PostOutcome::Status { code, body } => {
                let err = status_failure(code, error_detail(body));
                if retryable(code) {
                    &&& opt_string(final(state).last_err) == Some(err)
                    &&& old(state).attempt < MAX_RETRIES ==> r == (PostStep::Send {
                        attempt: (old(state).attempt + 1) as u32,
                        delay_ms: backoff((old(state).attempt + 1) as nat) as u64,
                    })
                    &&& old(state).attempt >= MAX_RETRIES ==> is_chat_failure(r, err)
                } else {
                    is_chat_failure(r, err)
                }
            },
        },
{
    match outcome {
        PostOutcome::SendError(e) => {
            let mut m = chars_of("Request failed: ");
            append_str(&mut m, e.as_str());
            let err = string_of(m.as_slice());
            retry_or_fail(state, err)
        },
        PostOutcome::Success(Err(e)) => PostStep::Failed(
            ClaError::chat_with_source("failed to parse response body", e.as_str()),
        ),
        PostOutcome::Success(Ok(body)) => match extract_response_text(&body) {
            Some(t) => PostStep::Answer(t),
            None => PostStep::UnexpectedFormat,
        },
        PostOutcome::Status { code, body } => {
            let msg = message_for_status(code);
            let detail = match &body {
                Some(b) => error_detail_of(b),
                None => None,
            };
            let err = match detail {
                Some(d) => if !d.as_str().is_empty() {
                    let mut m = chars_of(msg.as_str());
                    append_str(&mut m, ": ");
                    append_str(&mut m, d.as_str());
                    string_of(m.as_slice())
                } else {
                    msg
                },
                None => msg,
            };
            if is_retryable_status(code) {
                retry_or_fail(state, err)
            } else {
                PostStep::Failed(ClaError::chat(err.as_str()))
            }
        },
    }
}

/// The detail of an error body (see `error_detail`).
fn error_detail_of(body: &JsonValue) -> (r: Option<String>)
    ensures
        opt_string(r) == error_detail(Some(*body)),
{
    if let Some(e) = crate::json::get(body, "error") {
        if let Some(m) = crate::json::get(e, "message") {
            if let Some(s) = crate::json::text_of(m) {
                return Some(s.clone());
            }
        }
    }
    None
}

/// The error for a success body without an answer, given the body written
/// out as pretty JSON.
pub fn unexpected_format(pretty: &str) -> (r: ClaError)
    ensures
        r matches ClaError::ChatCommand { message, source: None } && message@
            == "unexpected response format: "@ + pretty@,
{
    let mut m = chars_of("unexpected response format: ");
    append_str(&mut m, pretty);
    let s = string_of(m.as_slice());
    ClaError::chat(s.as_str())
}

} // verus!
