//! What the client's commands decide and print: the default subcommand, the
//! question's input and size, the chat and history listings, and the
//! messages around a response.
use vstd::prelude::*;
use crate::dbus::structures::{ChatList, HistoryEntry, HistoryList};
use crate::rendering::markdown::ansi_render;
use crate::rendering::renderer::{Printed, Renderer};
use crate::session::{char_index_at_byte, decimal, decimal_text};
use crate::text::{
    append_chars, append_repeat, append_str, chars_eq, chars_of, repeat, slice_chars, string_of,
    trim, trim_chars, utf8_len, utf8_length_capped,
};

verus! {

// ---------------------------------------------------------------------------
// Arguments
// ---------------------------------------------------------------------------

/// A global flag, kept ahead of the subcommand.
pub open spec fn is_global_flag(a: Seq<char>) -> bool {
    a == "-p"@ || a == "--plain"@ || a == "--debug"@ || a == "--version"@ || a == "-v"@ || a
        == "-h"@ || a == "--help"@
}

/// A known subcommand.
pub open spec fn is_subcommand(a: Seq<char>) -> bool {
    a == "chat"@ || a == "history"@ || a == "feedback"@ || a == "shell"@
}

/// The views of strings.
pub open spec fn texts(v: Seq<String>) -> Seq<Seq<char>> {
    v.map_values(|s: String| s@)
}

/// The arguments after the program name that are global flags, in order.
pub open spec fn globals_of(args: Seq<Seq<char>>) -> Seq<Seq<char>> {
    args.filter(|a: Seq<char>| is_global_flag(a))
}

/// The arguments after the program name that are not global flags, in order.
pub open spec fn others_of(args: Seq<Seq<char>>) -> Seq<Seq<char>> {
    args.filter(|a: Seq<char>| !is_global_flag(a))
}

/// Whether any of `args` is a subcommand.
pub open spec fn names_subcommand(args: Seq<Seq<char>>) -> bool {
    exists|i: int| 0 <= i < args.len() && #[trigger] is_subcommand(args[i])
}

/// The arguments with `chat` inserted when no subcommand is named: program
/// name, global flags, `chat`, then the other arguments.
pub open spec fn with_default_command(args: Seq<Seq<char>>) -> Seq<Seq<char>> {
    if args.len() <= 1 || names_subcommand(others_of(args.skip(1))) {
        args
    } else {
        seq![args[0]] + globals_of(args.skip(1)) + seq!["chat"@] + others_of(args.skip(1))
    }
}

/// Whether `a` is one of the global flags.
fn global_flag(a: &str) -> (r: bool)
    ensures
        r == is_global_flag(a@),
{
    let v = chars_of(a);
    let s = v.as_slice();
    let p = chars_of("-p");
    let plain = chars_of("--plain");
    let debug = chars_of("--debug");
    let version = chars_of("--version");
    let v2 = chars_of("-v");
    let h = chars_of("-h");
    let help = chars_of("--help");
    chars_eq(s, p.as_slice()) || chars_eq(s, plain.as_slice()) || chars_eq(s, debug.as_slice())
        || chars_eq(s, version.as_slice()) || chars_eq(s, v2.as_slice()) || chars_eq(
        s,
        h.as_slice(),
    ) || chars_eq(s, help.as_slice())
}

/// Whether `a` is a known subcommand.
fn subcommand(a: &str) -> (r: bool)
    ensures
        r == is_subcommand(a@),
{
    let v = chars_of(a);
    let s = v.as_slice();
    let c = chars_of("chat");
    let hi = chars_of("history");
    let f = chars_of("feedback");
    let sh = chars_of("shell");
    chars_eq(s, c.as_slice()) || chars_eq(s, hi.as_slice()) || chars_eq(s, f.as_slice())
        || chars_eq(s, sh.as_slice())
}

/// Inject `chat` as the subcommand when the user runs `c "question"` without
/// naming one; global flags stay ahead of it.
pub fn add_default_command(args: Vec<String>) -> (r: Vec<String>)
    ensures
        texts(r@) == with_default_command(texts(args@)),
{
    if args.len() <= 1 {
        return args;
    }
    let ghost tail = texts(args@).skip(1);
    let mut globals: Vec<String> = Vec::new();
    let mut rest: Vec<String> = Vec::new();
    let mut has_sub = false;
    let mut i: usize = 1;
    proof {
        reveal(Seq::filter);
        assert(tail.take(0) =~= Seq::<Seq<char>>::empty());
    }
    while i < args.len()
        invariant
            1 <= i <= args.len(),
            tail == texts(args@).skip(1),
            texts(globals@) == globals_of(tail.take(i - 1)),
            texts(rest@) == others_of(tail.take(i - 1)),
            has_sub == names_subcommand(others_of(tail.take(i - 1))),
        decreases args.len() - i,
    {
        let a = args[i].as_str();
        let ghost prev_g = globals@;
        let ghost prev_r = rest@;
        let ghost prev_has = has_sub;
        let g = global_flag(a);
        let sub = subcommand(a);
        if g {
            globals.push(args[i].clone());
        } else {
            if sub {
                has_sub = true;
            }
            rest.push(args[i].clone());
        }
        proof {
            reveal(Seq::filter);
            let t = tail.take(i as int);
            assert(tail.take(i - 1) =~= t.drop_last());
            assert(t.last() == args@[i as int]@);
            if g {
                assert(texts(globals@) =~= texts(prev_g).push(args@[i as int]@));
                assert(texts(rest@) =~= texts(prev_r));
            } else {
                assert(texts(globals@) =~= texts(prev_g));
                assert(texts(rest@) =~= texts(prev_r).push(args@[i as int]@));
                let o = others_of(t);
                assert(o =~= others_of(tail.take(i - 1)).push(args@[i as int]@));
                if names_subcommand(o) {
                    let j = choose|j: int| 0 <= j < o.len() && #[trigger] is_subcommand(o[j]);
                    if j < o.len() - 1 {
                        assert(others_of(tail.take(i - 1))[j] == o[j]);
                    }
                }
                if prev_has {
                    let j = choose|j: int| 0 <= j < others_of(tail.take(i - 1)).len() && #[trigger] is_subcommand(others_of(tail.take(i - 1))[j]);
                    assert(o[j] == others_of(tail.take(i - 1))[j]);
                }
                if sub {
                    assert(is_subcommand(o[o.len() - 1]));
                }
            }
        }
        i += 1;
    }
    assert(tail.take(args.len() - 1) =~= tail);
    if has_sub {
        return args;
    }
    let mut result: Vec<String> = Vec::new();
    result.push(args[0].clone());
    let mut j: usize = 0;
    while j < globals.len()
        invariant
            j <= globals.len(),
            texts(result@) == seq![texts(args@)[0]] + texts(globals@).take(j as int),
        decreases globals.len() - j,
    {
        let ghost prev = result@;
        result.push(globals[j].clone());
        assert(texts(result@) =~= texts(prev).push(texts(globals@)[j as int]));
        assert(texts(globals@).take(j + 1) =~= texts(globals@).take(j as int).push(texts(globals@)[j as int]));
        j += 1;
    }
    let ghost before_chat = result@;
    result.push("chat".to_owned());
    assert(texts(result@) =~= texts(before_chat).push("chat"@));
    let mut k: usize = 0;
    let ghost head = texts(result@);
    while k < rest.len()
        invariant
            k <= rest.len(),
            texts(result@) == head + texts(rest@).take(k as int),
        decreases rest.len() - k,
    {
        let ghost prev = result@;
        result.push(rest[k].clone());
        assert(texts(result@) =~= texts(prev).push(texts(rest@)[k as int]));
        assert(texts(rest@).take(k + 1) =~= texts(rest@).take(k as int).push(texts(rest@)[k as int]));
        k += 1;
    }
    assert(texts(globals@).take(globals.len() as int) =~= texts(globals@));
    assert(texts(rest@).take(rest.len() as int) =~= texts(rest@));
    result
}

/// Naming any of `chat`, `history`, `feedback` or `shell` after the program
/// name keeps the arguments as they are: no `chat` is added in front of a
/// command the user named.
pub proof fn lemma_named_subcommand_kept(args: Seq<Seq<char>>, i: int)
    requires
        1 <= i < args.len(),
        args[i] == "chat"@ || args[i] == "history"@ || args[i] == "feedback"@ || args[i] == "shell"@,
    ensures
        with_default_command(args) == args,
{
    reveal_strlit("chat");
    reveal_strlit("history");
    reveal_strlit("feedback");
    reveal_strlit("shell");
    reveal_strlit("-p");
    reveal_strlit("--plain");
    reveal_strlit("--debug");
    reveal_strlit("--version");
    reveal_strlit("-v");
    reveal_strlit("-h");
    reveal_strlit("--help");
    assert("-p"@.len() == 2 && "-v"@.len() == 2 && "-h"@.len() == 2);
    assert("--plain"@.len() == 7 && "--debug"@.len() == 7);
    assert("--version"@.len() == 9 && "--help"@.len() == 6);
    assert("chat"@.len() == 4 && "history"@.len() == 7 && "feedback"@.len() == 8 && "shell"@.len() == 5);
    assert("history"@[0] == 'h' && "--plain"@[0] == '-' && "--debug"@[0] == '-');
    assert(!is_global_flag(args[i]));
    let t = args.skip(1);
    let pred = |a: Seq<char>| !is_global_flag(a);
    assert(t[i - 1] == args[i]);
    t.lemma_filter_contains(pred, i - 1);
    let o = others_of(t);
    let j = choose|j: int| 0 <= j < o.len() && o[j] == args[i];
    assert(is_subcommand(o[j]));
    assert(names_subcommand(o));
}

/// Adding the default subcommand twice adds it once: once it is there, the
/// arguments name a subcommand.
pub proof fn lemma_default_command_idempotent(args: Seq<Seq<char>>)
    ensures
        with_default_command(with_default_command(args)) == with_default_command(args),
{
    let r = with_default_command(args);
    if r != args {
        let t = args.skip(1);
        let g = globals_of(t);
        let o = others_of(t);
        let chat = seq!["chat"@];
        assert(r.skip(1) =~= g + chat + o);
        let pred = |a: Seq<char>| !is_global_flag(a);
        Seq::filter_distributes_over_add(g + chat, o, pred);
        Seq::filter_distributes_over_add(g, chat, pred);
        reveal_strlit("chat");
        reveal_strlit("-p");
        reveal_strlit("--plain");
        reveal_strlit("--debug");
        reveal_strlit("--version");
        reveal_strlit("-v");
        reveal_strlit("-h");
        reveal_strlit("--help");
        assert("chat"@.len() == 4);
        assert("-p"@.len() == 2 && "-v"@.len() == 2 && "-h"@.len() == 2);
        assert("--plain"@.len() == 7 && "--debug"@.len() == 7);
        assert("--version"@.len() == 9 && "--help"@.len() == 6);
        assert(!is_global_flag("chat"@));
        assert(chat.filter(pred) =~= chat) by {
            reveal(Seq::filter);
            assert(chat.drop_last() =~= Seq::<Seq<char>>::empty());
        }
        let others = others_of(r.skip(1));
        assert(others == g.filter(pred) + chat + o.filter(pred));
        let k = g.filter(pred).len() as int;
        assert(others[k] == "chat"@);
        assert(is_subcommand(others[k]));
        assert(names_subcommand(others));
    }
}

// ---------------------------------------------------------------------------
// Input
// ---------------------------------------------------------------------------

/// Piped standard input, trimmed; `None` when nothing but whitespace came.
pub fn stdin_input(buf: &str) -> (r: Option<String>)
    ensures
        match r {
            Some(s) => s@ == trim(buf@) && trim(buf@).len() > 0,
            None => trim(buf@).len() == 0,
        },
{
    let v = chars_of(buf);
    let t = trim_chars(v.as_slice());
    if t.len() == 0 {
        None
    } else {
        Some(string_of(t.as_slice()))
    }
}

/// The optional text's view.
pub open spec fn opt_view(s: Option<&str>) -> Option<Seq<char>> {
    match s {
        Some(x) => Some(x@),
        None => None,
    }
}

/// The question's text, by priority: the query, then stdin (each when not
/// blank), then the attachment's contents (when it could be read), then the
/// selected terminal output (when not empty); else nothing.
pub open spec fn input_text(query: Option<Seq<char>>, stdin: Option<Seq<char>>, attachment: Option<Seq<char>>, terminal: Option<Seq<char>>) -> Seq<char> {
    if query matches Some(q) && trim(q).len() > 0 {
        query->0
    } else if stdin matches Some(s) && trim(s).len() > 0 {
        stdin->0
    } else if attachment is Some {
        attachment->0
    } else if terminal matches Some(t) && t.len() > 0 {
        terminal->0
    } else {
        seq![]
    }
}

/// Whether `s` is blank.
fn blank(s: &str) -> (r: bool)
    ensures
        r == (trim(s@).len() == 0),
{
    let v = chars_of(s);
    let t = trim_chars(v.as_slice());
    t.len() == 0
}

/// Gather the question from its sources (see `input_text`). The later
/// sources are consulted only when the earlier ones give nothing, so a
/// caller may read them on demand.
pub fn gather_input(query: Option<&str>, stdin: Option<&str>, attachment: Option<&str>, terminal: Option<&str>) -> (r: String)
    ensures
        r@ == input_text(opt_view(query), opt_view(stdin), opt_view(attachment), opt_view(terminal)),
{
    if let Some(q) = query {
        if !blank(q) {
            return q.to_owned();
        }
    }
    if let Some(s) = stdin {
        if !blank(s) {
            return s.to_owned();
        }
    }
    if let Some(a) = attachment {
        return a.to_owned();
    }
    if let Some(t) = terminal {
        if !t.is_empty() {
            return t.to_owned();
        }
    }
    String::new()
}

/// Maximum question size in bytes.
pub const MAX_QUESTION_SIZE: usize = 32000;

/// The index, into blocks ordered most recent first, of the `n`-th latest
/// terminal output: `1` is the latest, `2` the one before it; `0` is taken
/// as the latest too.
pub fn output_index(n: usize) -> (r: isize)
    requires
        n <= isize::MAX,
    ensures
        r == if n == 0 { 0 } else { n - 1 },
{
    if n == 0 {
        0
    } else {
        (n - 1) as isize
    }
}

/// What becomes of a question before it is sent.
pub enum QuestionCheck {
    /// Under two bytes once trimmed: refused.
    TooShort,
    /// Sent, cut to the size limit when `trimmed`.
    Ready { text: String, trimmed: bool },
}

/// Whether a question longer than the limit can be cut at the limit (else
/// slicing it there panics).
pub open spec fn cuttable(text: Seq<char>) -> bool {
    utf8_len(text) > 32000 ==> char_index_at_byte(text, 32000) is Some
}

/// Check a question's size: refuse one under two bytes once trimmed, cut one
/// over 32000 bytes to its first 32000 bytes. Only a question that is long
/// enough is cut, so only then must the limit fall between characters.
pub fn check_question(text: &str) -> (r: QuestionCheck)
    requires
        utf8_len(trim(text@)) >= 2 ==> cuttable(text@),
    ensures
        utf8_len(trim(text@)) < 2 <==> r is TooShort,
        r matches QuestionCheck::Ready { text: t, trimmed } ==> (trimmed <==> utf8_len(text@) > 32000)
            && if trimmed {
            t@ == text@.take(char_index_at_byte(text@, 32000)->0 as int)
        } else {
            t@ == text@
        },
{
    let v = chars_of(text);
    let t = trim_chars(v.as_slice());
    let n = utf8_length_capped(t.as_slice(), 2);
    if n < 2 {
        return QuestionCheck::TooShort;
    }
    let total = utf8_length_capped(v.as_slice(), MAX_QUESTION_SIZE + 1);
    if total > MAX_QUESTION_SIZE {
        let k = index_at_byte(v.as_slice(), MAX_QUESTION_SIZE);
        let cut = slice_chars(v.as_slice(), 0, k);
        assert(cut@ =~= text@.take(k as int));
        QuestionCheck::Ready { text: string_of(cut.as_slice()), trimmed: true }
    } else {
        QuestionCheck::Ready { text: text.to_owned(), trimmed: false }
    }
}

/// The character index after the first `k` bytes, where one ends there.
fn index_at_byte(v: &[char], k: usize) -> (r: usize)
    requires
        char_index_at_byte(v@, k as int) is Some,
    ensures
        char_index_at_byte(v@, k as int) == Some(r as nat),
        r <= v.len(),
{
    let mut i: usize = 0;
    let mut rest: usize = k;
    assert(v@.skip(0) =~= v@);
    while rest > 0
        invariant
            i <= v.len(),
            char_index_at_byte(v@, k as int) == match char_index_at_byte(v@.skip(i as int), rest as int) {
                Some(j) => Some((j + i) as nat),
                None => None::<nat>,
            },
            char_index_at_byte(v@, k as int) is Some,
        decreases rest,
    {
        let w = crate::text::char_utf8_width(v[i]);
        assert(v@.skip(i as int)[0] == v@[i as int]);
        assert(v@.skip(i as int).drop_first() =~= v@.skip(i + 1));
        rest = rest - w;
        i = i + 1;
    }
    i
}

/// The message for a question that is too short.
pub const TOO_SHORT_MESSAGE: &'static str = "Your query needs to have at least 2 characters.";

/// The warning for a question cut to the size limit.
pub const TRIMMED_MESSAGE: &'static str = "Question exceeds 32KB limit. Trimming to fit.";

// ---------------------------------------------------------------------------
// Legal notice and responses
// ---------------------------------------------------------------------------

/// Legal notice shown once per session.
pub const LEGAL_NOTICE: &'static str = "This feature uses AI technology. Do not include any personal information or other sensitive information in your input. Interactions may be used to improve Red Hat's products or services.";

/// Shown after every response.
pub const ALWAYS_LEGAL_MESSAGE: &'static str = "Always review AI-generated content prior to use.";

/// Whether the legal notice is due: not when the recorded parent process is
/// this session's.
pub fn show_legal_notice(recorded: Option<&str>, ppid: u32) -> (r: bool)
    ensures
        r == !(recorded matches Some(c) && trim(c@) == decimal(ppid as nat)),
{
    match recorded {
        Some(c) => {
            let v = chars_of(c);
            let t = trim_chars(v.as_slice());
            let p = decimal_text(ppid);
            !chars_eq(t.as_slice(), p.as_slice())
        },
        None => true,
    }
}

/// What records that the notice was shown to the session of `ppid`.
pub fn legal_notice_record(ppid: u32) -> (r: String)
    ensures
        r@ == decimal(ppid as nat),
{
    let d = decimal_text(ppid);
    string_of(d.as_slice())
}

/// A rule of `n` box-drawing dashes.
pub open spec fn rule(n: nat) -> Seq<char> {
    repeat(seq!['─'], n)
}

/// `n` box-drawing dashes.
fn rule_text(n: usize) -> (r: String)
    ensures
        r@ == rule(n as nat),
{
    let mut out: Vec<char> = Vec::new();
    let dash = vec!['─'];
    append_repeat(&mut out, dash.as_slice(), n);
    assert(dash@ =~= seq!['─']);
    assert(out@ =~= rule(n as nat));
    string_of(out.as_slice())
}

/// A response between two rules, followed by the legal reminder.
pub fn display_response(renderer: &Renderer, response: &str) -> (r: Vec<Printed>)
    requires
        utf8_len(response@) <= isize::MAX,
    ensures
        r@.len() == 6,
        r@[0] matches Printed::Stdout(s) && s@ == crate::rendering::renderer::decorated(renderer.plain, seq![], rule(72), renderer.theme.notice, renderer.theme.no_color),
        r@[1] matches Printed::Stdout(s) && s@.len() == 0,
        r@[2] matches Printed::Inline(s) && s@ == ansi_render(response@, renderer.theme, renderer.plain),
        r@[3] matches Printed::Stdout(s) && s@.len() == 0,
        r@[4] matches Printed::Stdout(s) && s@ == crate::rendering::renderer::decorated(renderer.plain, seq![], rule(72), renderer.theme.notice, renderer.theme.no_color),
        r@[5] matches Printed::Stdout(s) && s@ == crate::rendering::renderer::decorated(renderer.plain, seq![], ALWAYS_LEGAL_MESSAGE@, renderer.theme.notice, renderer.theme.no_color),
{
    proof {
        reveal_strlit("");
    }
    let line = rule_text(72);
    let mut out: Vec<Printed> = Vec::new();
    out.push(renderer.notice(line.as_str()));
    out.push(renderer.normal(""));
    out.push(renderer.markdown(response));
    out.push(renderer.normal(""));
    out.push(renderer.notice(line.as_str()));
    out.push(renderer.notice(ALWAYS_LEGAL_MESSAGE));
    out
}

/// Where to send feedback; exit code 0.
pub fn handle_feedback(renderer: &Renderer) -> (r: (Vec<Printed>, i32))
    ensures
        r.1 == 0,
        r.0@.len() == 2,
        r.0@[0] matches Printed::Stdout(s) && s@ == crate::rendering::renderer::decorated(renderer.plain, seq![], FEEDBACK_NOTICE@, renderer.theme.notice, renderer.theme.no_color),
        r.0@[1] matches Printed::Stdout(s) && s@ == FEEDBACK_ADDRESS@,
{
    let mut out: Vec<Printed> = Vec::new();
    out.push(renderer.notice(FEEDBACK_NOTICE));
    out.push(renderer.normal(FEEDBACK_ADDRESS));
    (out, 0)
}

/// The notice shown before the feedback address.
pub const FEEDBACK_NOTICE: &'static str = "Do not include any personal information or other sensitive information in your feedback. Feedback may be used to improve Red Hat's products or services.";

/// Where feedback goes.
pub const FEEDBACK_ADDRESS: &'static str = "To submit feedback, use the following email address: <cla-feedback@redhat.com>.";

// ---------------------------------------------------------------------------
// Chats
// ---------------------------------------------------------------------------

/// Default chat name.
pub const DEFAULT_CHAT_NAME: &'static str = "default";

/// Default chat description.
pub const DEFAULT_CHAT_DESCRIPTION: &'static str = "Default Command Line Assistant Chat.";

/// The chat name, `default` unless given.
pub fn chat_name(name: Option<String>) -> (r: String)
    ensures
        r@ == match name {
            Some(n) => n@,
            None => DEFAULT_CHAT_NAME@,
        },
{
    match name {
        Some(n) => n,
        None => DEFAULT_CHAT_NAME.to_owned(),
    }
}

/// The chat description, the default one unless given.
pub fn chat_description(description: Option<String>) -> (r: String)
    ensures
        r@ == match description {
            Some(d) => d@,
            None => DEFAULT_CHAT_DESCRIPTION@,
        },
{
    match description {
        Some(d) => d,
        None => DEFAULT_CHAT_DESCRIPTION.to_owned(),
    }
}

/// The line listing chat `i`.
pub open spec fn chat_line(i: nat, name: Seq<char>, description: Seq<char>, created_at: Seq<char>) -> Seq<char> {
    decimal(i) + ". Chat: "@ + name + " - "@ + description + " (created at: "@ + created_at + ")"@
}

/// The listing of the user's chats: a count and one line per chat, numbered
/// from 0; or a note that there are none.
pub fn chat_list_lines(chats: &ChatList) -> (r: Vec<String>)
    requires
        chats.chats@.len() <= u32::MAX,
    ensures
        chats.chats@.len() == 0 ==> r@.len() == 1 && r@[0]@ == "No chats available."@,
        chats.chats@.len() > 0 ==> r@.len() == chats.chats@.len() + 1 && r@[0]@ == "Found a total of "@
            + decimal(chats.chats@.len()) + " chats:"@ && forall|i: int|
            0 <= i < chats.chats@.len() ==> #[trigger] r@[i + 1]@ == chat_line(
                i as nat,
                chats.chats@[i].name@,
                chats.chats@[i].description@,
                chats.chats@[i].created_at@,
            ),
{
    let mut out: Vec<String> = Vec::new();
    let n = chats.chats.len();
    if n == 0 {
        out.push("No chats available.".to_owned());
        return out;
    }
    let mut head = chars_of("Found a total of ");
    let count = decimal_text(n as u32);
    append_chars(&mut head, count.as_slice());
    append_str(&mut head, " chats:");
    out.push(string_of(head.as_slice()));
    let mut i: usize = 0;
    while i < n
        invariant
            i <= n == chats.chats@.len() <= u32::MAX,
            out@.len() == i + 1,
            out@[0]@ == "Found a total of "@ + decimal(n as nat) + " chats:"@,
            forall|j: int| 0 <= j < i ==> #[trigger] out@[j + 1]@ == chat_line(
                j as nat,
                chats.chats@[j].name@,
                chats.chats@[j].description@,
                chats.chats@[j].created_at@,
            ),
        decreases n - i,
    {
        let c = &chats.chats[i];
        let mut line = decimal_text(i as u32);
        append_str(&mut line, ". Chat: ");
        append_str(&mut line, c.name.as_str());
        append_str(&mut line, " - ");
        append_str(&mut line, c.description.as_str());
        append_str(&mut line, " (created at: ");
        append_str(&mut line, c.created_at.as_str());
        append_str(&mut line, ")");
        out.push(string_of(line.as_slice()));
        i += 1;
    }
    out
}

// ---------------------------------------------------------------------------
// History
// ---------------------------------------------------------------------------

/// Which conversations a history command reads.
#[derive(Clone, Debug)]
pub enum HistoryQuery {
    First,
    Last,
    Filtered(String),
    All,
}

/// What a history command does.
#[derive(Clone, Debug)]
pub enum HistoryAction {
    /// Clear the chat's history.
    Clear,
    /// Clear all history.
    ClearAll,
    /// Read and show conversations.
    Read(HistoryQuery),
}

/// Decide a history command: whether the chat's availability is checked
/// first (always, unless clearing all), and the action, by priority: clear,
/// clear all, first, last, filter, everything.
pub fn history_action(first: bool, last: bool, filter: Option<&str>, clear: bool, clear_all: bool) -> (r: (bool, HistoryAction))
    ensures
        r.0 == !clear_all,
        clear ==> r.1 is Clear,
        !clear && clear_all ==> r.1 is ClearAll,
        !clear && !clear_all && first ==> r.1 matches HistoryAction::Read(HistoryQuery::First),
        !clear && !clear_all && !first && last ==> r.1 matches HistoryAction::Read(HistoryQuery::Last),
        !clear && !clear_all && !first && !last ==> match filter {
            Some(f) => r.1 matches HistoryAction::Read(HistoryQuery::Filtered(x)) && x@ == f@,
            None => r.1 matches HistoryAction::Read(HistoryQuery::All),
        },
{
    let action = if clear {
        HistoryAction::Clear
    } else if clear_all {
        HistoryAction::ClearAll
    } else if first {
        HistoryAction::Read(HistoryQuery::First)
    } else if last {
        HistoryAction::Read(HistoryQuery::Last)
    } else {
        match filter {
            Some(f) => HistoryAction::Read(HistoryQuery::Filtered(f.to_owned())),
            None => HistoryAction::Read(HistoryQuery::All),
        }
    };
    (!clear_all, action)
}

/// The markdown of a history entry's question.
pub open spec fn question_markdown(q: Seq<char>) -> Seq<char> {
    "## 🤔 Question\n"@ + q + "\n"@
}

/// The markdown of a history entry's answer.
pub open spec fn answer_markdown(a: Seq<char>) -> Seq<char> {
    "## 🤖 Answer\n"@ + a + "\n"@
}

/// The markdown of a history entry's creation time.
pub open spec fn created_markdown(c: Seq<char>) -> Seq<char> {
    "*Created at: "@ + c + "*\n"@
}

/// Whether every part of the entry renders.
pub open spec fn entry_renders(e: HistoryEntry, renderer: Renderer) -> bool {
    &&& utf8_len(question_markdown(e.question@)) <= isize::MAX
    &&& utf8_len(answer_markdown(e.response@)) <= isize::MAX
    &&& utf8_len(created_markdown(e.created_at@)) <= isize::MAX
}

/// `prefix`, `s`, `suffix`.
fn wrapped(prefix: &str, s: &str, suffix: &str) -> (r: String)
    ensures
        r@ == prefix@ + s@ + suffix@,
{
    let mut out = chars_of(prefix);
    append_str(&mut out, s);
    append_str(&mut out, suffix);
    string_of(out.as_slice())
}

/// What is shown for one history entry: its question, a blank line, its
/// answer and its creation time as markdown, and a rule of 60 double lines
/// when `separated`.
pub open spec fn entry_shown(p: Seq<Printed>, e: HistoryEntry, renderer: Renderer, separated: bool) -> bool {
    &&& p.len() == if separated { 5int } else { 4int }
    &&& p[0] matches Printed::Inline(s) && s@ == ansi_render(question_markdown(e.question@), renderer.theme, renderer.plain)
    &&& p[1] matches Printed::Stdout(s) && s@.len() == 0
    &&& p[2] matches Printed::Inline(s) && s@ == ansi_render(answer_markdown(e.response@), renderer.theme, renderer.plain)
    &&& p[3] matches Printed::Inline(s) && s@ == ansi_render(created_markdown(e.created_at@), renderer.theme, renderer.plain)
    &&& separated ==> (p[4] matches Printed::Stdout(s) && s@ == repeat(seq!['═'], 60))
}

/// What is shown for one entry (see `entry_shown`).
fn show_entry(renderer: &Renderer, e: &HistoryEntry, sep: &Option<String>) -> (r: Vec<Printed>)
    requires
        entry_renders(*e, *renderer),
        sep matches Some(x) ==> x@ == repeat(seq!['═'], 60),
    ensures
        entry_shown(r@, *e, *renderer, sep is Some),
{
    proof {
        reveal_strlit("");
    }
    let mut out: Vec<Printed> = Vec::new();
    let q = wrapped("## 🤔 Question\n", e.question.as_str(), "\n");
    let a = wrapped("## 🤖 Answer\n", e.response.as_str(), "\n");
    let c = wrapped("*Created at: ", e.created_at.as_str(), "*\n");
    out.push(renderer.markdown(q.as_str()));
    out.push(renderer.normal(""));
    out.push(renderer.markdown(a.as_str()));
    out.push(renderer.markdown(c.as_str()));
    if let Some(x) = sep {
        out.push(renderer.normal(x.as_str()));
    }
    out
}

/// Show history entries, one group per entry (see `entry_shown`), with the
/// rule after each when there is more than one; or a note that there are
/// none.
pub fn history_lines(renderer: &Renderer, history: &HistoryList) -> (r: Vec<Vec<Printed>>)
    requires
        forall|i: int| 0 <= i < history.histories@.len() ==> entry_renders(#[trigger] history.histories@[i], *renderer),
    ensures
        history.histories@.len() == 0 ==> r@.len() == 1 && r@[0]@.len() == 1 && (r@[0]@[0] matches Printed::Stdout(s) && s@ == "No history entries found"@),
        history.histories@.len() > 0 ==> r@.len() == history.histories@.len() && forall|i: int| 0 <= i < history.histories@.len() ==> entry_shown(#[trigger] r@[i]@, history.histories@[i], *renderer, history.histories@.len() > 1),
{
    let mut out: Vec<Vec<Printed>> = Vec::new();
    let n = history.histories.len();
    if n == 0 {
        let mut only: Vec<Printed> = Vec::new();
        only.push(renderer.normal("No history entries found"));
        out.push(only);
        return out;
    }
    let sep = if n > 1 {
        let mut sep_chars: Vec<char> = Vec::new();
        let dbl = vec!['═'];
        assert(dbl@ =~= seq!['═']);
        append_repeat(&mut sep_chars, dbl.as_slice(), 60);
        Some(string_of(sep_chars.as_slice()))
    } else {
        None
    };
    let mut i: usize = 0;
    while i < n
        invariant
            i <= n == history.histories@.len(),
            sep is Some <==> n > 1,
            sep matches Some(x) ==> x@ == repeat(seq!['═'], 60),
            out@.len() == i,
            forall|j: int| 0 <= j < n ==> entry_renders(#[trigger] history.histories@[j], *renderer),
            forall|j: int| 0 <= j < i ==> entry_shown(#[trigger] out@[j]@, history.histories@[j], *renderer, n > 1),
        decreases n - i,
    {
        let group = show_entry(renderer, &history.histories[i], &sep);
        out.push(group);
        i += 1;
    }
    out
}

/// An error as the renderer shows it.
pub open spec fn errored(renderer: Renderer, message: Seq<char>) -> Seq<char> {
    crate::rendering::renderer::decorated(renderer.plain, "🙁 "@, message, renderer.theme.error, renderer.theme.no_color)
}

/// After asking whether the chat is available: `None` to go on when it is;
/// else the error shown and exit code 1.
pub fn availability_checked(renderer: &Renderer, from_chat: &str, outcome: &Result<bool, String>) -> (r: Option<(Printed, i32)>)
    ensures
        match outcome {
            Ok(true) => r is None,
            Ok(false) => r matches Some((p, c)) && c == 1 && (p matches Printed::Stderr(s) && s@ == errored(
                *renderer,
                "Nothing to clean as "@ + from_chat@ + " chat is not available. Try asking something first."@,
            )),
            Err(e) => r matches Some((p, c)) && c == 1 && (p matches Printed::Stderr(s) && s@ == errored(
                *renderer,
                "Failed to check chat availability: "@ + e@,
            )),
        },
{
    match outcome {
        Ok(true) => None,
        Ok(false) => {
            let m = wrapped("Nothing to clean as ", from_chat, " chat is not available. Try asking something first.");
            Some((renderer.error(m.as_str()), 1))
        },
        Err(e) => {
            let m = wrapped("Failed to check chat availability: ", e.as_str(), "");
            proof { reveal_strlit(""); }
            Some((renderer.error(m.as_str()), 1))
        },
    }
}

/// After clearing the chat's history (or all history, when `all`): the
/// message shown and the exit code, 0 on success and 1 on failure.
pub fn clear_finished(renderer: &Renderer, all: bool, outcome: &Result<(), String>) -> (r: (Printed, i32))
    ensures
        match outcome {
            Ok(()) => r.1 == 0 && (r.0 matches Printed::Stdout(s) && s@ == if all {
                "All histories cleared successfully."@
            } else {
                "History cleaned successfully."@
            }),
            Err(e) => r.1 == 1 && (r.0 matches Printed::Stderr(s) && s@ == errored(
                *renderer,
                (if all { "Failed to clear all history: "@ } else { "Failed to clear history: "@ }) + e@,
            )),
        },
{
    proof { reveal_strlit(""); }
    match outcome {
        Ok(()) => if all {
            (renderer.normal("All histories cleared successfully."), 0)
        } else {
            (renderer.normal("History cleaned successfully."), 0)
        },
        Err(e) => {
            let m = if all {
                wrapped("Failed to clear all history: ", e.as_str(), "")
            } else {
                wrapped("Failed to clear history: ", e.as_str(), "")
            };
            (renderer.error(m.as_str()), 1)
        },
    }
}

/// After reading history: the entries shown (see `history_lines`) and 0, or
/// the error shown and 1.
pub fn history_read(renderer: &Renderer, outcome: &Result<HistoryList, String>) -> (r: (Vec<Vec<Printed>>, i32))
    requires
        outcome matches Ok(h) ==> forall|i: int| 0 <= i < h.histories@.len() ==> entry_renders(#[trigger] h.histories@[i], *renderer),
    ensures
        match outcome {
            Ok(h) => r.1 == 0 && (h.histories@.len() == 0 ==> r.0@.len() == 1 && r.0@[0]@.len() == 1 && (r.0@[0]@[0] matches Printed::Stdout(s) && s@ == "No history entries found"@))
                && (h.histories@.len() > 0 ==> r.0@.len() == h.histories@.len() && forall|i: int| 0 <= i < h.histories@.len() ==> entry_shown(#[trigger] r.0@[i]@, h.histories@[i], *renderer, h.histories@.len() > 1)),
            Err(e) => r.1 == 1 && r.0@.len() == 1 && r.0@[0]@.len() == 1 && (r.0@[0]@[0] matches Printed::Stderr(s) && s@ == errored(
                *renderer,
                "Failed to get history: "@ + e@,
            )),
        },
{
    match outcome {
        Ok(h) => (history_lines(renderer, h), 0),
        Err(e) => {
            let m = wrapped("Failed to get history: ", e.as_str(), "");
            proof { reveal_strlit(""); }
            let mut only: Vec<Printed> = Vec::new();
            only.push(renderer.error(m.as_str()));
            let mut out: Vec<Vec<Printed>> = Vec::new();
            out.push(only);
            (out, 1)
        },
    }
}

// ---------------------------------------------------------------------------
// Interactive mode
// ---------------------------------------------------------------------------

/// What a line read in interactive mode leads to.
#[derive(Clone, Debug)]
pub enum InteractiveStep {
    /// End of input, a read error, or `.exit`: leave.
    Stop,
    /// A blank line: complain and read again.
    Empty,
    /// Ask this question.
    Ask(String),
}

/// Decide on a line read in interactive mode (`None` at end of input or on a
/// read error).
pub fn interactive_step(line: Option<&str>) -> (r: InteractiveStep)
    ensures
        match line {
            None => r is Stop,
            Some(l) => if trim(l@) == ".exit"@ {
                r is Stop
            } else if trim(l@).len() == 0 {
                r is Empty
            } else {
                r matches InteractiveStep::Ask(q) && q@ == trim(l@)
            },
        },
{
    match line {
        None => InteractiveStep::Stop,
        Some(l) => {
            let v = chars_of(l);
            let t = trim_chars(v.as_slice());
            let exit = chars_of(".exit");
            if chars_eq(t.as_slice(), exit.as_slice()) {
                InteractiveStep::Stop
            } else if t.len() == 0 {
                InteractiveStep::Empty
            } else {
                InteractiveStep::Ask(string_of(t.as_slice()))
            }
        },
    }
}

/// The refusal of interactive mode while a terminal capture runs.
pub const CAPTURE_RUNNING_MESSAGE: &'static str = "Interactive mode is not available while terminal capture is active. Stop the capture session first.";

/// Whether interactive mode may start: not while a terminal capture session
/// runs, which is refused with an error and exit code 1.
pub fn interactive_allowed(renderer: &Renderer, capture_running: bool) -> (r: Option<(Printed, i32)>)
    ensures
        !capture_running ==> r is None,
        capture_running ==> (r matches Some((p, c)) && c == 1 && (p matches Printed::Stderr(s) && s@
            == errored(*renderer, CAPTURE_RUNNING_MESSAGE@))),
{
    if capture_running {
        Some((renderer.error(CAPTURE_RUNNING_MESSAGE), 1))
    } else {
        None
    }
}

/// The greeting of interactive mode.
pub fn interactive_welcome() -> (r: Vec<String>)
    ensures
        r@.len() == 4,
        r@[0]@ == "Welcome to the interactive mode for command line assistant!"@,
        r@[1]@ == "To exit, press Ctrl + C or type '.exit'."@,
        r@[2]@ == "The current session does not include running context."@,
        r@[3]@.len() == 0,
{
    let mut out: Vec<String> = Vec::new();
    out.push("Welcome to the interactive mode for command line assistant!".to_owned());
    out.push("To exit, press Ctrl + C or type '.exit'.".to_owned());
    out.push("The current session does not include running context.".to_owned());
    out.push(String::new());
    out
}

// ---------------------------------------------------------------------------
// Shell integration
// ---------------------------------------------------------------------------

/// What the shell command does.
#[derive(Clone, Debug)]
pub enum ShellAction {
    /// Install the interactive-mode integration file.
    EnableInteractive,
    /// Remove the interactive-mode integration file.
    DisableInteractive,
    /// Capture the terminal session.
    Capture,
    /// Nothing was asked for.
    Nothing,
}

/// Decide the shell command, by priority: enable interactive, disable
/// interactive, capture.
pub fn shell_action(enable_capture: bool, enable_interactive: bool, disable_interactive: bool) -> (r: ShellAction)
    ensures
        enable_interactive ==> r is EnableInteractive,
        !enable_interactive && disable_interactive ==> r is DisableInteractive,
        !enable_interactive && !disable_interactive && enable_capture ==> r is Capture,
        !enable_interactive && !disable_interactive && !enable_capture ==> r is Nothing,
{
    if enable_interactive {
        ShellAction::EnableInteractive
    } else if disable_interactive {
        ShellAction::DisableInteractive
    } else if enable_capture {
        ShellAction::Capture
    } else {
        ShellAction::Nothing
    }
}

/// The integration file's name.
pub const INTEGRATION_FILE: &'static str = "cla-interactive.bashrc";

/// The Bash integration that binds Ctrl+G to interactive mode.
pub const BASH_INTERACTIVE: &'static str = "\n# Command Line Assistant Interactive Mode Integration\n__c_interactive() {\n    local old_tty=$(stty -g)\n    local c_binary=/usr/bin/c\n\n    cleanup() {\n        stty \"$old_tty\"\n    }\n\n    trap cleanup EXIT\n    stty sane\n    stty echo\n    stty icanon\n\n    if command -v $c_binary >/dev/null 2>&1; then\n        $c_binary chat --interactive\n    else\n        echo \"Error: Command Line Assistant is not installed\"\n        return 1\n    fi\n\n    cleanup\n}\n\nbind -x '\"\\C-g\": __c_interactive'\n";

/// What the capture and no-op shell actions show first: capture is
/// announced with the log's path (code 0, after which the capture runs and
/// `capture_finished` gives the exit code); no action is a warning (1).
pub fn shell_notice(renderer: &Renderer, action: &ShellAction, capture_file: &str) -> (r: Option<(Vec<Printed>, i32)>)
    ensures
        match action {
            ShellAction::Capture => (r matches Some((p, c)) && c == 0 && p@.len() == 2
                && (p@[0] matches Printed::Stdout(s) && s@ == "Starting terminal reader. Press Ctrl + D to stop the capturing."@)
                && (p@[1] matches Printed::Stdout(s) && s@ == "Terminal capture log is being written to "@ + capture_file@)),
            ShellAction::Nothing => (r matches Some((p, c)) && c == 1 && p@.len() == 1
                && (p@[0] matches Printed::Stderr(s) && s@ == crate::rendering::renderer::decorated(renderer.plain, "🤔 "@, "No operation specified. Use --help to see available options."@, renderer.theme.warning, renderer.theme.no_color))),
            _ => r is None,
        },
{
    proof {
        reveal_strlit("");
    }
    match action {
        ShellAction::Capture => {
            let mut out: Vec<Printed> = Vec::new();
            out.push(renderer.normal("Starting terminal reader. Press Ctrl + D to stop the capturing."));
            let m = wrapped("Terminal capture log is being written to ", capture_file, "");
            out.push(renderer.normal(m.as_str()));
            Some((out, 0))
        },
        ShellAction::Nothing => {
            let mut out: Vec<Printed> = Vec::new();
            out.push(renderer.warning("No operation specified. Use --help to see available options."));
            Some((out, 1))
        },
        _ => None,
    }
}

/// The exit code once the capture session ends: 0 when it ran to its end,
/// else the reason shown as an error and 1.
pub fn capture_finished(renderer: &Renderer, outcome: &Result<(), String>) -> (r: (Vec<Printed>, i32))
    ensures
        match outcome {
            Ok(()) => r.1 == 0 && r.0@.len() == 0,
            Err(e) => r.1 == 1 && r.0@.len() == 1 && (r.0@[0] matches Printed::Stderr(s) && s@
                == crate::rendering::renderer::decorated(renderer.plain, "🙁 "@, "Terminal capture failed: "@ + e@, renderer.theme.error, renderer.theme.no_color)),
        },
{
    match outcome {
        Ok(()) => (Vec::new(), 0),
        Err(e) => {
            let m = wrapped("Terminal capture failed: ", e.as_str(), "");
            proof { reveal_strlit(""); }
            let mut out: Vec<Printed> = Vec::new();
            out.push(renderer.error(m.as_str()));
            (out, 1)
        },
    }
}

/// What installing the integration at `path` led to.
pub enum IntegrationWrite {
    /// The folder could not be created (the error's message).
    FolderFailed(String),
    /// The file is already there.
    AlreadyPresent,
    /// Writing the file failed (the error's message).
    WriteFailed(String),
    /// Written.
    Written,
}

/// The message and exit code after installing the integration at `path`:
/// present already is 2, a failure 1, success 0.
pub fn integration_written(renderer: &Renderer, outcome: &IntegrationWrite, path: &str) -> (r: (Printed, i32))
    ensures
        match outcome {
            IntegrationWrite::FolderFailed(e) => r.1 == 1 && (r.0 matches Printed::Stderr(s) && s@ == crate::rendering::renderer::decorated(renderer.plain, "🙁 "@, "Failed to create bashrc.d directory: "@ + e@, renderer.theme.error, renderer.theme.no_color)),
            IntegrationWrite::AlreadyPresent => r.1 == 2 && (r.0 matches Printed::Stderr(s) && s@ == crate::rendering::renderer::decorated(renderer.plain, "🤔 "@, "The integration is already present and enabled at "@ + path@ + "! Restart your terminal or source ~/.bashrc in case it's not working."@, renderer.theme.warning, renderer.theme.no_color)),
            IntegrationWrite::WriteFailed(e) => r.1 == 1 && (r.0 matches Printed::Stderr(s) && s@ == crate::rendering::renderer::decorated(renderer.plain, "🙁 "@, "Failed to write integration file: "@ + e@, renderer.theme.error, renderer.theme.no_color)),
            IntegrationWrite::Written => r.1 == 0 && (r.0 matches Printed::Stdout(s) && s@ == "Integration successfully added at "@ + path@ + ". In order to use it, please restart your terminal or source ~/.bashrc"@),
        },
{
    match outcome {
        IntegrationWrite::FolderFailed(e) => {
            let m = wrapped("Failed to create bashrc.d directory: ", e.as_str(), "");
            proof { reveal_strlit(""); }
            (renderer.error(m.as_str()), 1)
        },
        IntegrationWrite::AlreadyPresent => {
            let m = wrapped("The integration is already present and enabled at ", path, "! Restart your terminal or source ~/.bashrc in case it's not working.");
            (renderer.warning(m.as_str()), 2)
        },
        IntegrationWrite::WriteFailed(e) => {
            let m = wrapped("Failed to write integration file: ", e.as_str(), "");
            proof { reveal_strlit(""); }
            (renderer.error(m.as_str()), 1)
        },
        IntegrationWrite::Written => {
            let m = wrapped("Integration successfully added at ", path, ". In order to use it, please restart your terminal or source ~/.bashrc");
            (renderer.normal(m.as_str()), 0)
        },
    }
}

/// What removing the integration led to.
pub enum IntegrationRemove {
    /// The file is not there.
    NotPresent,
    /// Removing it failed (the error's message).
    Failed(String),
    /// Removed.
    Removed,
}

/// The message and exit code after removing the integration: absent is 2, a
/// failure 1, success 0.
pub fn integration_removed(renderer: &Renderer, outcome: &IntegrationRemove) -> (r: (Printed, i32))
    ensures
        match outcome {
            IntegrationRemove::NotPresent => r.1 == 2 && (r.0 matches Printed::Stderr(s) && s@ == crate::rendering::renderer::decorated(renderer.plain, "🤔 "@, "It seems that the integration is not enabled. Skipping operation."@, renderer.theme.warning, renderer.theme.no_color)),
            IntegrationRemove::Failed(e) => r.1 == 1 && (r.0 matches Printed::Stderr(s) && s@ == crate::rendering::renderer::decorated(renderer.plain, "🙁 "@, "Failed to remove integration: "@ + e@, renderer.theme.error, renderer.theme.no_color)),
            IntegrationRemove::Removed => r.1 == 0 && (r.0 matches Printed::Stdout(s) && s@ == "Integration disabled successfully."@),
        },
{
    match outcome {
        IntegrationRemove::NotPresent => (renderer.warning("It seems that the integration is not enabled. Skipping operation."), 2),
        IntegrationRemove::Failed(e) => {
            let m = wrapped("Failed to remove integration: ", e.as_str(), "");
            proof { reveal_strlit(""); }
            (renderer.error(m.as_str()), 1)
        },
        IntegrationRemove::Removed => (renderer.normal("Integration disabled successfully."), 0),
    }
}

} // verus!
