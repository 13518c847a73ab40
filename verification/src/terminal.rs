//! Terminal capture: separating commands from their output by prompt
//! markers, and reading the captured command/output blocks back.
use vstd::prelude::*;
use crate::text::{chars_of, push_char, string_of, trim, trim_chars, trim_end, trim_end_chars};

verus! {

/// The marker the captured shell prints at each prompt (`ESC ]`).
pub open spec fn prompt_marker() -> Seq<u8> {
    seq![0x1bu8, 0x5du8]
}

/// A command and its output, as captured.
#[derive(Clone, Debug)]
pub struct TerminalBlock {
    pub command: String,
    pub output: String,
}

impl View for TerminalBlock {
    type V = (Seq<char>, Seq<char>);

    open spec fn view(&self) -> (Seq<char>, Seq<char>) {
        (self.command@, self.output@)
    }
}

/// A name for `String::from_utf8_lossy`: the text of `bytes`, with each
/// invalid sequence replaced by U+FFFD.
pub uninterp spec fn utf8_lossy(bytes: Seq<u8>) -> Seq<char>;

/// The text of ASCII bytes: each byte is the character with its code.
pub open spec fn ascii_text(bytes: Seq<u8>) -> Seq<char> {
    bytes.map_values(|b: u8| b as char)
}

/// `String::from_utf8_lossy(bytes)` as an owned string. The contract names
/// the result, and states what std documents for valid input, here for
/// ASCII bytes: the text comes back unchanged.
#[verifier::external_body]
fn lossy_text(bytes: &[u8]) -> (r: String)
    ensures
        r@ == utf8_lossy(bytes@),
        (forall|i: int| 0 <= i < bytes@.len() ==> bytes@[i] < 128) ==> r@ == ascii_text(bytes@),
{
    String::from_utf8_lossy(bytes).into_owned()
}

/// Records a terminal session: bytes after a prompt marker belong to the
/// command until a line break, the rest to its output.
pub struct TerminalRecorder {
    in_command: bool,
    current_command: Vec<u8>,
    current_output: Vec<u8>,
}

/// The block written for a finished command: the command and output text,
/// trimmed; none for an empty command.
pub open spec fn finished_block(command: Seq<u8>, output: Seq<u8>) -> Option<(Seq<char>, Seq<char>)> {
    if command.len() == 0 {
        None
    } else {
        Some((trim(utf8_lossy(command)), trim(utf8_lossy(output))))
    }
}

/// Whether `data` holds a line break.
pub open spec fn has_line_break(data: Seq<u8>) -> bool {
    data.contains(10u8)
}

impl TerminalRecorder {
    /// Whether the bytes now arriving belong to the command.
    pub closed spec fn in_command(&self) -> bool {
        self.in_command
    }

    /// The bytes of the current command.
    pub closed spec fn command(&self) -> Seq<u8> {
        self.current_command@
    }

    /// The bytes of the current output.
    pub closed spec fn output(&self) -> Seq<u8> {
        self.current_output@
    }

    /// A recorder at the start of a session: in a command, nothing recorded.
    pub fn new() -> (r: Self)
        ensures
            r.in_command(),
            r.command().len() == 0,
            r.output().len() == 0,
    {
        TerminalRecorder { in_command: true, current_command: Vec::new(), current_output: Vec::new() }
    }

    /// Take in a chunk read from the terminal. A chunk that starts with the
    /// prompt marker ends the current output (returning its finished block)
    /// and starts a command; a line break inside a command ends it. The chunk
    /// is added to the command or to the output accordingly.
    pub fn handle(&mut self, data: &[u8]) -> (r: Option<TerminalBlock>)
        ensures
            ({
                let marker = data@.len() >= 2 && data@.subrange(0, 2) == prompt_marker();
                let flushed = marker && !old(self).in_command();
                let in_cmd = if marker {
                    true
                } else if old(self).in_command() && has_line_break(data@) {
                    false
                } else {
                    old(self).in_command()
                };
                let cmd = if flushed { Seq::<u8>::empty() } else { old(self).command() };
                let out = if flushed { Seq::<u8>::empty() } else { old(self).output() };
                &&& final(self).in_command() == in_cmd
                &&& final(self).command() == if in_cmd { cmd + data@ } else { cmd }
                &&& final(self).output() == if in_cmd { out } else { out + data@ }
                &&& match r {
                    Some(b) => flushed && finished_block(old(self).command(), old(self).output())
                        == Some(b@),
                    None => !flushed || finished_block(old(self).command(), old(self).output()) is None,
                }
            }),
    {
        let marker = data.len() >= 2 && data[0] == 0x1b && data[1] == 0x5d;
        proof {
            if data@.len() >= 2 {
                if data@[0] == 0x1b && data@[1] == 0x5d {
                    assert(data@.subrange(0, 2) =~= prompt_marker());
                }
                if data@.subrange(0, 2) == prompt_marker() {
                    assert(data@.subrange(0, 2)[0] == data@[0]);
                    assert(data@.subrange(0, 2)[1] == data@[1]);
                }
            }
        }
        let mut flushed: Option<TerminalBlock> = None;
        if marker {
            if !self.in_command {
                flushed = self.write_json_block();
            }
            self.in_command = true;
        } else if self.in_command && contains_newline(data) {
            self.in_command = false;
        }
        let mut i: usize = 0;
        let ghost cmd0 = self.current_command@;
        let ghost out0 = self.current_output@;
        let ghost in0 = self.in_command;
        while i < data.len()
            invariant
                i <= data.len(),
                self.in_command == in0,
                self.in_command ==> self.current_command@ == cmd0 + data@.take(i as int)
                    && self.current_output@ == out0,
                !self.in_command ==> self.current_output@ == out0 + data@.take(i as int)
                    && self.current_command@ == cmd0,
            decreases data.len() - i,
        {
            if self.in_command {
                self.current_command.push(data[i]);
            } else {
                self.current_output.push(data[i]);
            }
            assert(data@.take(i + 1) =~= data@.take(i as int).push(data@[i as int]));
            i += 1;
        }
        assert(data@.take(data.len() as int) =~= data@);
        flushed
    }

    /// Finish the current command: its block, if the command is not empty,
    /// for the caller to write out; the recorder starts afresh.
    pub fn write_json_block(&mut self) -> (r: Option<TerminalBlock>)
        ensures
            final(self).in_command() == old(self).in_command(),
            final(self).command().len() == 0,
            final(self).output().len() == 0,
            match r {
                Some(b) => finished_block(old(self).command(), old(self).output()) == Some(b@),
                None => finished_block(old(self).command(), old(self).output()) is None,
            },
            (forall|i: int| 0 <= i < old(self).command().len() ==> old(self).command()[i] < 128) ==> (r matches Some(b)
                ==> b.command@ == trim(ascii_text(old(self).command()))),
            (forall|i: int| 0 <= i < old(self).output().len() ==> old(self).output()[i] < 128) ==> (r matches Some(b)
                ==> b.output@ == trim(ascii_text(old(self).output()))),
    {
        if self.current_command.len() == 0 {
            self.current_command = Vec::new();
            self.current_output = Vec::new();
            return None;
        }
        let c = lossy_text(self.current_command.as_slice());
        let o = lossy_text(self.current_output.as_slice());
        let cv = chars_of(c.as_str());
        let ov = chars_of(o.as_str());
        let ct = trim_chars(cv.as_slice());
        let ot = trim_chars(ov.as_slice());
        self.current_command = Vec::new();
        self.current_output = Vec::new();
        Some(TerminalBlock { command: string_of(ct.as_slice()), output: string_of(ot.as_slice()) })
    }
}

/// Whether `data` holds a line break (a `\r\n` pair holds one too).
fn contains_newline(data: &[u8]) -> (r: bool)
    ensures
        r == has_line_break(data@),
{
    let mut i: usize = 0;
    while i < data.len()
        invariant
            i <= data.len(),
            forall|j: int| 0 <= j < i ==> data@[j] != 10u8,
        decreases data.len() - i,
    {
        if data[i] == 10 {
            assert(data@.contains(10u8)) by {
                assert(data@[i as int] == 10u8);
            }
            return true;
        }
        i += 1;
    }
    false
}

// ---------------------------------------------------------------------------
// ANSI stripping
// ---------------------------------------------------------------------------

/// The escape character.
pub open spec fn esc() -> char {
    '\x1b'
}

/// The kinds of escape sequence.
pub enum EscapeKind {
    /// `ESC [` ... ending at a character in `@..=~`.
    Csi,
    /// `ESC ]` ... ending at BEL.
    Osc,
    /// `ESC` ... ending at an ASCII letter.
    Other,
}

/// Whether `c` ends an escape sequence of kind `k`.
pub open spec fn ends_escape(c: char, k: EscapeKind) -> bool {
    match k {
        EscapeKind::Csi => '@' <= c <= '~',
        EscapeKind::Osc => c == '\x07',
        EscapeKind::Other => ('a' <= c <= 'z') || ('A' <= c <= 'Z'),
    }
}

/// What follows the end of an escape sequence of kind `k` in `s` (nothing
/// when it never ends).
pub open spec fn after_escape(s: Seq<char>, k: EscapeKind) -> Seq<char>
    decreases s.len(),
{
    if s.len() == 0 {
        s
    } else if ends_escape(s[0], k) {
        s.drop_first()
    } else {
        after_escape(s.drop_first(), k)
    }
}

/// What follows an escape sequence is a suffix of what it was searched in.
pub proof fn lemma_after_escape_shorter(s: Seq<char>, k: EscapeKind)
    ensures
        after_escape(s, k).len() <= s.len(),
    decreases s.len(),
{
    if s.len() > 0 && !ends_escape(s[0], k) {
        lemma_after_escape_shorter(s.drop_first(), k);
    }
}

/// `s` without its ANSI escape sequences: CSI (`ESC [` up to a final byte in
/// `@..=~`), OSC (`ESC ]` up to BEL), and other escapes (`ESC` up to an
/// ASCII letter). An unterminated sequence runs to the end.
pub open spec fn strip_escapes(s: Seq<char>) -> Seq<char>
    decreases s.len(),
{
    if s.len() == 0 {
        seq![]
    } else if s[0] != esc() {
        seq![s[0]] + strip_escapes(s.drop_first())
    } else {
        let rest = s.drop_first();
        let k = if rest.len() > 0 && rest[0] == '[' {
            EscapeKind::Csi
        } else if rest.len() > 0 && rest[0] == ']' {
            EscapeKind::Osc
        } else {
            EscapeKind::Other
        };
        let body = if k is Other {
            rest
        } else {
            rest.drop_first()
        };
        proof {
            lemma_after_escape_shorter(body, k);
        }
        strip_escapes(after_escape(body, k))
    }
}

/// Strip ANSI escape sequences from text.
pub fn strip_ansi(text: &str) -> (r: String)
    ensures
        r@ == strip_escapes(text@),
{
    let v = chars_of(text);
    let mut out = String::new();
    let mut i: usize = 0;
    assert(v@.skip(0) =~= v@);
    while i < v.len()
        invariant
            i <= v.len(),
            strip_escapes(v@) == out@ + strip_escapes(v@.skip(i as int)),
        decreases v.len() - i,
    {
        let c = v[i];
        let ghost s = v@.skip(i as int);
        assert(s[0] == c);
        assert(s.drop_first() =~= v@.skip(i + 1));
        if c != '\x1b' {
            push_char(&mut out, c);
            assert(seq![c] + strip_escapes(v@.skip(i + 1)) == strip_escapes(s));
            i += 1;
        } else {
            i += 1;
            let is_csi = i < v.len() && v[i] == '[';
            let is_osc = i < v.len() && v[i] == ']';
            let ghost k = if is_csi {
                EscapeKind::Csi
            } else if is_osc {
                EscapeKind::Osc
            } else {
                EscapeKind::Other
            };
            if is_csi || is_osc {
                assert(v@.skip(i as int).drop_first() =~= v@.skip(i + 1));
                i += 1;
            }
            let ghost body = v@.skip(i as int);
            let ghost i0 = i;
            let mut done = false;
            while i < v.len() && !done
                invariant
                    i0 <= i <= v.len(),
                    after_escape(body, k) == if done { v@.skip(i as int) } else { after_escape(v@.skip(i as int), k) },
                    is_csi ==> k == EscapeKind::Csi,
                    !is_csi && is_osc ==> k == EscapeKind::Osc,
                    !is_csi && !is_osc ==> k == EscapeKind::Other,
                decreases v.len() - i, if done { 0int } else { 1int },
            {
                let n = v[i];
                let ends = if is_csi {
                    '@' <= n && n <= '~'
                } else if is_osc {
                    n == '\x07'
                } else {
                    ('a' <= n && n <= 'z') || ('A' <= n && n <= 'Z')
                };
                assert(v@.skip(i as int)[0] == n);
                assert(v@.skip(i as int).drop_first() =~= v@.skip(i + 1));
                assert(ends == ends_escape(n, k));
                if ends {
                    done = true;
                }
                i += 1;
            }
            proof {
                if !done {
                    assert(v@.skip(i as int) =~= Seq::<char>::empty());
                }
            }
            assert(strip_escapes(s) == strip_escapes(after_escape(body, k)));
        }
    }
    assert(v@.skip(v.len() as int) =~= Seq::<char>::empty());
    assert(out@ + Seq::<char>::empty() =~= out@);
    out
}

/// Text without escape characters is left as it is.
pub proof fn lemma_strip_plain(s: Seq<char>)
    requires
        !s.contains(esc()),
    ensures
        strip_escapes(s) == s,
    decreases s.len(),
{
    if s.len() > 0 {
        assert(s[0] != esc());
        assert(!s.drop_first().contains(esc())) by {
            if s.drop_first().contains(esc()) {
                let j = choose|j: int| 0 <= j < s.drop_first().len() && s.drop_first()[j] == esc();
                assert(s[j + 1] == esc());
            }
        }
        lemma_strip_plain(s.drop_first());
        assert(s =~= seq![s[0]] + s.drop_first());
    }
}

/// Stripping leaves no escape character behind.
pub proof fn lemma_strip_removes_escapes(s: Seq<char>)
    ensures
        !strip_escapes(s).contains(esc()),
    decreases s.len(),
{
    if s.len() > 0 {
        if s[0] != esc() {
            lemma_strip_removes_escapes(s.drop_first());
            let t = strip_escapes(s.drop_first());
            assert(strip_escapes(s) == seq![s[0]] + t);
            if strip_escapes(s).contains(esc()) {
                let j = choose|j: int| 0 <= j < strip_escapes(s).len() && strip_escapes(s)[j] == esc();
                if j > 0 {
                    assert(t[j - 1] == esc());
                }
            }
        } else {
            let rest = s.drop_first();
            let k = if rest.len() > 0 && rest[0] == '[' {
                EscapeKind::Csi
            } else if rest.len() > 0 && rest[0] == ']' {
                EscapeKind::Osc
            } else {
                EscapeKind::Other
            };
            let body = if k is Other {
                rest
            } else {
                rest.drop_first()
            };
            lemma_after_escape_shorter(body, k);
            lemma_strip_removes_escapes(after_escape(body, k));
        }
    }
}

/// Stripping twice strips nothing more.
pub proof fn lemma_strip_idempotent(s: Seq<char>)
    ensures
        strip_escapes(strip_escapes(s)) == strip_escapes(s),
{
    lemma_strip_removes_escapes(s);
    lemma_strip_plain(strip_escapes(s));
}

// ---------------------------------------------------------------------------
// Reading blocks back
// ---------------------------------------------------------------------------

/// Whether a captured block is the shell's own `exit`.
pub open spec fn is_exit(b: (Seq<char>, Seq<char>)) -> bool {
    trim_end(strip_escapes(b.1)) == "exit"@
}

/// The blocks read back from the capture log, most recent first: escapes
/// stripped from command and output, and `exit` blocks dropped.
pub open spec fn read_back(blocks: Seq<(Seq<char>, Seq<char>)>) -> Seq<(Seq<char>, Seq<char>)>
    decreases blocks.len(),
{
    if blocks.len() == 0 {
        seq![]
    } else {
        let b = blocks[0];
        let rest = read_back(blocks.drop_first());
        if is_exit(b) {
            rest
        } else {
            rest + seq![(strip_escapes(b.0), strip_escapes(b.1))]
        }
    }
}

/// The views of blocks.
pub open spec fn block_views(blocks: Seq<TerminalBlock>) -> Seq<(Seq<char>, Seq<char>)> {
    blocks.map_values(|b: TerminalBlock| b@)
}

/// Turn the blocks parsed from the capture log, in file order, into the list
/// of command/output blocks, most recent first.
pub fn collect_blocks(parsed: &Vec<TerminalBlock>) -> (r: Vec<TerminalBlock>)
    ensures
        block_views(r@) == read_back(block_views(parsed@)),
{
    let mut out: Vec<TerminalBlock> = Vec::new();
    let mut i: usize = parsed.len();
    assert(block_views(parsed@).skip(parsed@.len() as int) =~= Seq::<(Seq<char>, Seq<char>)>::empty());
    while i > 0
        invariant
            i <= parsed.len(),
            block_views(out@) == read_back(block_views(parsed@).skip(i as int)),
        decreases i,
    {
        i -= 1;
        let ghost all = block_views(parsed@);
        assert(all.skip(i as int).drop_first() =~= all.skip(i + 1));
        assert(all.skip(i as int)[0] == parsed@[i as int]@);
        let command = strip_ansi(parsed[i].command.as_str());
        let output = strip_ansi(parsed[i].output.as_str());
        let ov = chars_of(output.as_str());
        let tail = trim_end_chars(ov.as_slice());
        let exit = chars_of("exit");
        let is_exit_block = crate::text::chars_eq(tail.as_slice(), exit.as_slice());
        let ghost before = out@;
        if !is_exit_block {
            out.push(TerminalBlock { command, output });
            assert(block_views(out@) =~= block_views(before).push(
                (strip_escapes(parsed@[i as int].command@), strip_escapes(parsed@[i as int].output@)),
            ));
        }
    }
    assert(block_views(parsed@).skip(0) =~= block_views(parsed@));
    out
}

/// The output a (negative = from the end) index selects: `-1` the last
/// block, `-k` the k-th from the end, `k >= 0` the k-th from the start; empty
/// when out of range.
pub open spec fn output_at(index: int, blocks: Seq<(Seq<char>, Seq<char>)>) -> Seq<char> {
    if index < 0 {
        if -index > blocks.len() {
            seq![]
        } else {
            blocks[blocks.len() + index].1
        }
    } else if index >= blocks.len() {
        seq![]
    } else {
        blocks[index].1
    }
}

/// Find terminal output by index (negative index counts from the end).
pub fn find_output_by_index(index: isize, blocks: &[TerminalBlock]) -> (r: String)
    ensures
        r@ == output_at(index as int, block_views(blocks@)),
{
    let n = blocks.len();
    let idx: usize = if index < 0 {
        let abs: usize = if index == isize::MIN {
            if (isize::MAX as usize) + 1 > n {
                return String::new();
            }
            (isize::MAX as usize) + 1
        } else {
            (-index) as usize
        };
        if abs > n {
            return String::new();
        }
        n - abs
    } else {
        let k = index as usize;
        if k >= n {
            return String::new();
        }
        k
    };
    blocks[idx].output.clone()
}

/// Negative indices count from the end: `-k` is the block at `len - k`.
pub proof fn lemma_reverse_index(blocks: Seq<(Seq<char>, Seq<char>)>, k: int)
    requires
        1 <= k <= blocks.len(),
    ensures
        output_at(-k, blocks) == output_at(blocks.len() - k, blocks),
{
}

/// The state directory joined with the capture log's file name.
pub open spec fn capture_file_in(state_dir: Seq<char>) -> Seq<char> {
    crate::paths::path_join(state_dir, "terminal.log"@)
}

/// Path to the terminal capture log in the state directory.
pub fn terminal_capture_file(state_dir: &str) -> (r: String)
    ensures
        r@ == capture_file_in(state_dir@),
{
    crate::paths::join(state_dir, "terminal.log")
}

/// Whether a capture session is running: the capture lock is held. A lock
/// that could not be opened counts as not held.
pub fn capture_active(lock_held: Option<bool>) -> (r: bool)
    ensures
        r == (lock_held == Some(true)),
{
    match lock_held {
        Some(held) => held,
        None => false,
    }
}

/// The prompt command that prints the capture marker at each prompt:
/// appended to an existing prompt command with `; `.
pub open spec fn prompt_command(existing: Seq<char>) -> Seq<char> {
    if existing.len() == 0 {
        "printf '\\033]'"@
    } else {
        existing + "; "@ + "printf '\\033]'"@
    }
}

/// `PROMPT_COMMAND` for the captured shell, given its current value.
pub fn marked_prompt_command(existing: &str) -> (r: String)
    ensures
        r@ == prompt_command(existing@),
{
    if existing.is_empty() {
        return "printf '\\033]'".to_owned();
    }
    let mut out = chars_of(existing);
    crate::text::append_str(&mut out, "; ");
    crate::text::append_str(&mut out, "printf '\\033]'");
    string_of(out.as_slice())
}

} // verus!
