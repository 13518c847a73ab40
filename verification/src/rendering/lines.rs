//! Markdown to styled lines for the full-screen conversation view.
//!
//! Handles the constructs the assistant commonly emits (headers, bullets,
//! fenced code blocks, inline `**bold**` and `` `code` ``) and leaves line
//! wrapping to the widget that shows the lines.
use vstd::prelude::*;
use crate::text::{
    append_chars, chars_of, find, find_chars, find_from, lemma_find_char, lemma_find_pair,
    lines, slice_chars, split_lines, starts_with, starts_with_chars, string_of, trim_end,
    trim_end_chars, trim_start, trim_start_chars,
};

verus! {

/// The style of a span: bold, and/or yellow foreground.
#[derive(Clone, Copy, Debug, PartialEq, Eq, Structural)]
pub struct TuiStyle {
    pub bold: bool,
    pub yellow: bool,
}

/// A run of text in one style.
#[derive(Clone, Debug)]
pub struct TuiSpan {
    pub content: String,
    pub style: TuiStyle,
}

/// One line of styled spans.
#[derive(Clone, Debug)]
pub struct TuiLine {
    pub spans: Vec<TuiSpan>,
}

impl View for TuiSpan {
    type V = (Seq<char>, TuiStyle);

    open spec fn view(&self) -> (Seq<char>, TuiStyle) {
        (self.content@, self.style)
    }
}

impl View for TuiLine {
    type V = Seq<(Seq<char>, TuiStyle)>;

    open spec fn view(&self) -> Seq<(Seq<char>, TuiStyle)> {
        self.spans@.map_values(|s: TuiSpan| s@)
    }
}

/// The unstyled default.
pub open spec fn plain_style() -> TuiStyle {
    TuiStyle { bold: false, yellow: false }
}

/// The style of inline code.
pub open spec fn code_style() -> TuiStyle {
    TuiStyle { bold: false, yellow: true }
}

/// `base` with bold added.
pub open spec fn with_bold(base: TuiStyle) -> TuiStyle {
    TuiStyle { bold: true, yellow: base.yellow }
}

/// The earlier of the next `**` and the next backtick, and whether it is `**`
/// (on a tie, `**`).
pub open spec fn next_marker(rest: Seq<char>) -> Option<(nat, bool)> {
    match (find(rest, seq!['*', '*']), find(rest, seq!['`'])) {
        (Some(b), Some(c)) => if b <= c {
            Some((b, true))
        } else {
            Some((c, false))
        },
        (Some(b), None) => Some((b, true)),
        (None, Some(c)) => Some((c, false)),
        (None, None) => None,
    }
}

/// Spans of `rest`: `**bold**` in bold, `` `code` `` in yellow, the rest in
/// `base`; an unpaired marker and everything after it stay literal text.
pub open spec fn spans_of(rest: Seq<char>, base: TuiStyle) -> Seq<(Seq<char>, TuiStyle)>
    decreases rest.len(),
{
    match next_marker(rest) {
        None => if rest.len() > 0 {
            seq![(rest, base)]
        } else {
            seq![]
        },
        Some((pos, is_bold)) => {
            let pre = if pos > 0 {
                seq![(rest.take(pos as int), base)]
            } else {
                Seq::<(Seq<char>, TuiStyle)>::empty()
            };
            let w: nat = if is_bold { 2 } else { 1 };
            let close = if is_bold {
                find_from(rest, seq!['*', '*'], pos + 2)
            } else {
                find_from(rest, seq!['`'], pos + 1)
            };
            match close {
                None => pre + seq![(rest.skip(pos as int), base)],
                Some(end) => {
                    proof {
                        lemma_marker_close(rest, pos, is_bold, end);
                    }
                    let style = if is_bold { with_bold(base) } else { code_style() };
                    pre + seq![(rest.subrange((pos + w) as int, end as int), style)] + spans_of(
                        rest.skip((end + w) as int),
                        base,
                    )
                },
            }
        },
    }
}

/// Where the closing marker stands.
pub proof fn lemma_marker_close(rest: Seq<char>, pos: nat, is_bold: bool, end: nat)
    requires
        next_marker(rest) == Some((pos, is_bold)),
        (if is_bold {
            find_from(rest, seq!['*', '*'], pos + 2)
        } else {
            find_from(rest, seq!['`'], pos + 1)
        }) == Some(end),
    ensures
        pos + (if is_bold { 2nat } else { 1nat }) <= end,
        end + (if is_bold { 2nat } else { 1nat }) <= rest.len(),
{
    if is_bold {
        lemma_find_pair(rest, '*', '*', pos + 2);
    } else {
        lemma_find_char(rest, '`', pos + 1);
    }
}

/// The header text and style, bullet, or plain content of a line.
pub open spec fn line_parts(t: Seq<char>) -> (Seq<char>, TuiStyle, Seq<char>) {
    if starts_with(t, seq!['#', '#', '#', ' ']) {
        (t.skip(4), with_bold(plain_style()), seq![])
    } else if starts_with(t, seq!['#', '#', ' ']) {
        (t.skip(3), with_bold(plain_style()), seq![])
    } else if starts_with(t, seq!['#', ' ']) {
        (t.skip(2), with_bold(plain_style()), seq![])
    } else if starts_with(t, seq!['-', ' ']) || starts_with(t, seq!['*', ' ']) {
        (t.skip(2), plain_style(), seq!['•', ' '])
    } else {
        (t, plain_style(), seq![])
    }
}

/// The spans of a line outside code blocks.
pub open spec fn text_spans(t: Seq<char>) -> Seq<(Seq<char>, TuiStyle)> {
    let (content, style, prefix) = line_parts(t);
    (if prefix.len() > 0 {
        seq![(prefix, style)]
    } else {
        Seq::<(Seq<char>, TuiStyle)>::empty()
    }) + spans_of(content, style)
}

/// The bold header style.
pub open spec fn header_style() -> TuiStyle {
    TuiStyle { bold: true, yellow: false }
}

/// A header line of level one, two or three (`# `, `## `, `### ` then the
/// text) shows only its text, without the marker, with bold as the base
/// style of its inline spans; a text without `*` or backticks is one bold
/// span.
pub proof fn lemma_header_spans(text: Seq<char>)
    ensures
        text_spans(seq!['#', ' '] + text) == spans_of(text, header_style()),
        text_spans(seq!['#', '#', ' '] + text) == spans_of(text, header_style()),
        text_spans(seq!['#', '#', '#', ' '] + text) == spans_of(text, header_style()),
        text.len() > 0 && !text.contains('*') && !text.contains('`') ==> text_spans(seq!['#', '#', ' '] + text)
            == seq![(text, header_style())],
{
    let l1 = seq!['#', ' '] + text;
    let l2 = seq!['#', '#', ' '] + text;
    let l3 = seq!['#', '#', '#', ' '] + text;
    assert(l1.skip(2) =~= text);
    assert(l2.skip(3) =~= text);
    assert(l3.skip(4) =~= text);
    assert(l3.subrange(0, 4) =~= seq!['#', '#', '#', ' ']);
    assert(l2.subrange(0, 3) =~= seq!['#', '#', ' ']);
    assert(l1.subrange(0, 2) =~= seq!['#', ' ']);
    assert(l2.len() < 4 || l2.subrange(0, 4) != seq!['#', '#', '#', ' ']) by {
        if l2.len() >= 4 {
            assert(l2.subrange(0, 4)[2] == ' ');
        }
    }
    assert(l1.len() < 4 || l1.subrange(0, 4) != seq!['#', '#', '#', ' ']) by {
        if l1.len() >= 4 {
            assert(l1.subrange(0, 4)[1] == ' ');
        }
    }
    assert(l1.len() < 3 || l1.subrange(0, 3) != seq!['#', '#', ' ']) by {
        if l1.len() >= 3 {
            assert(l1.subrange(0, 3)[1] == ' ');
        }
    }
    assert(with_bold(plain_style()) == header_style());
    if text.len() > 0 && !text.contains('*') && !text.contains('`') {
        lemma_find_pair(text, '*', '*', 0);
        lemma_find_char(text, '`', 0);
        if find(text, seq!['*', '*']) is Some {
            assert(text[find(text, seq!['*', '*'])->0 as int] == '*');
        }
        if find(text, seq!['`']) is Some {
            assert(text[find(text, seq!['`'])->0 as int] == '`');
        }
        assert(next_marker(text) is None);
    }
}

/// Styled lines of `ls`, starting inside a code block when `in_code`:
/// fence lines toggle code blocks and are dropped, code lines are indented
/// and yellow.
pub open spec fn tui_lines(ls: Seq<Seq<char>>, in_code: bool) -> Seq<Seq<(Seq<char>, TuiStyle)>>
    decreases ls.len(),
{
    if ls.len() == 0 {
        seq![]
    } else {
        let t = trim_end(ls[0]);
        if starts_with(trim_start(t), seq!['`', '`', '`']) {
            tui_lines(ls.drop_first(), !in_code)
        } else if in_code {
            seq![seq![(seq![' ', ' '] + trim_start(t), code_style())]] + tui_lines(ls.drop_first(), in_code)
        } else {
            seq![text_spans(t)] + tui_lines(ls.drop_first(), in_code)
        }
    }
}

/// A span holding `v` in `style`.
fn span(v: &[char], style: TuiStyle) -> (s: TuiSpan)
    ensures
        s@ == (v@, style),
{
    TuiSpan { content: string_of(v), style }
}

/// Split `text` into styled spans, converting `**bold**` and `` `code` ``.
/// Unpaired markers are kept as literal text.
pub fn inline_spans(text: &[char], base: TuiStyle) -> (r: Vec<TuiSpan>)
    ensures
        r@.map_values(|s: TuiSpan| s@) == spans_of(text@, base),
{
    let bold_pat = vec!['*', '*'];
    let code_pat = vec!['`'];
    assert(bold_pat@ =~= seq!['*', '*']);
    assert(code_pat@ =~= seq!['`']);
    let mut spans: Vec<TuiSpan> = Vec::new();
    let mut rest = slice_chars(text, 0, text.len());
    assert(rest@ =~= text@);
    loop
        invariant
            bold_pat@ == seq!['*', '*'],
            code_pat@ == seq!['`'],
            spans_of(text@, base) == spans@.map_values(|s: TuiSpan| s@) + spans_of(rest@, base),
        decreases rest@.len(),
    {
        let ghost before = spans@.map_values(|s: TuiSpan| s@);
        let b = find_chars(rest.as_slice(), bold_pat.as_slice(), 0);
        let c = find_chars(rest.as_slice(), code_pat.as_slice(), 0);
        let (pos, is_bold) = match (b, c) {
            (Some(b), Some(c)) => if b <= c {
                (b, true)
            } else {
                (c, false)
            },
            (Some(b), None) => (b, true),
            (None, Some(c)) => (c, false),
            (None, None) => {
                if rest.len() > 0 {
                    spans.push(span(rest.as_slice(), base));
                }
                assert(spans@.map_values(|s: TuiSpan| s@) =~= before + spans_of(rest@, base));
                return spans;
            },
        };
        assert(next_marker(rest@) == Some((pos as nat, is_bold)));
        if pos > 0 {
            let pre = slice_chars(rest.as_slice(), 0, pos);
            spans.push(span(pre.as_slice(), base));
        }
        let ghost with_pre = spans@.map_values(|s: TuiSpan| s@);
        assert(with_pre =~= before + (if pos > 0 {
            seq![(rest@.take(pos as int), base)]
        } else {
            Seq::<(Seq<char>, TuiStyle)>::empty()
        }));
        let close = if is_bold {
            find_chars(rest.as_slice(), bold_pat.as_slice(), pos + 2)
        } else {
            find_chars(rest.as_slice(), code_pat.as_slice(), pos + 1)
        };
        match close {
            None => {
                let tail = slice_chars(rest.as_slice(), pos, rest.len());
                spans.push(span(tail.as_slice(), base));
                assert(tail@ =~= rest@.skip(pos as int));
                assert(spans@.map_values(|s: TuiSpan| s@) =~= before + spans_of(rest@, base));
                return spans;
            },
            Some(end) => {
                proof {
                    lemma_marker_close(rest@, pos as nat, is_bold, end as nat);
                }
                let w: usize = if is_bold { 2 } else { 1 };
                let style = if is_bold {
                    TuiStyle { bold: true, yellow: base.yellow }
                } else {
                    TuiStyle { bold: false, yellow: true }
                };
                let inner = slice_chars(rest.as_slice(), pos + w, end);
                spans.push(span(inner.as_slice(), style));
                let next = slice_chars(rest.as_slice(), end + w, rest.len());
                assert(next@ =~= rest@.skip(end + w));
                proof {
                    let s2 = spans@.map_values(|s: TuiSpan| s@);
                    assert(s2 =~= with_pre.push((rest@.subrange(pos + w, end as int), style)));
                    assert(spans_of(rest@, base) == (if pos > 0 {
                        seq![(rest@.take(pos as int), base)]
                    } else {
                        Seq::<(Seq<char>, TuiStyle)>::empty()
                    }) + seq![(rest@.subrange(pos + w, end as int), style)] + spans_of(next@, base));
                    assert(s2 + spans_of(next@, base) =~= before + spans_of(rest@, base));
                }
                rest = next;
            },
        }
    }
}

/// The spans of one line outside code blocks.
fn line_spans(t: &[char]) -> (r: Vec<TuiSpan>)
    ensures
        r@.map_values(|s: TuiSpan| s@) == text_spans(t@),
{
    let h3 = vec!['#', '#', '#', ' '];
    let h2 = vec!['#', '#', ' '];
    let h1 = vec!['#', ' '];
    let d = vec!['-', ' '];
    let st = vec!['*', ' '];
    assert(h3@ =~= seq!['#', '#', '#', ' ']);
    assert(h2@ =~= seq!['#', '#', ' ']);
    assert(h1@ =~= seq!['#', ' ']);
    assert(d@ =~= seq!['-', ' ']);
    assert(st@ =~= seq!['*', ' ']);
    let bold = TuiStyle { bold: true, yellow: false };
    let plain = TuiStyle { bold: false, yellow: false };
    let (content, style, bullet) = if starts_with_chars(t, h3.as_slice()) {
        (slice_chars(t, 4, t.len()), bold, false)
    } else if starts_with_chars(t, h2.as_slice()) {
        (slice_chars(t, 3, t.len()), bold, false)
    } else if starts_with_chars(t, h1.as_slice()) {
        (slice_chars(t, 2, t.len()), bold, false)
    } else if starts_with_chars(t, d.as_slice()) || starts_with_chars(t, st.as_slice()) {
        (slice_chars(t, 2, t.len()), plain, true)
    } else {
        (slice_chars(t, 0, t.len()), plain, false)
    };
    let ghost parts = line_parts(t@);
    assert(content@ =~= parts.0);
    assert(style == parts.1);
    assert(bullet == (parts.2.len() > 0));
    let mut spans: Vec<TuiSpan> = Vec::new();
    if bullet {
        let b = vec!['•', ' '];
        assert(b@ =~= parts.2);
        spans.push(span(b.as_slice(), style));
    }
    let ghost first = spans@.map_values(|s: TuiSpan| s@);
    let mut rest = inline_spans(content.as_slice(), style);
    let ghost rest_view = rest@;
    spans.append(&mut rest);
    assert(spans@.map_values(|s: TuiSpan| s@) =~= first + rest_view.map_values(|s: TuiSpan| s@));
    assert(first =~= (if parts.2.len() > 0 {
        seq![(parts.2, parts.1)]
    } else {
        Seq::<(Seq<char>, TuiStyle)>::empty()
    }));
    spans
}


/// The styled lines of one pass over `ls[i..]`, unfolded by one line.
proof fn lemma_tui_lines_step(ls: Seq<Seq<char>>, i: int, in_code: bool)
    requires
        0 <= i < ls.len(),
    ensures
        ls.skip(i).drop_first() == ls.skip(i + 1),
        ls.skip(i)[0] == ls[i],
        tui_lines(ls.skip(i), in_code) == ({
            let t = trim_end(ls[i]);
            if starts_with(trim_start(t), seq!['`', '`', '`']) {
                tui_lines(ls.skip(i + 1), !in_code)
            } else if in_code {
                seq![seq![(seq![' ', ' '] + trim_start(t), code_style())]] + tui_lines(ls.skip(i + 1), in_code)
            } else {
                seq![text_spans(t)] + tui_lines(ls.skip(i + 1), in_code)
            }
        }),
{
    assert(ls.skip(i).drop_first() =~= ls.skip(i + 1));
}

/// Convert markdown text into styled lines for the full-screen conversation
/// view: headers bold without their `#`, bullets as `• `, fenced code
/// indented in yellow without its fences, inline `**bold**` and `` `code` ``.
pub fn markdown_to_lines(text: &str) -> (r: Vec<TuiLine>)
    ensures
        r@.map_values(|l: TuiLine| l@) == tui_lines(lines(text@), false),
{
    let v = chars_of(text);
    let ls = split_lines(v.as_slice());
    let ghost all = lines(v@);
    let fence = vec!['`', '`', '`'];
    assert(fence@ =~= seq!['`', '`', '`']);
    let mut out: Vec<TuiLine> = Vec::new();
    let mut in_code = false;
    let mut i: usize = 0;
    assert(all.skip(0) =~= all);
    while i < ls.len()
        invariant
            fence@ == seq!['`', '`', '`'],
            i <= ls.len(),
            ls@.len() == all.len(),
            forall|j: int| 0 <= j < ls@.len() ==> #[trigger] ls@[j]@ == all[j],
            tui_lines(all, false) == out@.map_values(|l: TuiLine| l@) + tui_lines(
                all.skip(i as int),
                in_code,
            ),
        decreases ls.len() - i,
    {
        let ghost before = out@.map_values(|l: TuiLine| l@);
        proof {
            lemma_tui_lines_step(all, i as int, in_code);
        }
        let t = trim_end_chars(ls[i].as_slice());
        let lead = trim_start_chars(t.as_slice());
        if starts_with_chars(lead.as_slice(), fence.as_slice()) {
            in_code = !in_code;
        } else if in_code {
            let mut content: Vec<char> = vec![' ', ' '];
            assert(content@ =~= seq![' ', ' ']);
            append_chars(&mut content, lead.as_slice());
            let mut spans: Vec<TuiSpan> = Vec::new();
            spans.push(span(content.as_slice(), TuiStyle { bold: false, yellow: true }));
            let line = TuiLine { spans };
            assert(line@ =~= seq![(seq![' ', ' '] + trim_start(trim_end(all[i as int])), code_style())]);
            out.push(line);
            assert(out@.map_values(|l: TuiLine| l@) =~= before.push(line@));
        } else {
            let spans = line_spans(t.as_slice());
            let line = TuiLine { spans };
            out.push(line);
            assert(out@.map_values(|l: TuiLine| l@) =~= before.push(line@));
        }
        i += 1;
    }
    assert(all.skip(ls.len() as int) =~= Seq::<Seq<char>>::empty());
    assert(out@.map_values(|l: TuiLine| l@) + Seq::<Seq<(Seq<char>, TuiStyle)>>::empty() =~= out@.map_values(|l: TuiLine| l@));
    out
}

} // verus!
