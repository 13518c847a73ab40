//! Markdown to ANSI terminal rendering.
//!
//! Converts markdown text into ANSI-formatted terminal output with colored
//! headers, code blocks, lists, links, and inline formatting.
use vstd::prelude::*;
use crate::text::{
    append_chars, append_repeat, chars_eq, chars_of, is_ws, lemma_lines_utf8_bound,
    lemma_utf8_len_concat, lemma_utf8_len_single, lemma_utf8_len_trim, lines, repeat, split_lines, starts_with,
    starts_with_chars, string_of, trim, trim_chars, trim_start, trim_start_char,
    trim_start_char_chars, trim_start_chars, utf8_len, utf8_length, slice_chars,
    trim_start_index, lemma_trim_start_suffix, lemma_utf8_len_skip,
};
use super::colors::{paint, paint_into, Color};
use super::inline::{inline_render, render_inline_chars};
use super::theme::Theme;

verus! {

/// `a - b`, or zero when `b` is larger (`usize::saturating_sub`).
pub open spec fn sat_sub(a: nat, b: nat) -> nat {
    if a >= b {
        (a - b) as nat
    } else {
        0
    }
}

/// The largest byte length among `lines` (zero for none).
pub open spec fn max_len(lines: Seq<Seq<char>>) -> nat
    decreases lines.len(),
{
    if lines.len() == 0 {
        0
    } else {
        let m = max_len(lines.drop_last());
        let n = utf8_len(lines.last());
        if n > m {
            n
        } else {
            m
        }
    }
}

/// Inner width of a code block: the longest line, and at least 40.
pub open spec fn block_width(lines: Seq<Seq<char>>) -> nat {
    if max_len(lines) < 40 {
        40
    } else {
        max_len(lines)
    }
}

/// One line of a code block: bordered and padded to the block width.
pub open spec fn code_row(line: Seq<char>, w: nat, theme: Theme) -> Seq<char> {
    paint(seq!['│', ' '], theme.code_block_border, theme.no_color) + paint(
        line,
        theme.code_block_line,
        theme.no_color,
    ) + repeat(seq![' '], sat_sub(w, utf8_len(line))) + paint(
        seq![' ', '│'],
        theme.code_block_border,
        theme.no_color,
    ) + seq!['\n']
}

/// The lines of a code block.
pub open spec fn code_rows(lines: Seq<Seq<char>>, w: nat, theme: Theme) -> Seq<char>
    decreases lines.len(),
{
    if lines.len() == 0 {
        seq![]
    } else {
        code_rows(lines.drop_last(), w, theme) + code_row(lines.last(), w, theme)
    }
}

/// The top border of a code block, with the language label when there is one.
pub open spec fn code_header(lang: Seq<char>, w: nat, theme: Theme) -> Seq<char> {
    if lang.len() == 0 {
        paint(seq!['┌'] + repeat(seq!['─'], w + 2) + seq!['┐'], theme.code_block_border, theme.no_color)
    } else {
        let label = seq![' '] + lang + seq![' '];
        paint(seq!['┌'], theme.code_block_border, theme.no_color) + paint(
            label,
            theme.header,
            theme.no_color,
        ) + paint(repeat(seq!['─'], sat_sub(w, utf8_len(label)) + 2), theme.code_block_border, theme.no_color)
            + paint(seq!['┐'], theme.code_block_border, theme.no_color)
    }
}

/// A rendered code block.
pub open spec fn code_block(lines: Seq<Seq<char>>, lang: Seq<char>, theme: Theme) -> Seq<char> {
    let w = block_width(lines);
    code_header(lang, w, theme) + seq!['\n'] + code_rows(lines, w, theme) + paint(
        seq!['└'] + repeat(seq!['─'], w + 2) + seq!['┘'],
        theme.code_block_border,
        theme.no_color,
    ) + seq!['\n']
}

/// No line is longer in bytes than the longest.
pub proof fn lemma_max_len_bound(lines: Seq<Seq<char>>, i: int)
    requires
        0 <= i < lines.len(),
    ensures
        crate::text::utf8_len(lines[i]) <= max_len(lines),
    decreases lines.len(),
{
    if i < lines.len() - 1 {
        lemma_max_len_bound(lines.drop_last(), i);
        assert(lines.drop_last()[i] == lines[i]);
    }
}

/// `n` spaces take `n` bytes.
proof fn lemma_spaces_len(n: nat)
    ensures
        crate::text::utf8_len(repeat(seq![' '], n)) == n,
    decreases n,
{
    if n > 0 {
        lemma_spaces_len((n - 1) as nat);
        crate::text::lemma_utf8_len_concat(repeat(seq![' '], (n - 1) as nat), seq![' ']);
        crate::text::lemma_utf8_len_single(' ');
    }
}

/// Without colors, every row of a code block takes the same number of bytes:
/// the block width, the borders (eight bytes) and the line break.
pub proof fn lemma_code_rows_align(lines: Seq<Seq<char>>, i: int, theme: Theme)
    requires
        0 <= i < lines.len(),
        theme.no_color,
    ensures
        crate::text::utf8_len(code_row(lines[i], block_width(lines), theme)) == block_width(lines) + 9,
{
    reveal(paint);
    lemma_max_len_bound(lines, i);
    let w = block_width(lines);
    let line = lines[i];
    let pad = repeat(seq![' '], sat_sub(w, crate::text::utf8_len(line)));
    lemma_spaces_len(sat_sub(w, crate::text::utf8_len(line)));
    let left = seq!['│', ' '];
    let right = seq![' ', '│'];
    assert(left =~= seq!['│'] + seq![' ']);
    assert(right =~= seq![' '] + seq!['│']);
    crate::text::lemma_utf8_len_concat(seq!['│'], seq![' ']);
    crate::text::lemma_utf8_len_concat(seq![' '], seq!['│']);
    crate::text::lemma_utf8_len_single('│');
    crate::text::lemma_utf8_len_single(' ');
    crate::text::lemma_utf8_len_single('\n');
    crate::text::lemma_utf8_len_concat(left, line);
    crate::text::lemma_utf8_len_concat(left + line, pad);
    crate::text::lemma_utf8_len_concat(left + line + pad, right);
    crate::text::lemma_utf8_len_concat(left + line + pad + right, seq!['\n']);
    assert(code_row(line, w, theme) == left + line + pad + right + seq!['\n']);
}

/// Whether `c` is an ASCII digit.
pub open spec fn is_digit(c: char) -> bool {
    '0' <= c && c <= '9'
}

/// Number of leading ASCII digits of `s`.
pub open spec fn digit_prefix(s: Seq<char>) -> nat
    decreases s.len(),
{
    if s.len() > 0 && is_digit(s[0]) {
        1 + digit_prefix(s.drop_first())
    } else {
        0
    }
}

/// The text after an ordered-list prefix: after the leading whitespace, one
/// or more ASCII digits, then `. `, then the rest.
pub open spec fn ordered_rest(line: Seq<char>) -> Option<Seq<char>> {
    let t = trim_start(line);
    let d = digit_prefix(t) as int;
    if d >= 1 && d + 2 <= t.len() && t[d] == '.' && t[d + 1] == ' ' {
        Some(t.skip(d + 2))
    } else {
        None
    }
}

/// Whether a trimmed line is a horizontal rule.
pub open spec fn is_rule(t: Seq<char>) -> bool {
    t == seq!['-', '-', '-'] || t == seq!['*', '*', '*'] || t == seq!['_', '_', '_']
}

/// State of the line-by-line rendering.
pub struct AnsiState {
    pub in_code: bool,
    pub lang: Seq<char>,
    pub code: Seq<Seq<char>>,
    pub out: Seq<char>,
}

/// The state before the first line.
pub open spec fn ansi_start() -> AnsiState {
    AnsiState { in_code: false, lang: seq![], code: seq![], out: seq![] }
}

/// `st` with `x` appended to the output.
pub open spec fn emit(st: AnsiState, x: Seq<char>) -> AnsiState {
    AnsiState { in_code: st.in_code, lang: st.lang, code: st.code, out: st.out + x }
}

/// The inline rendering of `body` after `prefix` and before a newline.
pub open spec fn inline_line(prefix: Seq<char>, body: Seq<char>, theme: Theme) -> Seq<char> {
    prefix + inline_render(body, theme) + seq!['\n']
}

/// The rendering of a line outside code blocks that opens no code block.
pub open spec fn text_line(line: Seq<char>, theme: Theme) -> Seq<char> {
    if starts_with(line, seq!['#', ' ']) {
        paint(seq!['\n'] + line.skip(2) + seq!['\n'], theme.header, theme.no_color)
    } else if starts_with(line, seq!['#', '#', ' ']) {
        paint(seq!['\n'] + line.skip(3) + seq!['\n'], theme.header, theme.no_color)
    } else if starts_with(line, seq!['#', '#', '#', ' ']) {
        paint(seq!['\n'] + line.skip(4) + seq!['\n'], theme.header, theme.no_color)
    } else if is_rule(trim(line)) {
        paint(repeat(seq!['─'], 60), theme.horizontal_rule, theme.no_color) + seq!['\n']
    } else if starts_with(line, seq!['-', ' ']) || starts_with(line, seq!['*', ' ']) {
        inline_line(seq!['•', ' '], line.skip(2), theme)
    } else if ordered_rest(line) is Some {
        inline_line(seq![' ', ' '], ordered_rest(line)->0, theme)
    } else if starts_with(line, seq!['>', ' ']) {
        inline_line(seq!['│', ' '], line.skip(2), theme)
    } else {
        inline_line(seq![], line, theme)
    }
}

/// Rendering of one line.
pub open spec fn ansi_line(st: AnsiState, line: Seq<char>, theme: Theme) -> AnsiState {
    let ts = trim_start(line);
    if starts_with(ts, seq!['`', '`', '`']) {
        if st.in_code {
            AnsiState { in_code: false, lang: seq![], code: seq![], out: st.out + code_block(st.code, st.lang, theme) }
        } else {
            AnsiState { in_code: true, lang: trim(trim_start_char(ts, '`')), code: st.code, out: st.out }
        }
    } else if st.in_code {
        AnsiState { in_code: true, lang: st.lang, code: st.code.push(line), out: st.out }
    } else {
        emit(st, text_line(line, theme))
    }
}

/// Rendering of a sequence of lines.
pub open spec fn ansi_lines(st: AnsiState, ls: Seq<Seq<char>>, theme: Theme) -> AnsiState
    decreases ls.len(),
{
    if ls.len() == 0 {
        st
    } else {
        ansi_line(ansi_lines(st, ls.drop_last(), theme), ls.last(), theme)
    }
}

/// The ANSI rendering of markdown `text`. Plain output is the text itself;
/// an unclosed code block with lines is still rendered at the end.
pub open spec fn ansi_render(text: Seq<char>, theme: Theme, plain: bool) -> Seq<char> {
    if plain {
        text
    } else {
        let st = ansi_lines(ansi_start(), lines(text), theme);
        if st.in_code && st.code.len() > 0 {
            st.out + code_block(st.code, st.lang, theme)
        } else {
            st.out
        }
    }
}

/// What a header of any level becomes: its text between line breaks, in the
/// header color.
pub open spec fn header_painted(text: Seq<char>, theme: Theme) -> Seq<char> {
    paint(seq!['\n'] + text + seq!['\n'], theme.header, theme.no_color)
}

/// Whether `next` is `st` with `x` added to the output and nothing else changed.
pub open spec fn adds_only(st: AnsiState, next: AnsiState, x: Seq<char>) -> bool {
    &&& next.out == st.out + x
    &&& next.in_code == st.in_code
    &&& next.lang == st.lang
    &&& next.code == st.code
}

/// Outside a code block, a header line of level one, two or three (`# `,
/// `## `, `### ` then the text) adds exactly its text, without the marker,
/// between line breaks and in the header color, and changes nothing else.
pub proof fn lemma_header_lines(st: AnsiState, text: Seq<char>, theme: Theme)
    requires
        !st.in_code,
    ensures
        adds_only(st, ansi_line(st, seq!['#', ' '] + text, theme), header_painted(text, theme)),
        adds_only(st, ansi_line(st, seq!['#', '#', ' '] + text, theme), header_painted(text, theme)),
        adds_only(st, ansi_line(st, seq!['#', '#', '#', ' '] + text, theme), header_painted(text, theme)),
{
    let l1 = seq!['#', ' '] + text;
    let l2 = seq!['#', '#', ' '] + text;
    let l3 = seq!['#', '#', '#', ' '] + text;
    assert(!is_ws('#'));
    assert(trim_start(l1) == l1);
    assert(trim_start(l2) == l2);
    assert(trim_start(l3) == l3);
    assert(!starts_with(l1, seq!['`', '`', '`']) && l1[0] == '#');
    assert(!starts_with(l2, seq!['`', '`', '`']) && l2[0] == '#');
    assert(!starts_with(l3, seq!['`', '`', '`']) && l3[0] == '#');
    assert(l1.subrange(0, 2) =~= seq!['#', ' ']);
    assert(l1.skip(2) =~= text);
    assert(l2.subrange(0, 3) =~= seq!['#', '#', ' ']);
    assert(l2.subrange(0, 2) != seq!['#', ' ']) by {
        assert(l2.subrange(0, 2)[1] == '#');
    }
    assert(l2.skip(3) =~= text);
    assert(l3.subrange(0, 4) =~= seq!['#', '#', '#', ' ']);
    assert(l3.subrange(0, 2) != seq!['#', ' ']) by {
        assert(l3.subrange(0, 2)[1] == '#');
    }
    assert(l3.subrange(0, 3) != seq!['#', '#', ' ']) by {
        assert(l3.subrange(0, 3)[2] == '#');
    }
    assert(l3.skip(4) =~= text);
}

/// Plain output is the markdown text itself.
pub proof fn lemma_plain_is_identity(text: Seq<char>, theme: Theme)
    ensures
        ansi_render(text, theme, true) == text,
{
}

/// The character sequences held by a list of character vectors.
pub open spec fn views(v: Seq<Vec<char>>) -> Seq<Seq<char>> {
    v.map_values(|x: Vec<char>| x@)
}

/// The widest line of `lines`, in bytes.
fn widest(lines: &Vec<Vec<char>>) -> (mw: usize)
    requires
        forall|i: int| 0 <= i < lines@.len() ==> utf8_len(#[trigger] lines@[i]@) <= isize::MAX,
    ensures
        mw == max_len(views(lines@)),
        mw <= isize::MAX,
{
    let ghost ls = views(lines@);
    let mut mw: usize = 0;
    let mut i: usize = 0;
    while i < lines.len()
        invariant
            i <= lines.len(),
            ls == views(lines@),
            mw == max_len(ls.take(i as int)),
            mw <= isize::MAX,
            forall|j: int| 0 <= j < lines@.len() ==> utf8_len(#[trigger] lines@[j]@) <= isize::MAX,
        decreases lines.len() - i,
    {
        assert(ls.take(i + 1).drop_last() =~= ls.take(i as int));
        assert(ls.take(i + 1).last() == lines@[i as int]@);
        let n = utf8_length(lines[i].as_slice());
        if n > mw {
            mw = n;
        }
        i += 1;
    }
    assert(ls.take(lines.len() as int) =~= ls);
    mw
}

/// Appends the top border of a code block to `out`.
fn push_code_header(out: &mut Vec<char>, lang: &[char], w: usize, theme: &Theme)
    requires
        utf8_len(lang@) <= isize::MAX,
        w <= isize::MAX,
    ensures
        final(out)@ == old(out)@ + code_header(lang@, w as nat, *theme),
{
    let border = theme.code_block_border;
    let dash = vec!['─'];
    assert(dash@ =~= seq!['─']);
    if lang.len() == 0 {
        let mut h: Vec<char> = vec!['┌'];
        append_repeat(&mut h, dash.as_slice(), w + 2);
        h.push('┐');
        assert(h@ =~= seq!['┌'] + repeat(seq!['─'], (w + 2) as nat) + seq!['┐']);
        paint_into(out, h.as_slice(), border, theme.no_color);
    } else {
        push_labelled_header(out, lang, w, theme);
    }
}

/// Appends the top border of a code block with a language label to `out`.
fn push_labelled_header(out: &mut Vec<char>, lang: &[char], w: usize, theme: &Theme)
    requires
        utf8_len(lang@) <= isize::MAX,
        lang@.len() > 0,
        w <= isize::MAX,
    ensures
        final(out)@ == old(out)@ + code_header(lang@, w as nat, *theme),
{
    let border = theme.code_block_border;
    let dash = vec!['─'];
    assert(dash@ =~= seq!['─']);
    let mut label: Vec<char> = vec![' '];
    append_chars(&mut label, lang);
    label.push(' ');
    assert(label@ =~= seq![' '] + lang@ + seq![' ']);
    proof {
        lemma_utf8_len_concat(seq![' '], lang@);
        lemma_utf8_len_concat(seq![' '] + lang@, seq![' ']);
        lemma_utf8_len_single(' ');
    }
    let lw = utf8_length(label.as_slice());
    let remaining: usize = (if w >= lw { w - lw } else { 0 }) + 2;
    let corner = vec!['┌'];
    let corner2 = vec!['┐'];
    assert(corner@ =~= seq!['┌']);
    assert(corner2@ =~= seq!['┐']);
    let mut rule: Vec<char> = Vec::new();
    append_repeat(&mut rule, dash.as_slice(), remaining);
    assert(rule@ =~= repeat(seq!['─'], remaining as nat));
    let ghost o = out@;
    paint_into(out, corner.as_slice(), border, theme.no_color);
    paint_into(out, label.as_slice(), theme.header, theme.no_color);
    paint_into(out, rule.as_slice(), border, theme.no_color);
    paint_into(out, corner2.as_slice(), border, theme.no_color);
    assert(out@ =~= o + code_header(lang@, w as nat, *theme));
}

/// Appends one line of a code block to `out`.
fn push_code_row(out: &mut Vec<char>, line: &[char], w: usize, theme: &Theme)
    requires
        utf8_len(line@) <= isize::MAX,
    ensures
        final(out)@ == old(out)@ + code_row(line@, w as nat, *theme),
{
    let left = vec!['│', ' '];
    let right = vec![' ', '│'];
    let space = vec![' '];
    assert(left@ =~= seq!['│', ' ']);
    assert(right@ =~= seq![' ', '│']);
    assert(space@ =~= seq![' ']);
    let n = utf8_length(line);
    let border = theme.code_block_border;
    paint_into(out, left.as_slice(), border, theme.no_color);
    paint_into(out, line, theme.code_block_line, theme.no_color);
    let pad: usize = if w >= n { w - n } else { 0 };
    append_repeat(out, space.as_slice(), pad);
    paint_into(out, right.as_slice(), border, theme.no_color);
    out.push('\n');
    assert(final(out)@ =~= old(out)@ + code_row(line@, w as nat, *theme));
}

/// Appends the rendered code block to `out`.
fn push_code_block(out: &mut Vec<char>, lines: &Vec<Vec<char>>, lang: &[char], theme: &Theme)
    requires
        forall|i: int| 0 <= i < lines@.len() ==> utf8_len(#[trigger] lines@[i]@) <= isize::MAX,
        utf8_len(lang@) <= isize::MAX,
    ensures
        final(out)@ == old(out)@ + code_block(views(lines@), lang@, *theme),
{
    let ghost ls = views(lines@);
    let mw = widest(lines);
    let w: usize = if mw < 40 { 40 } else { mw };
    push_code_header(out, lang, w, theme);
    out.push('\n');
    let ghost head = out@;
    let mut k: usize = 0;
    while k < lines.len()
        invariant
            k <= lines.len(),
            ls == views(lines@),
            w == block_width(ls),
            out@ == head + code_rows(ls.take(k as int), w as nat, *theme),
            forall|j: int| 0 <= j < lines@.len() ==> utf8_len(#[trigger] lines@[j]@) <= isize::MAX,
        decreases lines.len() - k,
    {
        let ghost before = out@;
        push_code_row(out, lines[k].as_slice(), w, theme);
        proof {
            assert(ls.take(k + 1).drop_last() =~= ls.take(k as int));
            assert(ls.take(k + 1).last() == lines@[k as int]@);
            assert(out@ =~= head + code_rows(ls.take(k + 1), w as nat, *theme));
        }
        k += 1;
    }
    assert(ls.take(lines.len() as int) =~= ls);
    let dash = vec!['─'];
    assert(dash@ =~= seq!['─']);
    let mut f: Vec<char> = vec!['└'];
    append_repeat(&mut f, dash.as_slice(), w + 2);
    f.push('┘');
    assert(f@ =~= seq!['└'] + repeat(seq!['─'], (w + 2) as nat) + seq!['┘']);
    paint_into(out, f.as_slice(), theme.code_block_border, theme.no_color);
    out.push('\n');
    assert(final(out)@ =~= old(out)@ + code_block(ls, lang@, *theme));
}

/// Render a code block with a border.
pub fn render_code_block(lines: &Vec<String>, lang: &str, theme: &Theme) -> (r: String)
    requires
        forall|i: int| 0 <= i < lines@.len() ==> utf8_len(#[trigger] lines@[i]@) <= isize::MAX,
        utf8_len(lang@) <= isize::MAX,
    ensures
        r@ == code_block(lines@.map_values(|s: String| s@), lang@, *theme),
{
    let mut ls: Vec<Vec<char>> = Vec::new();
    let mut i: usize = 0;
    while i < lines.len()
        invariant
            i <= lines.len(),
            ls@.len() == i,
            forall|j: int| 0 <= j < i ==> #[trigger] ls@[j]@ == lines@[j]@,
        decreases lines.len() - i,
    {
        ls.push(chars_of(lines[i].as_str()));
        i += 1;
    }
    assert(views(ls@) =~= lines@.map_values(|s: String| s@));
    let l = chars_of(lang);
    let mut out: Vec<char> = Vec::new();
    push_code_block(&mut out, &ls, l.as_slice(), theme);
    assert(out@ =~= code_block(lines@.map_values(|s: String| s@), lang@, *theme));
    string_of(out.as_slice())
}

/// The rest of a line after an ordered-list prefix, on characters.
fn ordered_rest_chars(line: &[char]) -> (r: Option<Vec<char>>)
    ensures
        match r {
            Some(x) => ordered_rest(line@) == Some(x@),
            None => ordered_rest(line@) is None,
        },
{
    let t = trim_start_chars(line);
    let mut d: usize = 0;
    assert(t@.skip(0) =~= t@);
    while d < t.len() && '0' <= t[d] && t[d] <= '9'
        invariant
            d <= t.len(),
            digit_prefix(t@) == d + digit_prefix(t@.skip(d as int)),
        decreases t.len() - d,
    {
        assert(t@.skip(d as int).drop_first() =~= t@.skip(d + 1));
        d += 1;
    }
    assert(digit_prefix(t@.skip(d as int)) == 0);
    if d >= 1 && t.len() - d >= 2 && t[d] == '.' && t[d + 1] == ' ' {
        let r = slice_chars(t.as_slice(), d + 2, t.len());
        assert(r@ =~= t@.skip(d + 2));
        Some(r)
    } else {
        None
    }
}

/// Try to strip an ordered list prefix like "1. " from a line.
pub fn strip_ordered_list_prefix(line: &str) -> (r: Option<String>)
    ensures
        match r {
            Some(x) => ordered_rest(line@) == Some(x@),
            None => ordered_rest(line@) is None,
        },
{
    let l = chars_of(line);
    match ordered_rest_chars(l.as_slice()) {
        Some(x) => Some(string_of(x.as_slice())),
        None => None,
    }
}

/// Renders a line outside code blocks that opens no code block.
fn render_text_line(line: &[char], theme: &Theme) -> (r: Vec<char>)
    ensures
        r@ == text_line(line@, *theme),
{
    let h1 = vec!['#', ' '];
    let h2 = vec!['#', '#', ' '];
    let h3 = vec!['#', '#', '#', ' '];
    assert(h1@ =~= seq!['#', ' ']);
    assert(h2@ =~= seq!['#', '#', ' ']);
    assert(h3@ =~= seq!['#', '#', '#', ' ']);
    if starts_with_chars(line, h1.as_slice()) {
        return header_line(line, 2, theme);
    }
    if starts_with_chars(line, h2.as_slice()) {
        return header_line(line, 3, theme);
    }
    if starts_with_chars(line, h3.as_slice()) {
        return header_line(line, 4, theme);
    }
    if is_rule_line(line) {
        let dash = vec!['─'];
        assert(dash@ =~= seq!['─']);
        let mut x: Vec<char> = Vec::new();
        append_repeat(&mut x, dash.as_slice(), 60);
        assert(x@ =~= repeat(seq!['─'], 60));
        let mut out: Vec<char> = Vec::new();
        paint_into(&mut out, x.as_slice(), theme.horizontal_rule, theme.no_color);
        out.push('\n');
        assert(out@ =~= paint(repeat(seq!['─'], 60), theme.horizontal_rule, theme.no_color) + seq!['\n']);
        return out;
    }
    list_line(line, theme)
}

/// A header line: the text after the marker, between newlines, in the header color.
fn header_line(line: &[char], skip: usize, theme: &Theme) -> (r: Vec<char>)
    requires
        skip <= line@.len(),
    ensures
        r@ == paint(seq!['\n'] + line@.skip(skip as int) + seq!['\n'], theme.header, theme.no_color),
{
    let mut x: Vec<char> = vec!['\n'];
    let body = slice_chars(line, skip, line.len());
    append_chars(&mut x, body.as_slice());
    x.push('\n');
    assert(x@ =~= seq!['\n'] + line@.skip(skip as int) + seq!['\n']);
    let mut out: Vec<char> = Vec::new();
    paint_into(&mut out, x.as_slice(), theme.header, theme.no_color);
    assert(out@ =~= paint(x@, theme.header, theme.no_color));
    out
}

/// Whether the trimmed line is a horizontal rule.
fn is_rule_line(line: &[char]) -> (b: bool)
    ensures
        b == is_rule(trim(line@)),
{
    let rule1 = vec!['-', '-', '-'];
    let rule2 = vec!['*', '*', '*'];
    let rule3 = vec!['_', '_', '_'];
    assert(rule1@ =~= seq!['-', '-', '-']);
    assert(rule2@ =~= seq!['*', '*', '*']);
    assert(rule3@ =~= seq!['_', '_', '_']);
    let tr = trim_chars(line);
    chars_eq(tr.as_slice(), rule1.as_slice()) || chars_eq(tr.as_slice(), rule2.as_slice())
        || chars_eq(tr.as_slice(), rule3.as_slice())
}

/// `prefix`, the inline rendering of `body`, and a newline.
fn inline_with_prefix(prefix: &[char], body: &[char], theme: &Theme) -> (r: Vec<char>)
    ensures
        r@ == inline_line(prefix@, body@, *theme),
{
    let x = render_inline_chars(body, theme);
    let mut out = slice_chars(prefix, 0, prefix.len());
    append_chars(&mut out, x.as_slice());
    out.push('\n');
    assert(out@ =~= prefix@ + x@ + seq!['\n']);
    out
}

/// List items, quotes and paragraphs.
fn list_line(line: &[char], theme: &Theme) -> (r: Vec<char>)
    requires
        !starts_with(line@, seq!['#', ' ']),
        !starts_with(line@, seq!['#', '#', ' ']),
        !starts_with(line@, seq!['#', '#', '#', ' ']),
        !is_rule(trim(line@)),
    ensures
        r@ == text_line(line@, *theme),
{
    let dash_item = vec!['-', ' '];
    let star_item = vec!['*', ' '];
    let quote = vec!['>', ' '];
    assert(dash_item@ =~= seq!['-', ' ']);
    assert(star_item@ =~= seq!['*', ' ']);
    assert(quote@ =~= seq!['>', ' ']);
    if starts_with_chars(line, dash_item.as_slice()) || starts_with_chars(line, star_item.as_slice()) {
        let body = slice_chars(line, 2, line.len());
        assert(body@ =~= line@.skip(2));
        let bullet = vec!['•', ' '];
        assert(bullet@ =~= seq!['•', ' ']);
        return inline_with_prefix(bullet.as_slice(), body.as_slice(), theme);
    }
    match ordered_rest_chars(line) {
        Some(rest) => {
            let indent = vec![' ', ' '];
            assert(indent@ =~= seq![' ', ' ']);
            inline_with_prefix(indent.as_slice(), rest.as_slice(), theme)
        },
        None => {
            if starts_with_chars(line, quote.as_slice()) {
                let body = slice_chars(line, 2, line.len());
                assert(body@ =~= line@.skip(2));
                let bar = vec!['│', ' '];
                assert(bar@ =~= seq!['│', ' ']);
                inline_with_prefix(bar.as_slice(), body.as_slice(), theme)
            } else {
                let none: Vec<char> = Vec::new();
                assert(none@ =~= seq![]);
                inline_with_prefix(none.as_slice(), line, theme)
            }
        },
    }
}

/// The rendering state of `markdown_to_ansi`.
pub struct AnsiBuf {
    pub in_code: bool,
    pub lang: Vec<char>,
    pub code: Vec<Vec<char>>,
    pub out: Vec<char>,
}

impl AnsiBuf {
    /// The state this buffer holds.
    pub open spec fn state(&self) -> AnsiState {
        AnsiState { in_code: self.in_code, lang: self.lang@, code: views(self.code@), out: self.out@ }
    }

    /// Every buffered line fits the byte-length limit.
    pub open spec fn bounded(&self) -> bool {
        &&& forall|j: int| 0 <= j < self.code@.len() ==> utf8_len(#[trigger] self.code@[j]@) <= isize::MAX
        &&& utf8_len(self.lang@) <= isize::MAX
    }
}

/// Renders one line into `buf`.
fn ansi_step(buf: &mut AnsiBuf, line: &[char], theme: &Theme)
    requires
        old(buf).bounded(),
        utf8_len(line@) <= isize::MAX,
    ensures
        final(buf).bounded(),
        final(buf).state() == ansi_line(old(buf).state(), line@, *theme),
{
    let fence = vec!['`', '`', '`'];
    assert(fence@ =~= seq!['`', '`', '`']);
    let ts = trim_start_chars(line);
    if starts_with_chars(ts.as_slice(), fence.as_slice()) {
        if buf.in_code {
            push_code_block(&mut buf.out, &buf.code, buf.lang.as_slice(), theme);
            buf.code = Vec::new();
            buf.lang = Vec::new();
            buf.in_code = false;
            assert(views(buf.code@) =~= Seq::<Seq<char>>::empty());
        } else {
            let stripped = trim_start_char_chars(ts.as_slice(), '`');
            buf.lang = trim_chars(stripped.as_slice());
            buf.in_code = true;
            proof {
                lemma_utf8_len_trim(line@, '`');
                lemma_utf8_len_trim(trim_start(line@), '`');
                lemma_utf8_len_trim(trim_start_char(trim_start(line@), '`'), '`');
            }
        }
    } else if buf.in_code {
        let ghost before = buf.code@;
        buf.code.push(slice_chars(line, 0, line.len()));
        assert(line@.subrange(0, line@.len() as int) =~= line@);
        assert(views(buf.code@) =~= views(before).push(line@));
    } else {
        let x = render_text_line(line, theme);
        append_chars(&mut buf.out, x.as_slice());
    }
}

/// Convert markdown text to ANSI-formatted terminal output.
pub fn markdown_to_ansi(text: &str, theme: &Theme, plain: bool) -> (r: String)
    requires
        utf8_len(text@) <= isize::MAX,
    ensures
        r@ == ansi_render(text@, *theme, plain),
{
    if plain {
        return text.to_owned();
    }
    let t = chars_of(text);
    let ls = split_lines(t.as_slice());
    let ghost all = lines(text@);
    proof {
        lemma_lines_utf8_bound(text@);
    }
    let mut buf = AnsiBuf { in_code: false, lang: Vec::new(), code: Vec::new(), out: Vec::new() };
    assert(views(buf.code@) =~= Seq::<Seq<char>>::empty());
    assert(buf.lang@ =~= Seq::<char>::empty());
    assert(buf.out@ =~= Seq::<char>::empty());
    assert(buf.state() == ansi_start());
    assert(all.take(0) =~= Seq::<Seq<char>>::empty());
    let mut i: usize = 0;
    while i < ls.len()
        invariant
            i <= ls.len(),
            ls@.len() == all.len(),
            all == lines(text@),
            forall|j: int| 0 <= j < ls@.len() ==> #[trigger] ls@[j]@ == all[j],
            forall|j: int| 0 <= j < all.len() ==> utf8_len(#[trigger] all[j]) <= utf8_len(text@),
            utf8_len(text@) <= isize::MAX,
            ansi_lines(ansi_start(), all.take(i as int), *theme) == buf.state(),
            buf.bounded(),
        decreases ls.len() - i,
    {
        proof {
            assert(all.take(i + 1).drop_last() =~= all.take(i as int));
            assert(all.take(i + 1).last() == all[i as int]);
            assert(utf8_len(ls@[i as int]@) <= utf8_len(text@));
        }
        ansi_step(&mut buf, ls[i].as_slice(), theme);
        i += 1;
    }
    assert(all.take(ls.len() as int) =~= all);
    if buf.in_code && buf.code.len() > 0 {
        push_code_block(&mut buf.out, &buf.code, buf.lang.as_slice(), theme);
    }
    string_of(buf.out.as_slice())
}

} // verus!
