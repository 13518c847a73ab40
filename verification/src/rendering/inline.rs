//! Inline markdown: `code`, **bold**, *italic* and [links](url).
//!
//! The passes run in that order over the whole text; each pass repeatedly
//! rewrites its first complete construct until none is left.
use vstd::prelude::*;
use crate::text::{
    append_chars, chars_of, count_char, find, find_char, find_chars, find_from,
    lemma_count_one, lemma_count_range_absent, lemma_count_splice, lemma_count_split,
    lemma_find_char, lemma_find_pair, slice_chars, splice, string_of,
};
use super::colors::{lemma_paint_count, paint, paint_into, paint_style, paint_style_into, Style, Color, is_sgr_char};
use super::theme::Theme;

verus! {

/// Inline code: the first pair of backticks and the text between them
/// becomes that text in the inline-code color, until no pair is left.
pub open spec fn code_pass(r: Seq<char>, theme: Theme) -> Seq<char>
    decreases count_char(r, '`'),
{
    match find(r, seq!['`']) {
        None => r,
        Some(s) => match find_from(r, seq!['`'], s + 1) {
            None => r,
            Some(e) => {
                proof {
                    lemma_code_step(r, s as int, e as int, theme);
                }
                code_pass(
                    splice(
                        r,
                        s as int,
                        e as int + 1,
                        paint(r.subrange(s as int + 1, e as int), theme.inline_code, theme.no_color),
                    ),
                    theme,
                )
            },
        },
    }
}

/// Bold: the first `**`, the text up to the next `**`, and that `**` become
/// the text in bold, until no pair is left.
pub open spec fn bold_pass(r: Seq<char>, theme: Theme) -> Seq<char>
    decreases count_char(r, '*'),
{
    match find(r, seq!['*', '*']) {
        None => r,
        Some(s) => match find_from(r, seq!['*', '*'], s + 2) {
            None => r,
            Some(e) => {
                proof {
                    lemma_bold_step(r, s as int, e as int, theme);
                }
                bold_pass(
                    splice(
                        r,
                        s as int,
                        e as int + 2,
                        paint_style(r.subrange(s as int + 2, e as int), Style::Bold, theme.no_color),
                    ),
                    theme,
                )
            },
        },
    }
}

/// The first `*` at or after `p` that opens italic text: a `**` is skipped
/// as a whole, and the search goes on after it.
pub open spec fn italic_open(r: Seq<char>, p: nat) -> Option<nat>
    decreases r.len() - p,
{
    match find_from(r, seq!['*'], p) {
        None => None,
        Some(s) => if s + 1 < r.len() && r[s as int + 1] == '*' {
            proof {
                lemma_find_char(r, '*', p);
            }
            italic_open(r, s + 2)
        } else {
            Some(s)
        },
    }
}

/// Italic: the first single `*` and the text up to the next `*` become
/// italic text, until no pair is left; a `**` left by the bold pass stays
/// as it is.
pub open spec fn italic_pass(r: Seq<char>, theme: Theme) -> Seq<char>
    decreases count_char(r, '*'),
{
    match italic_open(r, 0) {
        None => r,
        Some(s) => match find_from(r, seq!['*'], s + 1) {
            None => r,
            Some(e) => {
                proof {
                    lemma_italic_open(r, 0);
                    lemma_italic_step(r, s as int, e as int, theme);
                }
                italic_pass(
                    splice(
                        r,
                        s as int,
                        e as int + 1,
                        paint_style(r.subrange(s as int + 1, e as int), Style::Italic, theme.no_color),
                    ),
                    theme,
                )
            },
        },
    }
}

/// Where `italic_open` points: at a `*` at or after `p`.
pub proof fn lemma_italic_open(r: Seq<char>, p: nat)
    ensures
        match italic_open(r, p) {
            Some(s) => p <= s < r.len() && r[s as int] == '*',
            None => true,
        },
    decreases r.len() - p,
{
    lemma_find_char(r, '*', p);
    match find_from(r, seq!['*'], p) {
        None => {},
        Some(s) => if s + 1 < r.len() && r[s as int + 1] == '*' {
            lemma_italic_open(r, s + 2);
        } else {
        },
    }
}

/// The first `[` at or after `p` that can open a link: one that directly
/// follows an escape character belongs to a color code and is passed over.
pub open spec fn link_open(r: Seq<char>, p: nat) -> Option<nat>
    decreases r.len() - p,
{
    match find_from(r, seq!['['], p) {
        None => None,
        Some(s) => if s > 0 && r[s as int - 1] == '\x1b' {
            proof {
                lemma_find_char(r, '[', p);
            }
            link_open(r, s + 1)
        } else {
            Some(s)
        },
    }
}

/// Where `link_open` points: at a `[` at or after `p`.
pub proof fn lemma_link_open(r: Seq<char>, p: nat)
    ensures
        match link_open(r, p) {
            Some(s) => p <= s < r.len() && r[s as int] == '[',
            None => true,
        },
    decreases r.len() - p,
{
    lemma_find_char(r, '[', p);
    match find_from(r, seq!['['], p) {
        None => {},
        Some(s) => if s > 0 && r[s as int - 1] == '\x1b' {
            lemma_link_open(r, s + 1);
        } else {
        },
    }
}

/// The text a link `[text](url)` is rewritten to.
pub open spec fn link_text(text: Seq<char>, url: Seq<char>, theme: Theme) -> Seq<char> {
    paint(text, theme.link, theme.no_color) + seq![' ', '('] + paint(url, theme.link, theme.no_color)
        + seq![')']
}

/// Links: from the first `[` that can open a link, the first `](` after it
/// and the first `)` after that delimit a link, rewritten to `text (url)`,
/// until none is left.
pub open spec fn link_pass(r: Seq<char>, theme: Theme) -> Seq<char>
    decreases count_char(r, ']'),
{
    match link_open(r, 0) {
        None => r,
        Some(s) => match find_from(r, seq![']', '('], s) {
            None => r,
            Some(m) => match find_from(r, seq![')'], m + 2) {
                None => r,
                Some(e) => {
                    proof {
                        lemma_link_open(r, 0);
                        lemma_link_step(r, s as int, m as int, e as int, theme);
                    }
                    link_pass(
                        splice(
                            r,
                            s as int,
                            e as int + 1,
                            link_text(r.subrange(s as int + 1, m as int), r.subrange(m as int + 2, e as int), theme),
                        ),
                        theme,
                    )
                },
            },
        },
    }
}

/// Inline rendering of `text`.
pub open spec fn inline_render(text: Seq<char>, theme: Theme) -> Seq<char> {
    link_pass(italic_pass(bold_pass(code_pass(text, theme), theme), theme), theme)
}

pub proof fn lemma_code_step(r: Seq<char>, s: int, e: int, theme: Theme)
    requires
        0 <= s,
        0 <= e,
        find(r, seq!['`']) == Some(s as nat),
        find_from(r, seq!['`'], (s + 1) as nat) == Some(e as nat),
    ensures
        s < e < r.len(),
        count_char(
            splice(r, s, e + 1, paint(r.subrange(s + 1, e), theme.inline_code, theme.no_color)),
            '`',
        ) + 2 == count_char(r, '`'),
{
    lemma_find_char(r, '`', 0);
    lemma_find_char(r, '`', (s + 1) as nat);
    let x = paint(r.subrange(s + 1, e), theme.inline_code, theme.no_color);
    lemma_count_splice(r, s, e + 1, x, '`');
    lemma_count_split(r, s, s + 1, e + 1, '`');
    lemma_count_split(r, s + 1, e, e + 1, '`');
    lemma_count_one(r, s, '`');
    lemma_count_one(r, e, '`');
    lemma_count_range_absent(r, s + 1, e, '`');
    lemma_paint_count(r.subrange(s + 1, e), theme.inline_code, Style::Bold, theme.no_color, '`');
}

pub proof fn lemma_bold_step(r: Seq<char>, s: int, e: int, theme: Theme)
    requires
        0 <= s,
        0 <= e,
        find(r, seq!['*', '*']) == Some(s as nat),
        find_from(r, seq!['*', '*'], (s + 2) as nat) == Some(e as nat),
    ensures
        s + 2 <= e,
        e + 2 <= r.len(),
        count_char(
            splice(r, s, e + 2, paint_style(r.subrange(s + 2, e), Style::Bold, theme.no_color)),
            '*',
        ) + 4 == count_char(r, '*'),
{
    lemma_find_pair(r, '*', '*', 0);
    lemma_find_pair(r, '*', '*', (s + 2) as nat);
    let x = paint_style(r.subrange(s + 2, e), Style::Bold, theme.no_color);
    lemma_count_splice(r, s, e + 2, x, '*');
    lemma_count_split(r, s, s + 1, e + 2, '*');
    lemma_count_split(r, s + 1, s + 2, e + 2, '*');
    lemma_count_split(r, s + 2, e, e + 2, '*');
    lemma_count_split(r, e, e + 1, e + 2, '*');
    lemma_count_one(r, s, '*');
    lemma_count_one(r, s + 1, '*');
    lemma_count_one(r, e, '*');
    lemma_count_one(r, e + 1, '*');
    lemma_paint_count(r.subrange(s + 2, e), Color::Normal, Style::Bold, theme.no_color, '*');
}

pub proof fn lemma_italic_step(r: Seq<char>, s: int, e: int, theme: Theme)
    requires
        0 <= s,
        0 <= e,
        s < r.len(),
        r[s] == '*',
        find_from(r, seq!['*'], (s + 1) as nat) == Some(e as nat),
    ensures
        s < e < r.len(),
        count_char(
            splice(r, s, e + 1, paint_style(r.subrange(s + 1, e), Style::Italic, theme.no_color)),
            '*',
        ) + 2 == count_char(r, '*'),
{
    lemma_find_char(r, '*', (s + 1) as nat);
    let x = paint_style(r.subrange(s + 1, e), Style::Italic, theme.no_color);
    lemma_count_splice(r, s, e + 1, x, '*');
    lemma_count_split(r, s, s + 1, e + 1, '*');
    lemma_count_split(r, s + 1, e, e + 1, '*');
    lemma_count_one(r, s, '*');
    lemma_count_one(r, e, '*');
    lemma_count_range_absent(r, s + 1, e, '*');
    lemma_paint_count(r.subrange(s + 1, e), Color::Normal, Style::Italic, theme.no_color, '*');
}

pub proof fn lemma_link_step(r: Seq<char>, s: int, m: int, e: int, theme: Theme)
    requires
        0 <= s,
        0 <= m,
        0 <= e,
        s < r.len(),
        r[s] == '[',
        find_from(r, seq![']', '('], s as nat) == Some(m as nat),
        find_from(r, seq![')'], (m + 2) as nat) == Some(e as nat),
    ensures
        s < m,
        m + 2 <= e < r.len(),
        count_char(
            splice(r, s, e + 1, link_text(r.subrange(s + 1, m), r.subrange(m + 2, e), theme)),
            ']',
        ) + 1 == count_char(r, ']'),
{
    lemma_find_pair(r, ']', '(', s as nat);
    lemma_find_char(r, ')', (m + 2) as nat);
    let t = r.subrange(s + 1, m);
    let u = r.subrange(m + 2, e);
    let x = link_text(t, u, theme);
    lemma_count_splice(r, s, e + 1, x, ']');
    lemma_count_split(r, s, s + 1, e + 1, ']');
    lemma_count_split(r, s + 1, m, e + 1, ']');
    lemma_count_split(r, m, m + 1, e + 1, ']');
    lemma_count_split(r, m + 1, m + 2, e + 1, ']');
    lemma_count_split(r, m + 2, e, e + 1, ']');
    lemma_count_one(r, s, ']');
    lemma_count_one(r, m, ']');
    lemma_count_one(r, m + 1, ']');
    lemma_count_one(r, e, ']');
    lemma_paint_count(t, theme.link, Style::Bold, theme.no_color, ']');
    lemma_paint_count(u, theme.link, Style::Bold, theme.no_color, ']');
    let a = paint(t, theme.link, theme.no_color);
    let b = paint(u, theme.link, theme.no_color);
    crate::text::lemma_count_concat(a, seq![' ', '('], ']');
    crate::text::lemma_count_concat(a + seq![' ', '('], b, ']');
    crate::text::lemma_count_concat(a + seq![' ', '('] + b, seq![')'], ']');
    crate::text::lemma_count_absent(seq![' ', '('], ']');
    crate::text::lemma_count_absent(seq![')'], ']');
}

/// One step of the link pass.
proof fn lemma_link_unfold(r: Seq<char>, s: int, m: int, e: int, theme: Theme)
    requires
        0 <= s,
        0 <= m,
        0 <= e,
        link_open(r, 0) == Some(s as nat),
        find_from(r, seq![']', '('], s as nat) == Some(m as nat),
        find_from(r, seq![')'], (m + 2) as nat) == Some(e as nat),
    ensures
        link_pass(r, theme) == link_pass(
            splice(r, s, e + 1, link_text(r.subrange(s + 1, m), r.subrange(m + 2, e), theme)),
            theme,
        ),
{
}

/// Runs the inline-code pass.
fn run_code_pass(text: Vec<char>, theme: &Theme) -> (r: Vec<char>)
    ensures
        r@ == code_pass(text@, *theme),
{
    let mut r = text;
    let mut done = false;
    while !done
        invariant
            code_pass(r@, *theme) == code_pass(text@, *theme),
            done ==> code_pass(r@, *theme) == r@,
        decreases count_char(r@, '`'), if done { 0int } else { 1int },
    {
        match find_char(r.as_slice(), '`', 0) {
            None => {
                done = true;
            },
            Some(s) => match find_char(r.as_slice(), '`', s + 1) {
                None => {
                    done = true;
                },
                Some(e) => {
                    proof {
                        lemma_code_step(r@, s as int, e as int, *theme);
                    }
                    let mut next = slice_chars(r.as_slice(), 0, s);
                    let inner = slice_chars(r.as_slice(), s + 1, e);
                    paint_into(&mut next, inner.as_slice(), theme.inline_code, theme.no_color);
                    let tail = slice_chars(r.as_slice(), e + 1, r.len());
                    append_chars(&mut next, tail.as_slice());
                    assert(next@ =~= splice(r@, s as int, e + 1, paint(r@.subrange(s + 1, e as int), theme.inline_code, theme.no_color)));
                    r = next;
                },
            },
        }
    }
    r
}

/// Runs the bold pass.
fn run_bold_pass(text: Vec<char>, theme: &Theme) -> (r: Vec<char>)
    ensures
        r@ == bold_pass(text@, *theme),
{
    let pat = vec!['*', '*'];
    assert(pat@ =~= seq!['*', '*']);
    let mut r = text;
    let mut done = false;
    while !done
        invariant
            pat@ == seq!['*', '*'],
            bold_pass(r@, *theme) == bold_pass(text@, *theme),
            done ==> bold_pass(r@, *theme) == r@,
        decreases count_char(r@, '*'), if done { 0int } else { 1int },
    {
        match find_chars(r.as_slice(), pat.as_slice(), 0) {
            None => {
                done = true;
            },
            Some(s) => {
                proof {
                    lemma_find_pair(r@, '*', '*', 0);
                }
                match find_chars(r.as_slice(), pat.as_slice(), s + 2) {
                    None => {
                        done = true;
                    },
                    Some(e) => {
                        proof {
                            lemma_bold_step(r@, s as int, e as int, *theme);
                        }
                        let mut next = slice_chars(r.as_slice(), 0, s);
                        let inner = slice_chars(r.as_slice(), s + 2, e);
                        paint_style_into(&mut next, inner.as_slice(), Style::Bold, theme.no_color);
                        let tail = slice_chars(r.as_slice(), e + 2, r.len());
                        append_chars(&mut next, tail.as_slice());
                        assert(next@ =~= splice(r@, s as int, e + 2, paint_style(r@.subrange(s + 2, e as int), Style::Bold, theme.no_color)));
                        r = next;
                    },
                }
            },
        }
    }
    r
}

/// The position `italic_open(r, 0)` names.
fn find_italic_open(r: &[char]) -> (o: Option<usize>)
    ensures
        match o {
            Some(s) => italic_open(r@, 0) == Some(s as nat),
            None => italic_open(r@, 0) is None,
        },
{
    let mut p: usize = 0;
    loop
        invariant
            p <= r.len(),
            italic_open(r@, p as nat) == italic_open(r@, 0),
        decreases r.len() - p,
    {
        match find_char(r, '*', p) {
            None => {
                return None;
            },
            Some(s) => {
                proof {
                    lemma_find_char(r@, '*', p as nat);
                }
                if s + 1 < r.len() && r[s + 1] == '*' {
                    p = s + 2;
                } else {
                    return Some(s);
                }
            },
        }
    }
}

/// Runs the italic pass.
fn run_italic_pass(text: Vec<char>, theme: &Theme) -> (r: Vec<char>)
    ensures
        r@ == italic_pass(text@, *theme),
{
    let mut r = text;
    let mut done = false;
    while !done
        invariant
            italic_pass(r@, *theme) == italic_pass(text@, *theme),
            done ==> italic_pass(r@, *theme) == r@,
        decreases count_char(r@, '*'), if done { 0int } else { 1int },
    {
        match find_italic_open(r.as_slice()) {
            None => {
                done = true;
            },
            Some(s) => {
                proof {
                    lemma_italic_open(r@, 0);
                }
                assert(s < r.len());
                match find_char(r.as_slice(), '*', s + 1) {
                    None => {
                        done = true;
                    },
                    Some(e) => {
                        proof {
                            lemma_italic_step(r@, s as int, e as int, *theme);
                        }
                        let mut next = slice_chars(r.as_slice(), 0, s);
                        let inner = slice_chars(r.as_slice(), s + 1, e);
                        paint_style_into(&mut next, inner.as_slice(), Style::Italic, theme.no_color);
                        let tail = slice_chars(r.as_slice(), e + 1, r.len());
                        append_chars(&mut next, tail.as_slice());
                        assert(next@ =~= splice(r@, s as int, e + 1, paint_style(r@.subrange(s + 1, e as int), Style::Italic, theme.no_color)));
                        r = next;
                    },
                }
            },
        }
    }
    r
}

/// The position `link_open(r, 0)` names.
fn find_link_open(r: &[char]) -> (o: Option<usize>)
    ensures
        match o {
            Some(s) => link_open(r@, 0) == Some(s as nat),
            None => link_open(r@, 0) is None,
        },
{
    let mut p: usize = 0;
    loop
        invariant
            p <= r.len(),
            link_open(r@, p as nat) == link_open(r@, 0),
        decreases r.len() - p,
    {
        match find_char(r, '[', p) {
            None => {
                return None;
            },
            Some(s) => {
                proof {
                    lemma_find_char(r@, '[', p as nat);
                }
                if s > 0 && r[s - 1] == '\x1b' {
                    p = s + 1;
                } else {
                    return Some(s);
                }
            },
        }
    }
}

/// Runs the link pass.
fn run_link_pass(text: Vec<char>, theme: &Theme) -> (r: Vec<char>)
    ensures
        r@ == link_pass(text@, *theme),
{
    let pat = vec![']', '('];
    assert(pat@ =~= seq![']', '(']);
    let mut r = text;
    let mut done = false;
    while !done
        invariant
            pat@ == seq![']', '('],
            link_pass(r@, *theme) == link_pass(text@, *theme),
            done ==> link_pass(r@, *theme) == r@,
        decreases count_char(r@, ']'), if done { 0int } else { 1int },
    {
        match find_link_open(r.as_slice()) {
            None => {
                done = true;
            },
            Some(s) => match find_chars(r.as_slice(), pat.as_slice(), s) {
                None => {
                    done = true;
                },
                Some(m) => {
                    proof {
                        lemma_find_pair(r@, ']', '(', s as nat);
                    }
                    match find_char(r.as_slice(), ')', m + 2) {
                        None => {
                            done = true;
                        },
                        Some(e) => {
                            proof {
                                lemma_link_open(r@, 0);
                                lemma_link_step(r@, s as int, m as int, e as int, *theme);
                            }
                            let head = slice_chars(r.as_slice(), 0, s);
                            let t = slice_chars(r.as_slice(), s + 1, m);
                            let u = slice_chars(r.as_slice(), m + 2, e);
                            let mut mid: Vec<char> = Vec::new();
                            paint_into(&mut mid, t.as_slice(), theme.link, theme.no_color);
                            mid.push(' ');
                            mid.push('(');
                            paint_into(&mut mid, u.as_slice(), theme.link, theme.no_color);
                            mid.push(')');
                            assert(mid@ =~= link_text(t@, u@, *theme));
                            let tail = slice_chars(r.as_slice(), e + 1, r.len());
                            let mut next = head;
                            append_chars(&mut next, mid.as_slice());
                            append_chars(&mut next, tail.as_slice());
                            proof {
                                lemma_link_unfold(r@, s as int, m as int, e as int, *theme);
                                assert(next@ =~= splice(r@, s as int, e + 1, link_text(t@, u@, *theme)));
                            }
                            r = next;
                        },
                    }
                },
            },
        }
    }
    r
}

/// Inline rendering on characters (see `inline_render`).
pub fn render_inline_chars(text: &[char], theme: &Theme) -> (r: Vec<char>)
    ensures
        r@ == inline_render(text@, *theme),
{
    let r = slice_chars(text, 0, text.len());
    assert(r@ =~= text@);
    let r = run_code_pass(r, theme);
    let r = run_bold_pass(r, theme);
    let r = run_italic_pass(r, theme);
    run_link_pass(r, theme)
}

/// Render inline markdown elements (bold, italic, code, links).
pub fn render_inline(text: &str, theme: &Theme) -> (r: String)
    ensures
        r@ == inline_render(text@, *theme),
{
    let t = chars_of(text);
    let r = render_inline_chars(t.as_slice(), theme);
    string_of(r.as_slice())
}

} // verus!
