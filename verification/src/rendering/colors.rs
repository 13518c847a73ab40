//! ANSI color and style codes.
use vstd::prelude::*;
use crate::text::{append_chars, append_str, chars_of, count_char, lemma_count_absent, lemma_count_concat, string_of};

verus! {

/// ANSI color codes for terminal output.
#[derive(Clone, Copy, Debug, PartialEq, Eq, Structural)]
pub enum Color {
    Normal,
    Black,
    Red,
    Green,
    Yellow,
    Blue,
    Magenta,
    Cyan,
    White,
    BrightBlack,
    BrightRed,
    BrightGreen,
    BrightYellow,
    BrightBlue,
    BrightMagenta,
    BrightCyan,
    BrightWhite,
}

/// ANSI style codes.
#[derive(Clone, Copy, Debug, PartialEq, Eq, Structural)]
pub enum Style {
    Normal,
    Bold,
    Italic,
    Underline,
    Strikethrough,
}

/// The escape sequence `ESC [ <params> m`.
pub open spec fn sgr(params: Seq<char>) -> Seq<char> {
    seq!['\x1b', '['] + params + seq!['m']
}

/// The parameters of the escape sequence of a color.
pub open spec fn color_params(c: Color) -> Seq<char> {
    match c {
        Color::Normal => seq!['0'],
        Color::Black => seq!['3', '0'],
        Color::Red => seq!['3', '1'],
        Color::Green => seq!['3', '2'],
        Color::Yellow => seq!['3', '3'],
        Color::Blue => seq!['3', '4'],
        Color::Magenta => seq!['3', '5'],
        Color::Cyan => seq!['3', '6'],
        Color::White => seq!['3', '7'],
        Color::BrightBlack => seq!['9', '0'],
        Color::BrightRed => seq!['9', '1'],
        Color::BrightGreen => seq!['9', '2'],
        Color::BrightYellow => seq!['9', '3'],
        Color::BrightBlue => seq!['9', '4'],
        Color::BrightMagenta => seq!['9', '5'],
        Color::BrightCyan => seq!['9', '6'],
        Color::BrightWhite => seq!['9', '7'],
    }
}

/// The parameters of the escape sequence of a style.
pub open spec fn style_params(s: Style) -> Seq<char> {
    match s {
        Style::Normal => seq!['0'],
        Style::Bold => seq!['1'],
        Style::Italic => seq!['3'],
        Style::Underline => seq!['4'],
        Style::Strikethrough => seq!['9'],
    }
}

/// The escape sequence of a color.
pub open spec fn color_code(c: Color) -> Seq<char> {
    sgr(color_params(c))
}

/// The escape sequence of a style.
pub open spec fn style_code(s: Style) -> Seq<char> {
    sgr(style_params(s))
}

/// The escape sequence that resets all attributes.
pub open spec fn reset_code() -> Seq<char> {
    sgr(seq!['0'])
}

/// `text` wrapped in a color, unless colors are disabled.
#[verifier::opaque]
pub open spec fn paint(text: Seq<char>, c: Color, no_color: bool) -> Seq<char> {
    if no_color {
        text
    } else {
        color_code(c) + text + reset_code()
    }
}

/// `text` wrapped in a style, unless colors are disabled.
#[verifier::opaque]
pub open spec fn paint_style(text: Seq<char>, s: Style, no_color: bool) -> Seq<char> {
    if no_color {
        text
    } else {
        style_code(s) + text + reset_code()
    }
}

/// The characters an escape sequence of this module is made of.
pub open spec fn is_sgr_char(c: char) -> bool {
    c == '\x1b' || c == '[' || c == 'm' || ('0' <= c && c <= '9')
}

/// Every escape sequence of this module consists of escape-sequence characters.
pub proof fn lemma_codes_chars(c: Color, s: Style)
    ensures
        forall|i: int| 0 <= i < color_code(c).len() ==> is_sgr_char(#[trigger] color_code(c)[i]),
        forall|i: int| 0 <= i < style_code(s).len() ==> is_sgr_char(#[trigger] style_code(s)[i]),
        forall|i: int| 0 <= i < reset_code().len() ==> is_sgr_char(#[trigger] reset_code()[i]),
{
    assert(forall|i: int| 0 <= i < color_params(c).len() ==> is_sgr_char(#[trigger] color_params(c)[i]));
    assert(forall|i: int| 0 <= i < style_params(s).len() ==> is_sgr_char(#[trigger] style_params(s)[i]));
}

/// Painting adds no character other than escape-sequence characters.
pub proof fn lemma_paint_count(text: Seq<char>, c: Color, s: Style, no_color: bool, x: char)
    requires
        !is_sgr_char(x),
    ensures
        count_char(paint(text, c, no_color), x) == count_char(text, x),
        count_char(paint_style(text, s, no_color), x) == count_char(text, x),
{
    reveal(paint);
    reveal(paint_style);
    lemma_codes_chars(c, s);
    lemma_count_absent(color_code(c), x);
    lemma_count_absent(style_code(s), x);
    lemma_count_absent(reset_code(), x);
    lemma_count_concat(color_code(c), text, x);
    lemma_count_concat(color_code(c) + text, reset_code(), x);
    lemma_count_concat(style_code(s), text, x);
    lemma_count_concat(style_code(s) + text, reset_code(), x);
}

impl Color {
    /// ANSI escape code for this color.
    pub fn code(&self) -> (r: &'static str)
        ensures
            r@ == color_code(*self),
    {
        match self {
            Color::Normal => {
                proof { reveal_strlit("\x1b[0m"); }
                "\x1b[0m"
            },
            Color::Black => {
                proof { reveal_strlit("\x1b[30m"); }
                "\x1b[30m"
            },
            Color::Red => {
                proof { reveal_strlit("\x1b[31m"); }
                "\x1b[31m"
            },
            Color::Green => {
                proof { reveal_strlit("\x1b[32m"); }
                "\x1b[32m"
            },
            Color::Yellow => {
                proof { reveal_strlit("\x1b[33m"); }
                "\x1b[33m"
            },
            Color::Blue => {
                proof { reveal_strlit("\x1b[34m"); }
                "\x1b[34m"
            },
            Color::Magenta => {
                proof { reveal_strlit("\x1b[35m"); }
                "\x1b[35m"
            },
            Color::Cyan => {
                proof { reveal_strlit("\x1b[36m"); }
                "\x1b[36m"
            },
            Color::White => {
                proof { reveal_strlit("\x1b[37m"); }
                "\x1b[37m"
            },
            Color::BrightBlack => {
                proof { reveal_strlit("\x1b[90m"); }
                "\x1b[90m"
            },
            Color::BrightRed => {
                proof { reveal_strlit("\x1b[91m"); }
                "\x1b[91m"
            },
            Color::BrightGreen => {
                proof { reveal_strlit("\x1b[92m"); }
                "\x1b[92m"
            },
            Color::BrightYellow => {
                proof { reveal_strlit("\x1b[93m"); }
                "\x1b[93m"
            },
            Color::BrightBlue => {
                proof { reveal_strlit("\x1b[94m"); }
                "\x1b[94m"
            },
            Color::BrightMagenta => {
                proof { reveal_strlit("\x1b[95m"); }
                "\x1b[95m"
            },
            Color::BrightCyan => {
                proof { reveal_strlit("\x1b[96m"); }
                "\x1b[96m"
            },
            Color::BrightWhite => {
                proof { reveal_strlit("\x1b[97m"); }
                "\x1b[97m"
            },
        }
    }
}

impl Style {
    /// ANSI escape code for this style.
    pub fn code(&self) -> (r: &'static str)
        ensures
            r@ == style_code(*self),
    {
        match self {
            Style::Normal => {
                proof { reveal_strlit("\x1b[0m"); }
                "\x1b[0m"
            },
            Style::Bold => {
                proof { reveal_strlit("\x1b[1m"); }
                "\x1b[1m"
            },
            Style::Italic => {
                proof { reveal_strlit("\x1b[3m"); }
                "\x1b[3m"
            },
            Style::Underline => {
                proof { reveal_strlit("\x1b[4m"); }
                "\x1b[4m"
            },
            Style::Strikethrough => {
                proof { reveal_strlit("\x1b[9m"); }
                "\x1b[9m"
            },
        }
    }
}

/// Appends `text` wrapped in `color` to `out` (just `text` when colors are off).
pub fn paint_into(out: &mut Vec<char>, text: &[char], color: Color, no_color: bool)
    ensures
        final(out)@ == old(out)@ + paint(text@, color, no_color),
{
    reveal(paint);
    if no_color {
        append_chars(out, text);
    } else {
        append_str(out, color.code());
        append_chars(out, text);
        append_str(out, Color::Normal.code());
        assert(old(out)@ + color_code(color) + text@ + reset_code() =~= old(out)@ + paint(text@, color, no_color));
    }
}

/// Appends `text` wrapped in `style` to `out` (just `text` when colors are off).
pub fn paint_style_into(out: &mut Vec<char>, text: &[char], style: Style, no_color: bool)
    ensures
        final(out)@ == old(out)@ + paint_style(text@, style, no_color),
{
    reveal(paint_style);
    if no_color {
        append_chars(out, text);
    } else {
        append_str(out, style.code());
        append_chars(out, text);
        append_str(out, Color::Normal.code());
        assert(old(out)@ + style_code(style) + text@ + reset_code() =~= old(out)@ + paint_style(text@, style, no_color));
    }
}

/// Wrap text with ANSI color codes; `no_color` (the `NO_COLOR` setting) leaves it plain.
pub fn colorize(text: &str, color: Color, no_color: bool) -> (r: String)
    ensures
        r@ == paint(text@, color, no_color),
{
    let mut out: Vec<char> = Vec::new();
    let t = chars_of(text);
    paint_into(&mut out, t.as_slice(), color, no_color);
    assert(out@ =~= paint(text@, color, no_color));
    string_of(out.as_slice())
}

/// Wrap text with ANSI style codes; `no_color` (the `NO_COLOR` setting) leaves it plain.
pub fn stylize(text: &str, style: Style, no_color: bool) -> (r: String)
    ensures
        r@ == paint_style(text@, style, no_color),
{
    let mut out: Vec<char> = Vec::new();
    let t = chars_of(text);
    paint_style_into(&mut out, t.as_slice(), style, no_color);
    assert(out@ =~= paint_style(text@, style, no_color));
    string_of(out.as_slice())
}

} // verus!
