//! Terminal output with color and markdown: what each kind of message
//! prints, and where.
use vstd::prelude::*;
use super::colors::{colorize, paint, Color};
use super::markdown::{ansi_render, markdown_to_ansi};
use super::theme::Theme;
use crate::text::{append_str, chars_of, string_of, utf8_len};

verus! {

/// A piece of output: a line for standard output, a line for standard error,
/// or text for standard output without a line break.
#[derive(Clone, Debug)]
pub enum Printed {
    Stdout(String),
    Stderr(String),
    Inline(String),
}

/// Renders messages as plain or colored text.
#[derive(Clone, Copy, Debug)]
pub struct Renderer {
    pub plain: bool,
    pub theme: Theme,
}

/// `prefix` and then `message` painted in `color`, or `message` alone when
/// output is plain.
pub open spec fn decorated(plain: bool, prefix: Seq<char>, message: Seq<char>, color: Color, no_color: bool) -> Seq<char> {
    if plain {
        message
    } else {
        prefix + paint(message, color, no_color)
    }
}

impl Renderer {
    /// A renderer with the default theme; `no_color` reflects the `NO_COLOR`
    /// setting.
    pub fn new(plain: bool, no_color: bool) -> (r: Self)
        ensures
            r.plain == plain,
            r.theme == (Theme { no_color, ..Theme::spec_default() }),
    {
        let mut theme = Theme::default();
        theme.no_color = no_color;
        Renderer { plain, theme }
    }

    /// A normal message, on standard output.
    pub fn normal(&self, message: &str) -> (r: Printed)
        ensures
            r matches Printed::Stdout(s) && s@ == message@,
    {
        Printed::Stdout(message.to_owned())
    }

    /// A warning, on standard error: 🤔 and the message in the warning color.
    pub fn warning(&self, message: &str) -> (r: Printed)
        ensures
            r matches Printed::Stderr(s) && s@ == decorated(self.plain, "🤔 "@, message@, self.theme.warning, self.theme.no_color),
    {
        Printed::Stderr(self.decorate("🤔 ", message, self.theme.warning))
    }

    /// An error, on standard error: 🙁 and the message in the error color.
    pub fn error(&self, message: &str) -> (r: Printed)
        ensures
            r matches Printed::Stderr(s) && s@ == decorated(self.plain, "🙁 "@, message@, self.theme.error, self.theme.no_color),
    {
        Printed::Stderr(self.decorate("🙁 ", message, self.theme.error))
    }

    /// A notice, on standard output, in the notice color.
    pub fn notice(&self, message: &str) -> (r: Printed)
        ensures
            r matches Printed::Stdout(s) && s@ == decorated(self.plain, seq![], message@, self.theme.notice, self.theme.no_color),
    {
        proof {
            reveal_strlit("");
        }
        Printed::Stdout(self.decorate("", message, self.theme.notice))
    }

    /// An informational message, on standard output, in the info color.
    pub fn info(&self, message: &str) -> (r: Printed)
        ensures
            r matches Printed::Stdout(s) && s@ == decorated(self.plain, seq![], message@, self.theme.info, self.theme.no_color),
    {
        proof {
            reveal_strlit("");
        }
        Printed::Stdout(self.decorate("", message, self.theme.info))
    }

    /// Markdown rendered for the terminal (plain output keeps the text), on
    /// standard output without a trailing line break.
    pub fn markdown(&self, text: &str) -> (r: Printed)
        requires
            utf8_len(text@) <= isize::MAX,
        ensures
            r matches Printed::Inline(s) && s@ == ansi_render(text@, self.theme, self.plain),
    {
        Printed::Inline(markdown_to_ansi(text, &self.theme, self.plain))
    }

    /// The decorated message (see `decorated`).
    fn decorate(&self, prefix: &str, message: &str, color: Color) -> (r: String)
        ensures
            r@ == decorated(self.plain, prefix@, message@, color, self.theme.no_color),
    {
        if self.plain {
            return message.to_owned();
        }
        let mut out = chars_of(prefix);
        let painted = colorize(message, color, self.theme.no_color);
        append_str(&mut out, painted.as_str());
        string_of(out.as_slice())
    }
}

} // verus!
