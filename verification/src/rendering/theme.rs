//! Theme configuration for the renderer.
use vstd::prelude::*;
use super::colors::Color;

verus! {

/// Color theme for terminal rendering.
#[derive(Clone, Copy, Debug)]
pub struct Theme {
    pub info: Color,
    pub warning: Color,
    pub notice: Color,
    pub error: Color,
    pub inline_code: Color,
    pub code_block_line: Color,
    pub code_block_border: Color,
    pub header: Color,
    pub link: Color,
    pub horizontal_rule: Color,
    /// Colors are switched off (the `NO_COLOR` environment setting).
    pub no_color: bool,
}

impl Theme {
    /// The default theme with colors on.
    pub open spec fn spec_default() -> Theme {
        Theme {
            info: Color::BrightBlue,
            warning: Color::Yellow,
            notice: Color::BrightYellow,
            error: Color::Red,
            inline_code: Color::Cyan,
            code_block_line: Color::Cyan,
            code_block_border: Color::BrightRed,
            header: Color::Green,
            link: Color::BrightBlue,
            horizontal_rule: Color::BrightBlack,
            no_color: false,
        }
    }
}

impl Default for Theme {
    fn default() -> (t: Self)
        ensures
            t == Theme::spec_default(),
    {
        Theme {
            info: Color::BrightBlue,
            warning: Color::Yellow,
            notice: Color::BrightYellow,
            error: Color::Red,
            inline_code: Color::Cyan,
            code_block_line: Color::Cyan,
            code_block_border: Color::BrightRed,
            header: Color::Green,
            link: Color::BrightBlue,
            horizontal_rule: Color::BrightBlack,
            no_color: false,
        }
    }
}

} // verus!
