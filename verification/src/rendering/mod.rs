//! Terminal rendering: ANSI colors, the color theme, and markdown rendering.
pub mod colors;
pub mod inline;
pub mod lines;
pub mod markdown;
pub mod renderer;
pub mod theme;
