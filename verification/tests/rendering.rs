use cli_assistant::rendering::colors::{colorize, stylize, Color, Style};
use cli_assistant::rendering::lines::{markdown_to_lines, TuiLine};
use cli_assistant::rendering::inline::render_inline;
use cli_assistant::rendering::markdown::{markdown_to_ansi, render_code_block, strip_ordered_list_prefix};
use cli_assistant::rendering::renderer::{Printed, Renderer};
use cli_assistant::rendering::theme::Theme;

fn line_text(line: &TuiLine) -> String {
    line.spans.iter().map(|s| s.content.as_str()).collect()
}

#[test]
fn plain_output_preserves_markdown_text() {
    let theme = Theme::default();
    let input = "# Title\n\n**bold** and `code`";
    assert_eq!(markdown_to_ansi(input, &theme, true), input);
}

#[test]
fn renders_common_markdown_blocks() {
    let theme = Theme::default();
    let input =
        "# Title\n- item\n> quote\n\n```rust\nfn main() {}\n```\n\n[link](https://example.com)";
    let output = markdown_to_ansi(input, &theme, false);

    assert!(output.contains("Title"));
    assert!(output.contains("• item"));
    assert!(output.contains("│ quote"));
    assert!(output.contains("┌"));
    assert!(output.contains("fn main() {}"));
    assert!(output.contains("https://example.com"));
}

#[test]
fn renders_inline_links_and_code() {
    let theme = Theme::default();
    let output = markdown_to_ansi(
        "`inline` and [docs](https://docs.example.com)",
        &theme,
        false,
    );

    assert!(output.contains("inline"));
    assert!(output.contains("docs"));
    assert!(output.contains("https://docs.example.com"));
}

#[test]
fn tui_lines_strip_markers_and_keep_styles() {
    let lines = markdown_to_lines("**bold** and `code`");
    assert_eq!(line_text(&lines[0]), "bold and code");
    assert!(lines[0].spans[0].style.bold);
}

#[test]
fn tui_lines_render_headers_bullets_and_code_blocks() {
    let lines = markdown_to_lines("# Title\n- item\n```sh\nls -la\n```");
    assert_eq!(lines.len(), 3);

    assert_eq!(line_text(&lines[0]), "Title");
    assert!(lines[0].spans[0].style.bold);

    assert_eq!(line_text(&lines[1]), "• item");

    assert_eq!(line_text(&lines[2]), "  ls -la");
}

#[test]
fn tui_lines_keep_unpaired_markers() {
    let lines = markdown_to_lines("2 ** 8 is a power");
    assert_eq!(line_text(&lines[0]), "2 ** 8 is a power");
}

#[test]
fn tui_code_lines_are_yellow_and_inline_code_too() {
    let lines = markdown_to_lines("run `ls`\n```\n  x\n```");
    assert_eq!(lines.len(), 2);
    assert_eq!(lines[0].spans[1].content, "ls");
    assert!(lines[0].spans[1].style.yellow);
    assert!(!lines[0].spans[1].style.bold);
    assert_eq!(lines[1].spans[0].content, "  x");
    assert!(lines[1].spans[0].style.yellow);
}

#[test]
fn color_and_style_codes_are_ansi_sequences() {
    assert_eq!(Color::Red.code(), "\x1b[31m");
    assert_eq!(Color::BrightBlue.code(), "\x1b[94m");
    assert_eq!(Style::Bold.code(), "\x1b[1m");
    assert_eq!(colorize("x", Color::Green, false), "\x1b[32mx\x1b[0m");
    assert_eq!(colorize("x", Color::Green, true), "x");
    assert_eq!(stylize("y", Style::Italic, false), "\x1b[3my\x1b[0m");
}

#[test]
fn ordered_list_prefix_is_stripped() {
    assert_eq!(strip_ordered_list_prefix("1. item").as_deref(), Some("item"));
    assert_eq!(strip_ordered_list_prefix("  12. item").as_deref(), Some("item"));
    assert_eq!(strip_ordered_list_prefix("12x. item"), None);
    assert_eq!(strip_ordered_list_prefix("a. b"), None);
    assert_eq!(strip_ordered_list_prefix(". b"), None);
    assert_eq!(strip_ordered_list_prefix("no list"), None);
}

#[test]
fn code_block_rows_share_one_width() {
    let theme = Theme { no_color: true, ..Theme::default() };
    let lines = vec!["a".to_string(), "bbb".to_string()];
    let out = render_code_block(&lines, "", &theme);
    let rows: Vec<&str> = out.lines().collect();
    assert_eq!(rows.len(), 4);
    let widths: Vec<usize> = rows.iter().map(|r| r.chars().count()).collect();
    assert!(widths.iter().all(|w| *w == widths[0]));
    assert_eq!(widths[0], 44);
}

#[test]
fn renderer_decorates_unless_plain() {
    let r = Renderer::new(false, false);
    match r.warning("careful") {
        Printed::Stderr(s) => assert_eq!(s, "🤔 \x1b[33mcareful\x1b[0m"),
        _ => panic!("a warning goes to standard error"),
    }
    let p = Renderer::new(true, false);
    match p.error("bad") {
        Printed::Stderr(s) => assert_eq!(s, "bad"),
        _ => panic!("an error goes to standard error"),
    }
    match p.markdown("**x**") {
        Printed::Inline(s) => assert_eq!(s, "**x**"),
        _ => panic!("markdown is printed inline"),
    }
}

#[test]
fn link_after_inline_code_is_rendered() {
    let theme = Theme::default();
    assert_eq!(
        render_inline("`a` [b](c)", &theme),
        "\x1b[36ma\x1b[0m \x1b[94mb\x1b[0m (\x1b[94mc\x1b[0m)"
    );
}

#[test]
fn unpaired_double_star_stays_literal() {
    let theme = Theme::default();
    assert_eq!(markdown_to_ansi("2 ** 8 is a power", &theme, false), "2 ** 8 is a power\n");
    assert_eq!(render_inline("a ** b *c*", &theme), "a ** b \x1b[3mc\x1b[0m");
}

#[test]
fn ordered_list_items_are_indented() {
    let theme = Theme::default();
    assert_eq!(markdown_to_ansi("1. item", &theme, false), "  item\n");
}
