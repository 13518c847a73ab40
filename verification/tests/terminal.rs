use cli_assistant::terminal::{
    capture_active, collect_blocks, find_output_by_index, strip_ansi, terminal_capture_file,
    TerminalBlock, TerminalRecorder,
};

fn block(command: &str, output: &str) -> TerminalBlock {
    TerminalBlock { command: command.to_string(), output: output.to_string() }
}

#[test]
fn recorder_separates_command_and_output() {
    let mut recorder = TerminalRecorder::new();
    let mut written = Vec::new();

    written.extend(recorder.handle(b"\x1b]prompt$ "));
    written.extend(recorder.handle(b"ls -l\r\n"));
    written.extend(recorder.handle(b"total 0\r\n"));
    written.extend(recorder.handle(b"\x1b]next prompt$ "));
    written.extend(recorder.write_json_block());

    let text = |b: &TerminalBlock| format!("{} {}", b.command, b.output);
    assert!(written.iter().any(|b| text(b).contains("ls -l")));
    assert!(written.iter().any(|b| text(b).contains("total 0")));
}

#[test]
fn find_output_uses_reverse_index() {
    let blocks = vec![block("first", "one"), block("second", "two")];

    assert_eq!(find_output_by_index(-1, &blocks), "two");
    assert_eq!(find_output_by_index(-2, &blocks), "one");
    assert_eq!(find_output_by_index(0, &blocks), "one");
    assert_eq!(find_output_by_index(2, &blocks), "");
    assert_eq!(find_output_by_index(-3, &blocks), "");
    assert_eq!(find_output_by_index(isize::MIN, &blocks), "");
}

#[test]
fn strip_ansi_removes_csi_and_osc_markers() {
    assert_eq!(strip_ansi("\x1b[31mred\x1b[0m"), "red");
    assert_eq!(strip_ansi("\x1b]0;title\x07body"), "body");
    assert_eq!(strip_ansi("plain text"), "plain text");
}

#[test]
fn strip_ansi_handles_other_and_unterminated_escapes() {
    assert_eq!(strip_ansi("a\x1b(Bb"), "ab");
    assert_eq!(strip_ansi("x\x1b[12"), "x");
}

#[test]
fn blocks_read_back_newest_first_without_exit() {
    let parsed = vec![
        block("ls", "\x1b[1mfile\x1b[0m"),
        block("exit", "exit  "),
        block("pwd", "/root"),
    ];
    let blocks = collect_blocks(&parsed);
    assert_eq!(blocks.len(), 2);
    assert_eq!(blocks[0].command, "pwd");
    assert_eq!(blocks[1].output, "file");
}

#[test]
fn capture_file_lives_in_the_state_directory() {
    assert_eq!(terminal_capture_file("/s/app"), "/s/app/terminal.log");
    assert!(capture_active(Some(true)));
    assert!(!capture_active(Some(false)));
    assert!(!capture_active(None));
}
