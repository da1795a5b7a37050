use kernel_core::console::framebuffer::Framebuffer;
use kernel_core::console::Console;
use kernel_core::exec::frame_stack::{FrameStack, StdioBinding};
use kernel_core::platform::uart::UartTranscript;
use kernel_core::shell::builtins::builtin_error;
use kernel_core::shell::syntax::Redirection;
use kernel_core::shell::{bind_redirect, redirect_target, report_line, script_file_lines, script_lines, MAX_SCRIPT_DEPTH};

#[test]
fn a_script_is_split_into_lines_as_str_lines_does() {
    let content = "echo a\r\n\n# c\ncd /\r\nlast";
    let lines = script_lines(content, 0).unwrap();
    let want: Vec<String> = content.lines().map(|l| l.to_string()).collect();
    assert_eq!(lines, want);
    assert_eq!(script_lines("x\n", 3).unwrap(), vec!["x".to_string()]);
    assert_eq!(script_lines("", 3).unwrap(), Vec::<String>::new());
    assert_eq!(script_lines("a\r", 0).unwrap(), "a\r".lines().map(|l| l.to_string()).collect::<Vec<_>>());
}

#[test]
fn scripts_nest_only_so_deep() {
    assert!(script_lines("x", MAX_SCRIPT_DEPTH - 1).is_ok());
    assert_eq!(script_lines("x", MAX_SCRIPT_DEPTH), Err("too many levels of scripts".to_string()));
}

#[test]
fn redirections_bind_left_to_right() {
    let mut frames = FrameStack::new();
    let out = Redirection::Out { fd: 1, path: "f".to_string(), append: true };
    assert_eq!(redirect_target(&out), Some(("f", true, true)));
    bind_redirect(&mut frames, &out, 7);
    let dup = Redirection::Dup { fd: 2, target: 1 };
    assert_eq!(redirect_target(&dup), None);
    bind_redirect(&mut frames, &dup, 0);
    assert_eq!(frames.top().stdio, [StdioBinding::Default, StdioBinding::File(7), StdioBinding::File(7)]);

    let mut frames = FrameStack::new();
    bind_redirect(&mut frames, &dup, 0);
    bind_redirect(&mut frames, &out, 7);
    assert_eq!(frames.top().stdio, [StdioBinding::Default, StdioBinding::File(7), StdioBinding::Default]);

    let input = Redirection::In("in.txt".to_string());
    assert_eq!(redirect_target(&input), Some(("in.txt", false, false)));
    bind_redirect(&mut frames, &input, 3);
    assert_eq!(frames.top().stdio[0], StdioBinding::File(3));
}

#[test]
fn a_reported_line_goes_to_both_terminals_on_a_line_of_its_own() {
    let mut console = Console::new(Framebuffer { width: 800, height: 160, stride: 800 });
    let mut uart = UartTranscript::new();
    uart.uart_write(b"> ls");
    console.write_char('>', 0, 0);
    report_line(&mut console, &mut uart, "ls: command not found");
    assert_eq!(uart.take_bytes(), b"> ls\r\nls: command not found\r\n".to_vec());
    assert!(uart.uart_at_line_start());
    assert_eq!(console.cursor(), (2, 0));
}

#[test]
fn a_builtin_names_itself_and_its_operand() {
    assert_eq!(builtin_error("cd", "nowhere", "No such file or directory"), "cd: nowhere: No such file or directory");
}

#[test]
fn a_final_line_ending_changes_no_line() {
    for text in ["echo a\ncd /", "x", "a\r\nb"] {
        let bare = script_lines(text, 0).unwrap();
        assert_eq!(script_lines(&format!("{}\n", text), 0).unwrap(), bare);
        assert_eq!(script_lines(&format!("{}\r\n", text), 0).unwrap(), bare);
    }
}

#[test]
fn a_script_file_must_be_a_file_of_text() {
    assert_eq!(script_file_lines(true, b"", 0), Err("Is a directory".to_string()));
    assert_eq!(script_file_lines(false, &[b'a', 0xff], 0), Err("not valid UTF-8".to_string()));
    assert_eq!(script_file_lines(false, b"echo a\ncd /\n", 0), Ok(vec!["echo a".to_string(), "cd /".to_string()]));
    assert_eq!(script_file_lines(false, b"x", MAX_SCRIPT_DEPTH), Err("too many levels of scripts".to_string()));
}
