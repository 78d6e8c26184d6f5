//! Command lines for the isolated application.
use retheme_codex::command_line::{
    isolated_launch_arguments, quote_windows_argument, windows_command_line,
};

#[test]
fn quotes_msix_activation_arguments_using_windows_command_line_rules() {
    assert_eq!(quote_windows_argument("--no-first-run"), "--no-first-run");
    assert_eq!(
        quote_windows_argument("--user-data-dir=C:\\Users\\Test User\\profile"),
        "\"--user-data-dir=C:\\Users\\Test User\\profile\""
    );
    assert_eq!(quote_windows_argument(""), "\"\"");
    assert_eq!(quote_windows_argument("a\\\\\"b"), "\"a\\\\\\\\\\\"b\"");
    assert_eq!(
        quote_windows_argument("C:\\path with space\\"),
        "\"C:\\path with space\\\\\""
    );
}

#[test]
fn builds_msix_activation_command_line_with_isolated_profile() {
    let arguments = isolated_launch_arguments("C:\\Temp\\ReTheme Profile");
    let command_line = windows_command_line(&arguments);

    assert!(command_line.starts_with("\"--user-data-dir=C:\\Temp\\ReTheme Profile\" "));
    assert!(command_line.contains("--remote-debugging-address=127.0.0.1"));
    assert!(command_line.contains("--remote-debugging-port=0"));
    assert!(command_line.ends_with("--no-first-run"));
}

#[test]
fn a_command_line_without_arguments_is_empty() {
    assert_eq!(windows_command_line(&[]), "");
    assert_eq!(windows_command_line(&[String::new()]), "\"\"");
}

/// Reads a command line by the rules of the Windows C runtime.
fn read_back(line: &str) -> Vec<String> {
    let chars: Vec<char> = line.chars().collect();
    let mut arguments = Vec::new();
    let mut at = 0;
    while at < chars.len() {
        while at < chars.len() && (chars[at] == ' ' || chars[at] == '\t') {
            at += 1;
        }
        if at == chars.len() {
            break;
        }
        let mut argument = String::new();
        let mut quoted = false;
        while at < chars.len() && (quoted || (chars[at] != ' ' && chars[at] != '\t')) {
            let start = at;
            while at < chars.len() && chars[at] == '\\' {
                at += 1;
            }
            let backslashes = at - start;
            if at < chars.len() && chars[at] == '"' {
                argument.push_str(&"\\".repeat(backslashes / 2));
                if backslashes % 2 == 1 {
                    argument.push('"');
                } else {
                    quoted = !quoted;
                }
                at += 1;
            } else {
                argument.push_str(&"\\".repeat(backslashes));
                if backslashes == 0 {
                    argument.push(chars[at]);
                    at += 1;
                }
            }
        }
        arguments.push(argument);
    }
    arguments
}

#[test]
fn arguments_read_back_from_the_command_line() {
    let arguments: Vec<String> = [
        "plain",
        "",
        "with space",
        "tab\tinside",
        "trailing\\",
        "trailing space\\ \\",
        "\"",
        "a\\\\\"b\\c",
        "\\\\server\\share name\\",
    ]
    .iter()
    .map(|argument| argument.to_string())
    .collect();
    assert_eq!(read_back(&windows_command_line(&arguments)), arguments);
}

#[test]
fn launches_on_the_loopback_address_and_a_free_port() {
    assert_eq!(
        isolated_launch_arguments("/tmp/profile"),
        [
            "--user-data-dir=/tmp/profile",
            "--remote-debugging-address=127.0.0.1",
            "--remote-debugging-port=0",
            "--disable-background-timer-throttling",
            "--no-first-run",
        ]
    );
}
