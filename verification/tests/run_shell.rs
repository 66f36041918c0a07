use test_descriptors::command::Command;
use test_descriptors::error::CreateError;
use test_descriptors::parse::{parse_i32, parse_usize};
use test_descriptors::run_shell::{
    join_strings, parse_run_shell_output, plan_run_shell, run_shell_result, run_shell_script,
    shell_quote, typed_command, RunShellPlan,
};

#[test]
fn script_for_a_plain_command() {
    let cmd = Command::new("echo").arg("it's");
    let s = run_shell_script(&cmd, "SEP", "EXIT");
    assert_eq!(
        s,
        r#"STDOUT_FILE=$(mktemp); STDERR_FILE=$(mktemp); 'echo' 'it'\''s' >"$STDOUT_FILE" 2>"$STDERR_FILE"; EXIT_CODE=$?; cat "$STDOUT_FILE"; printf '%s\n' 'SEP'; cat "$STDERR_FILE"; printf '%s%d\n' 'EXIT' "$EXIT_CODE"; rm -f "$STDOUT_FILE" "$STDERR_FILE""#
    );
}

#[test]
fn script_without_arguments_quotes_only_the_program() {
    let cmd = Command::new("pwd");
    let s = run_shell_script(&cmd, "S", "E");
    assert!(s.starts_with("STDOUT_FILE=$(mktemp); STDERR_FILE=$(mktemp); 'pwd' >\"$STDOUT_FILE\""));
}

#[test]
fn script_sets_up_environment_and_directory() {
    let cmd = Command::new("ls").env("A", "x'y").cwd("/tmp/it's");
    let s = run_shell_script(&cmd, "S", "E");
    assert!(s.starts_with(
        "STDOUT_FILE=$(mktemp); STDERR_FILE=$(mktemp); export A='x'\\''y'; cd '/tmp/it'\\''s'; 'ls' >"
    ));
}

#[test]
fn quoting_escapes_single_quotes() {
    assert_eq!(shell_quote("a'b"), "'a'\\''b'");
    assert_eq!(shell_quote(""), "''");
}

#[test]
fn joining_strings() {
    let parts = vec!["a".to_string(), "b".to_string(), "c".to_string()];
    assert_eq!(join_strings(&parts, "; "), "a; b; c");
    assert_eq!(join_strings(&Vec::new(), "; "), "");
    assert_eq!(join_strings(&vec!["x".to_string()], " "), "x");
}

#[test]
fn framed_output_is_split_into_streams_and_code() {
    let r = parse_run_shell_output("hello\n===S===\nwarn\n===E===0\n", "===S===", "===E===");
    assert_eq!(r.stdout, "hello");
    assert_eq!(r.stderr, "warn");
    assert_eq!(r.exit_code, 0);
    assert!(r.success);
}

#[test]
fn framed_output_with_failure_code() {
    let r = parse_run_shell_output("===S===\n\n\noops\n\n===E===  42 \n", "===S===", "===E===");
    assert_eq!(r.stdout, "");
    assert_eq!(r.stderr, "oops");
    assert_eq!(r.exit_code, 42);
    assert!(!r.success);
    let r = parse_run_shell_output("out===S===\n===E===-3\n", "===S===", "===E===");
    assert_eq!(r.stdout, "out");
    assert_eq!(r.exit_code, -3);
}

#[test]
fn framed_output_without_separator() {
    let r = parse_run_shell_output("just text\n\n", "===S===", "===E===");
    assert_eq!(r.stdout, "just text");
    assert_eq!(r.stderr, "");
    assert_eq!(r.exit_code, -1);
    assert!(!r.success);
}

#[test]
fn framed_output_without_exit_marker() {
    let r = parse_run_shell_output("a\n===S===\nrest\n", "===S===", "===E===");
    assert_eq!(r.stdout, "a");
    assert_eq!(r.stderr, "\nrest\n");
    assert_eq!(r.exit_code, -1);
}

#[test]
fn framed_output_with_unreadable_code() {
    let r = parse_run_shell_output("===S===\n===E===abc\n", "===S===", "===E===");
    assert_eq!(r.exit_code, -1);
    assert!(!r.success);
}

#[test]
fn reading_back_what_the_script_prints() {
    // out, separator line, err, exit marker with the code: as the script prints them
    for code in [0i32, 1, 127, -5, i32::MIN, i32::MAX] {
        let raw = format!("line1\nline2\n{}\n\nproblem\n{}{}\n", "=S=", "=E=", code);
        let r = parse_run_shell_output(&raw, "=S=", "=E=");
        assert_eq!(r.stdout, "line1\nline2");
        assert_eq!(r.stderr, "problem");
        assert_eq!(r.exit_code, code);
        assert_eq!(r.success, code == 0);
    }
}

#[test]
fn plan_uses_fresh_markers() {
    let cmd = Command::new("true");
    let p = plan_run_shell(&cmd);
    assert!(p.separator.starts_with("===SEP_") && p.separator.ends_with("==="));
    assert!(p.exit_marker.starts_with("===EXIT_") && p.exit_marker.ends_with("==="));
    assert_eq!(p.separator.len(), "===SEP_".len() + 32 + 3);
    assert_eq!(p.exit_marker.len(), "===EXIT_".len() + 32 + 3);
    assert_eq!(p.script, run_shell_script(&cmd, &p.separator, &p.exit_marker));
    let q = plan_run_shell(&cmd);
    assert_ne!(p.separator, q.separator);
}

#[test]
fn result_of_a_failed_tmux_call() {
    let plan = RunShellPlan {
        script: String::new(),
        separator: "S".to_string(),
        exit_marker: "E".to_string(),
    };
    let r = run_shell_result(&plan, Err(CreateError::TmuxError("boom".to_string())));
    assert_eq!(r.stdout, "");
    assert_eq!(r.stderr, "Failed to run command in tmux: Tmux error: boom");
    assert_eq!(r.exit_code, -1);
    assert!(!r.success);
    let ok = run_shell_result(&plan, Ok("o\nS\ne\nE7\n".to_string()));
    assert_eq!((ok.stdout.as_str(), ok.stderr.as_str(), ok.exit_code), ("o", "e", 7));
}

#[test]
fn typed_command_line() {
    let cmd = Command::new("git").args(&["log", "--oneline"]).env("K", "v").cwd("/work");
    assert_eq!(typed_command(&cmd), "export K='v'; cd '/work'; git log --oneline");
    assert_eq!(typed_command(&Command::new("ls")), "ls");
}

#[test]
fn parsing_integers_like_str_parse() {
    assert_eq!(parse_i32("42"), Some(42));
    assert_eq!(parse_i32("+7"), Some(7));
    assert_eq!(parse_i32("-2147483648"), Some(i32::MIN));
    assert_eq!(parse_i32("2147483647"), Some(i32::MAX));
    assert_eq!(parse_i32("2147483648"), None);
    assert_eq!(parse_i32("-2147483649"), None);
    assert_eq!(parse_i32(""), None);
    assert_eq!(parse_i32("-"), None);
    assert_eq!(parse_i32(" 1"), None);
    assert_eq!(parse_i32("1x"), None);
    for s in ["0", "-0", "+0", "0012", "99999999999", "-", "+", "", "1 ", "x", "-12"] {
        assert_eq!(parse_i32(s), s.parse::<i32>().ok(), "{:?}", s);
        assert_eq!(parse_usize(s), s.parse::<usize>().ok(), "{:?}", s);
    }
    assert_eq!(parse_usize("-0"), None);
    assert_eq!(parse_usize("18446744073709551615"), Some(usize::MAX));
}

/// Reads one shell word: single-quoted parts are literal, a backslash
/// escapes the next character; `None` when a special character is unprotected.
fn read_word(w: &str) -> Option<String> {
    let mut out = String::new();
    let mut quoted = false;
    let mut chars = w.chars();
    while let Some(c) = chars.next() {
        if quoted {
            if c == '\'' {
                quoted = false;
            } else {
                out.push(c);
            }
        } else if c == '\'' {
            quoted = true;
        } else if c == '\\' {
            out.push(chars.next()?);
        } else {
            return None;
        }
    }
    if quoted {
        None
    } else {
        Some(out)
    }
}

#[test]
fn quoted_words_read_back() {
    for s in ["", "plain", "it's", "''", "$HOME; rm -rf /", "a b\tc\nd", "\\'\\", "日本語"] {
        assert_eq!(read_word(&shell_quote(s)).as_deref(), Some(s), "{:?}", s);
    }
}
