use test_descriptors::error::CreateError;
use test_descriptors::queries::{
    client_list_session, commit_count, current_session, has_unpushed, nonblank_lines,
    session_names, upstream_ref, window_names, ShellCheckError, ShellOutput,
};

#[test]
fn nonblank_lines_are_trimmed_and_kept_in_order() {
    assert_eq!(nonblank_lines("  main\n\n feature/x \r\n   \n"), vec!["main", "feature/x"]);
    assert!(nonblank_lines("").is_empty());
    assert!(nonblank_lines("\n \n\t\n").is_empty());
}

#[test]
fn window_names_from_tmux() {
    assert_eq!(window_names(Ok("editor\nshell\n".to_string())), vec!["editor", "shell"]);
    assert!(window_names(Err(CreateError::TmuxError("no server".to_string()))).is_empty());
}

#[test]
fn session_names_keep_every_line() {
    assert_eq!(session_names(Ok("a\n b\n\nc".to_string())), vec!["a", " b", "", "c"]);
    assert!(session_names(Err(CreateError::TmuxError("x".to_string()))).is_empty());
}

#[test]
fn current_session_from_client_list() {
    assert_eq!(
        current_session(Ok("/dev/pts/3:work\n/dev/pts/4:other\n".to_string()), "start"),
        "work"
    );
    assert_eq!(current_session(Ok("no colon\n/dev/pts/1:a:b\n".to_string()), "s"), "a:b");
    assert_eq!(current_session(Ok("".to_string()), "start"), "start");
    assert_eq!(current_session(Err(CreateError::TmuxError("x".to_string())), "start"), "start");
    assert_eq!(client_list_session("tty:"), Some(String::new()));
    assert_eq!(client_list_session("none here"), None);
}

#[test]
fn commit_count_reads_a_number_or_zero() {
    assert_eq!(commit_count("12\n"), 12);
    assert_eq!(commit_count("  3 "), 3);
    assert_eq!(commit_count("fatal: bad revision"), 0);
    assert_eq!(commit_count(""), 0);
}

#[test]
fn upstream_names_and_unpushed_commits() {
    assert_eq!(upstream_ref("main"), "main@{upstream}");
    assert!(has_unpushed(false, ""));
    assert!(has_unpushed(true, "abc123 message\n"));
    assert!(!has_unpushed(true, ""));
}

fn output(stdout: &str, stderr: &str, status: Option<i32>) -> ShellOutput {
    ShellOutput { stdout: stdout.to_string(), stderr: stderr.to_string(), status }
}

#[test]
fn shell_output_success_checks() {
    let ok = output("hello world\n", "", Some(0));
    assert!(ok.success());
    assert_eq!(ok.exit_code(), Some(0));
    assert!(ok.assert_success().is_ok());
    assert!(matches!(ok.assert_failure(), Err(ShellCheckError::Succeeded)));
    let failed = output("", "bad\n", Some(2));
    assert!(!failed.success());
    assert!(matches!(failed.assert_success(), Err(ShellCheckError::Failed { code: Some(2) })));
    assert!(failed.assert_failure().is_ok());
    let killed = output("", "", None);
    assert!(!killed.success());
    assert!(matches!(killed.assert_success(), Err(ShellCheckError::Failed { code: None })));
}

#[test]
fn shell_output_text_checks() {
    let o = output("hello world\n", "warning: x\n", Some(0));
    assert!(o.assert_stdout_contains("lo wo").is_ok());
    assert!(o.assert_stdout_contains("").is_ok());
    match o.assert_stdout_contains("bye") {
        Err(ShellCheckError::StdoutMissing { expected }) => assert_eq!(expected, "bye"),
        other => panic!("unexpected {:?}", other),
    }
    assert!(o.assert_stderr_contains("warning").is_ok());
    assert!(matches!(o.assert_stderr_contains("error"), Err(ShellCheckError::StderrMissing { .. })));
    assert!(o.assert_stdout_eq("hello world").is_ok());
    match o.assert_stdout_eq("hello") {
        Err(ShellCheckError::StdoutDiffers { expected, actual }) => {
            assert_eq!(expected, "hello");
            assert_eq!(actual, "hello world");
        }
        other => panic!("unexpected {:?}", other),
    }
    // the checks chain, as they return the output itself
    assert!(o.assert_success().and_then(|x| x.assert_stdout_contains("world")).is_ok());
}
