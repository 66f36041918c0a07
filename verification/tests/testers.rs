use test_descriptors::command::{Command, CommandResult};
use test_descriptors::testers::{
    text_wait_step, CmdTester, Key, Modifier, PtyError, PtyTester, SettleStep, SettleTracker,
    TextWait, CHECK_INTERVAL_MS, MAX_SETTLE_WAIT_MS,
};

#[test]
fn keys_with_modifiers() {
    let k = Key::Char('a').with_modifier(Modifier::Ctrl);
    assert_eq!(k, Key::Modified { key: Box::new(Key::Char('a')), modifier: Modifier::Ctrl });
    let kk = k.clone().with_modifier(Modifier::Shift);
    assert_eq!(kk.clone(), kk);
    assert_ne!(Key::F(1), Key::F(2));
}

#[test]
fn pty_tester_settings() {
    let t = PtyTester::new();
    assert_eq!(t.settle_timeout_ms(), 100);
    assert_eq!(t.pty_size_for(&Command::new("x")), (24, 80));
    let t = t.terminal_size(40, 120).settle_timeout(250);
    assert_eq!(t.settle_timeout_ms(), 250);
    assert_eq!(t.pty_size_for(&Command::new("x")), (40, 120));
    assert_eq!(t.pty_size_for(&Command::new("x").pty_size(10, 20)), (10, 20));
    assert_eq!(t.pty_size_for(&Command::new("x").pty_size(24, 100)), (24, 100));
    let _ = CmdTester::new();
}

#[test]
fn settling_needs_the_timeout_of_unchanged_screens() {
    let mut t = SettleTracker::new(40, MAX_SETTLE_WAIT_MS);
    assert_eq!(t.observe(true, 16), SettleStep::Wait);
    assert_eq!(t.stable_ms(), 0);
    assert_eq!(t.observe(false, 32), SettleStep::Wait);
    assert_eq!(t.stable_ms(), CHECK_INTERVAL_MS);
    assert_eq!(t.observe(false, 48), SettleStep::Wait);
    assert_eq!(t.observe(true, 64), SettleStep::Wait);
    assert_eq!(t.stable_ms(), 0);
    assert_eq!(t.observe(false, 80), SettleStep::Wait);
    assert_eq!(t.observe(false, 96), SettleStep::Wait);
    assert_eq!(t.observe(false, 112), SettleStep::Settled);
    assert_eq!(t.stable_ms(), 48);
}

#[test]
fn settling_gives_up_after_the_longest_wait() {
    let mut t = SettleTracker::new(100, 50);
    assert_eq!(t.observe(true, 16), SettleStep::Wait);
    assert_eq!(t.observe(true, 50), SettleStep::GaveUp);
    let mut t = SettleTracker::new(16, 0);
    // a screen that settles on this look settles, even past the longest wait
    assert_eq!(t.observe(false, 999), SettleStep::Settled);
}

#[test]
fn waiting_for_text() {
    assert_eq!(text_wait_step(true, 10_000, 5), TextWait::Found);
    assert_eq!(text_wait_step(false, 5, 5), TextWait::Poll);
    assert_eq!(text_wait_step(false, 6, 5), TextWait::TimedOut);
}

#[test]
fn pty_errors_from_io() {
    let e: PtyError = std::io::Error::new(std::io::ErrorKind::Other, "x").into();
    assert!(matches!(e, PtyError::Io(_)));
    let l = PtyError::Lock("poisoned".to_string());
    assert!(format!("{:?}", l).contains("poisoned"));
}

#[test]
fn command_results() {
    let r = CommandResult::new("o".to_string(), "e".to_string(), 0);
    assert!(r.success);
    let r = CommandResult::exited("o".to_string(), String::new(), Some(3));
    assert_eq!((r.exit_code, r.success), (3, false));
    let r = CommandResult::exited(String::new(), String::new(), None);
    assert_eq!((r.exit_code, r.success), (-1, false));
    let r = CommandResult::exited(String::new(), String::new(), Some(0));
    assert!(r.success);
    let r = CommandResult::failed("Failed to execute command", "No such file");
    assert_eq!(r.stderr, "Failed to execute command: No such file");
    assert_eq!((r.stdout.as_str(), r.exit_code, r.success), ("", -1, false));
}
