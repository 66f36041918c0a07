//! The testers' own state and decisions: keys, the PTY tester's settings,
//! when a screen counts as settled and when waiting for text gives up.

use vstd::prelude::*;
use crate::command::Command;

verus! {

/// A modifier held while a key is pressed.
#[derive(Debug, Clone, Copy, PartialEq, Eq)]
pub enum Modifier {
    Ctrl,
    Alt,
    Shift,
    Super,
}

/// A key, or key combination, sent to a terminal application.
#[derive(Debug, PartialEq, Eq)]
pub enum Key {
    Char(char),
    Enter,
    Esc,
    Tab,
    Backspace,
    Up,
    Down,
    Left,
    Right,
    Home,
    End,
    PageUp,
    PageDown,
    Ctrl(char),
    Alt(char),
    Shift(char),
    F(u8),
    Delete,
    Insert,
    /// A key with a modifier applied.
    Modified { key: Box<Key>, modifier: Modifier },
}

/// A copy of `k`.
fn copy_key(k: &Key) -> (c: Key)
    ensures
        c == *k,
    decreases k,
{
    match k {
        Key::Char(c) => Key::Char(*c),
        Key::Enter => Key::Enter,
        Key::Esc => Key::Esc,
        Key::Tab => Key::Tab,
        Key::Backspace => Key::Backspace,
        Key::Up => Key::Up,
        Key::Down => Key::Down,
        Key::Left => Key::Left,
        Key::Right => Key::Right,
        Key::Home => Key::Home,
        Key::End => Key::End,
        Key::PageUp => Key::PageUp,
        Key::PageDown => Key::PageDown,
        Key::Ctrl(c) => Key::Ctrl(*c),
        Key::Alt(c) => Key::Alt(*c),
        Key::Shift(c) => Key::Shift(*c),
        Key::F(n) => Key::F(*n),
        Key::Delete => Key::Delete,
        Key::Insert => Key::Insert,
        Key::Modified { key, modifier } => Key::Modified {
            key: Box::new(copy_key(&**key)),
            modifier: *modifier,
        },
    }
}

impl Clone for Key {
    fn clone(&self) -> (k: Self)
        ensures
            k == *self,
    {
        copy_key(self)
    }
}

impl Key {
    /// This key with `modifier` held.
    pub fn with_modifier(self, modifier: Modifier) -> (k: Self)
        ensures
            k == (Key::Modified { key: Box::new(self), modifier }),
    {
        Key::Modified { key: Box::new(self), modifier }
    }
}

/// Runs commands as plain subprocesses.
#[derive(Debug)]
pub struct CmdTester;

impl CmdTester {
    pub fn new() -> (t: Self) {
        CmdTester
    }
}

/// Runs commands in a pseudo-terminal of its own, without tmux.
#[derive(Debug, Clone, Copy)]
pub struct PtyTester {
    rows: u16,
    cols: u16,
    settle_timeout_ms: u64,
}

impl PtyTester {
    pub closed spec fn spec_size(&self) -> (u16, u16) {
        (self.rows, self.cols)
    }

    pub closed spec fn spec_settle_timeout(&self) -> u64 {
        self.settle_timeout_ms
    }

    /// A tester with a 24 by 80 terminal that waits 100 ms for output to settle.
    pub fn new() -> (t: Self)
        ensures
            t.spec_size() == (24u16, 80u16),
            t.spec_settle_timeout() == 100,
    {
        PtyTester { rows: 24, cols: 80, settle_timeout_ms: 100 }
    }

    /// Sets the terminal size.
    pub fn terminal_size(self, rows: u16, cols: u16) -> (t: Self)
        ensures
            t.spec_size() == (rows, cols),
            t.spec_settle_timeout() == self.spec_settle_timeout(),
    {
        PtyTester { rows, cols, ..self }
    }

    /// Sets how long output must stay unchanged to count as settled.
    pub fn settle_timeout(self, ms: u64) -> (t: Self)
        ensures
            t.spec_size() == self.spec_size(),
            t.spec_settle_timeout() == ms,
    {
        PtyTester { settle_timeout_ms: ms, ..self }
    }

    /// The settle timeout in milliseconds.
    pub fn settle_timeout_ms(&self) -> (ms: u64)
        ensures
            ms == self.spec_settle_timeout(),
    {
        self.settle_timeout_ms
    }

    /// The terminal size a command runs in: the command's own size when it
    /// differs from the 24 by 80 default, else the tester's.
    pub fn pty_size_for(&self, cmd: &Command) -> (s: (u16, u16))
        ensures
            s == (if cmd@.pty_size != (24u16, 80u16) {
                cmd@.pty_size
            } else {
                self.spec_size()
            }),
    {
        let (r, c) = cmd.get_pty_size();
        if r != 24 || c != 80 {
            (r, c)
        } else {
            (self.rows, self.cols)
        }
    }
}

/// How often a waiting tester looks at the screen again, in milliseconds.
pub const CHECK_INTERVAL_MS: u64 = 16;

/// How long a tester waits at most for output to settle, in milliseconds.
pub const MAX_SETTLE_WAIT_MS: u64 = 5000;

/// What a tester waiting for the screen to settle does next.
#[derive(Debug, Clone, Copy, PartialEq, Eq)]
pub enum SettleStep {
    /// The screen stayed unchanged long enough.
    Settled,
    /// The longest wait is over.
    GaveUp,
    /// Look again after another interval.
    Wait,
}

/// Waiting for the screen to settle: how long it has stayed unchanged, how
/// long it must, and how long to wait at most.
#[derive(Debug, Clone, Copy)]
pub struct SettleTracker {
    stable_ms: u64,
    timeout_ms: u64,
    max_wait_ms: u64,
}

impl SettleTracker {
    pub closed spec fn spec_stable_ms(&self) -> u64 {
        self.stable_ms
    }

    pub closed spec fn spec_timeout_ms(&self) -> u64 {
        self.timeout_ms
    }

    pub closed spec fn spec_max_wait_ms(&self) -> u64 {
        self.max_wait_ms
    }

    /// A wait that has seen no stable screen yet.
    pub fn new(timeout_ms: u64, max_wait_ms: u64) -> (t: Self)
        ensures
            t.spec_stable_ms() == 0,
            t.spec_timeout_ms() == timeout_ms,
            t.spec_max_wait_ms() == max_wait_ms,
    {
        SettleTracker { stable_ms: 0, timeout_ms, max_wait_ms }
    }

    /// How long the screen has stayed unchanged, in milliseconds.
    pub fn stable_ms(&self) -> (ms: u64)
        ensures
            ms == self.spec_stable_ms(),
    {
        self.stable_ms
    }

    /// Takes one look at the screen, one interval after the last: whether it
    /// changed since then and how long the wait has lasted. An unchanged
    /// screen adds an interval to the stable time and settles once that
    /// reaches the timeout; a changed one starts the stable time over. A wait
    /// that has not settled gives up once it has lasted the longest wait.
    pub fn observe(&mut self, changed: bool, elapsed_ms: u64) -> (step: SettleStep)
        ensures
            final(self).spec_timeout_ms() == old(self).spec_timeout_ms(),
            final(self).spec_max_wait_ms() == old(self).spec_max_wait_ms(),
            final(self).spec_stable_ms() == (if changed {
                0
            } else {
                old(self).spec_stable_ms().saturating_add(CHECK_INTERVAL_MS)
            }),
            step == (if !changed && final(self).spec_stable_ms() >= old(self).spec_timeout_ms() {
                SettleStep::Settled
            } else if elapsed_ms >= old(self).spec_max_wait_ms() {
                SettleStep::GaveUp
            } else {
                SettleStep::Wait
            }),
    {
        if !changed {
            self.stable_ms = self.stable_ms.saturating_add(CHECK_INTERVAL_MS);
            if self.stable_ms >= self.timeout_ms {
                return SettleStep::Settled;
            }
        } else {
            self.stable_ms = 0;
        }
        if elapsed_ms >= self.max_wait_ms {
            SettleStep::GaveUp
        } else {
            SettleStep::Wait
        }
    }
}

/// What a tester waiting for a text to appear does next.
#[derive(Debug, Clone, Copy, PartialEq, Eq)]
pub enum TextWait {
    /// The text is on the screen.
    Found,
    /// The wait lasted longer than its timeout: the text never came.
    TimedOut,
    /// Look again after another interval.
    Poll,
}

/// The next step of waiting for a text: done once it is on the screen,
/// failed once the wait has lasted longer than `timeout_ms`.
pub fn text_wait_step(found: bool, elapsed_ms: u64, timeout_ms: u64) -> (w: TextWait)
    ensures
        w == (if found {
            TextWait::Found
        } else if elapsed_ms > timeout_ms {
            TextWait::TimedOut
        } else {
            TextWait::Poll
        }),
{
    if found {
        TextWait::Found
    } else if elapsed_ms > timeout_ms {
        TextWait::TimedOut
    } else {
        TextWait::Poll
    }
}

/// `std::io::Error`, carried by [`PtyError`] and opaque to the proofs.
#[verifier::external_type_specification]
#[verifier::external_body]
pub struct ExIoError(std::io::Error);

/// Why reading from or writing to a pseudo-terminal failed.
#[derive(Debug)]
pub enum PtyError {
    Io(std::io::Error),
    Lock(String),
    Pty(String),
}

impl From<std::io::Error> for PtyError {
    fn from(e: std::io::Error) -> (p: Self) {
        PtyError::Io(e)
    }
}

impl vstd::std_specs::convert::FromSpecImpl<std::io::Error> for PtyError {
    open spec fn obeys_from_spec() -> bool {
        true
    }

    open spec fn from_spec(e: std::io::Error) -> PtyError {
        PtyError::Io(e)
    }
}

} // verus!
