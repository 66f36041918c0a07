//! What the query handles of a created environment read from the output of
//! git, tmux and shell commands, and the checks on a shell command's output.

use vstd::prelude::*;
use crate::error::CreateError;
use crate::parse::{parse_usize, parse_usize_spec};
use crate::text::{
    append_str, chars_of, contains, contains_spec, find_from, find_from_spec, lemma_find_from_bounds, lines, lines_spec,
    string_of_range, string_views, trim, trim_spec, law_trim_idempotent,
};

verus! {

/// The lines, each trimmed, without those left empty.
pub open spec fn nonblank_trimmed(ls: Seq<Seq<char>>) -> Seq<Seq<char>>
    decreases ls.len(),
{
    if ls.len() == 0 {
        Seq::empty()
    } else {
        let p = nonblank_trimmed(ls.drop_last());
        let t = trim_spec(ls.last());
        if t.len() == 0 {
            p
        } else {
            p.push(t)
        }
    }
}

/// The names read from output are each non-empty and already trimmed.
pub proof fn law_nonblank_names_are_trimmed(ls: Seq<Seq<char>>)
    ensures
        forall|i: int|
            0 <= i < nonblank_trimmed(ls).len() ==> (#[trigger] nonblank_trimmed(ls)[i]).len() > 0
                && trim_spec(nonblank_trimmed(ls)[i]) == nonblank_trimmed(ls)[i],
    decreases ls.len(),
{
    if ls.len() > 0 {
        law_nonblank_names_are_trimmed(ls.drop_last());
        law_trim_idempotent(ls.last());
        let p = nonblank_trimmed(ls.drop_last());
        let r = nonblank_trimmed(ls);
        assert forall|i: int| 0 <= i < r.len() implies (#[trigger] r[i]).len() > 0 && trim_spec(r[i])
            == r[i] by {
            if i < p.len() {
                assert(r[i] == p[i]);
            }
        }
    }
}

/// The trimmed, non-empty lines of a command's output (the names that
/// `git branch --format` and `tmux list-windows -F` print one per line).
pub fn nonblank_lines(output: &str) -> (r: Vec<String>)
    ensures
        string_views(r@) == nonblank_trimmed(lines_spec(output@)),
{
    let ls = lines(output);
    let ghost all = string_views(ls@);
    let mut r: Vec<String> = Vec::new();
    let mut i: usize = 0;
    while i < ls.len()
        invariant
            i <= ls@.len(),
            all == string_views(ls@),
            string_views(r@) == nonblank_trimmed(all.subrange(0, i as int)),
        decreases ls@.len() - i,
    {
        let t = trim(ls[i].as_str());
        assert(all.subrange(0, i + 1).drop_last() =~= all.subrange(0, i as int));
        assert(all.subrange(0, i + 1).last() == ls@[i as int]@);
        if t.as_str().unicode_len() > 0 {
            let ghost before = string_views(r@);
            let ghost tv = t@;
            r.push(t);
            assert(string_views(r@) =~= before.push(tv));
        }
        i = i + 1;
    }
    assert(all.subrange(0, ls@.len() as int) =~= all);
    r
}

/// The window names of a session, from what `tmux list-windows` printed;
/// none when tmux failed.
pub fn window_names(output: Result<String, CreateError>) -> (r: Vec<String>)
    ensures
        match output {
            Ok(o) => string_views(r@) == nonblank_trimmed(lines_spec(o@)),
            Err(_) => r@.len() == 0,
        },
{
    match output {
        Ok(o) => nonblank_lines(o.as_str()),
        Err(_) => Vec::new(),
    }
}

/// The session names of a tmux server, one per line of what
/// `tmux list-sessions` printed; none when tmux failed (no server yet).
pub fn session_names(output: Result<String, CreateError>) -> (r: Vec<String>)
    ensures
        match output {
            Ok(o) => string_views(r@) == lines_spec(o@),
            Err(_) => r@.len() == 0,
        },
{
    match output {
        Ok(o) => lines(o.as_str()),
        Err(_) => Vec::new(),
    }
}

/// The session of the first line of `tmux list-clients` output that holds a
/// `:` (lines read `tty:session`): what follows its first `:`.
pub open spec fn first_client_session(ls: Seq<Seq<char>>) -> Option<Seq<char>>
    decreases ls.len(),
{
    if ls.len() == 0 {
        None
    } else {
        match find_from_spec(ls[0], seq![':'], 0) {
            Some(i) => Some(ls[0].skip(i + 1)),
            None => first_client_session(ls.drop_first()),
        }
    }
}

/// The session named by `tmux list-clients` output, if a line names one.
pub fn client_list_session(output: &str) -> (r: Option<String>)
    ensures
        match r {
            Some(s) => first_client_session(lines_spec(output@)) == Some(s@),
            None => first_client_session(lines_spec(output@)) is None,
        },
{
    let ls = lines(output);
    let ghost all = string_views(ls@);
    let mut colon: Vec<char> = Vec::new();
    colon.push(':');
    assert(colon@ =~= seq![':']);
    assert(all.skip(0) =~= all);
    let mut i: usize = 0;
    while i < ls.len()
        invariant
            i <= ls@.len(),
            all == string_views(ls@),
            all == lines_spec(output@),
            colon@ == seq![':'],
            first_client_session(all.skip(i as int)) == first_client_session(all),
        decreases ls@.len() - i,
    {
        let v = chars_of(ls[i].as_str());
        assert(all.skip(i as int)[0] == v@);
        match find_from(&v, &colon, 0) {
            Some(k) => {
                proof {
                    lemma_find_from_bounds(v@, colon@, 0);
                }
                let n = v.len();
                assert(k + 1 <= n);
                let s = string_of_range(&v, k + 1, n);
                assert(s@ =~= v@.skip(k + 1));
                return Some(s);
            },
            None => {},
        }
        assert(all.skip(i as int).drop_first() =~= all.skip(i + 1));
        i = i + 1;
    }
    assert(all.skip(i as int) =~= Seq::<Seq<char>>::empty());
    None
}

/// The session a client is attached to: read from `tmux list-clients`
/// output, or `fallback` (the session it was started in) when tmux failed
/// or no line names one.
pub fn current_session(output: Result<String, CreateError>, fallback: &str) -> (s: String)
    ensures
        s@ == match output {
            Ok(o) => match first_client_session(lines_spec(o@)) {
                Some(x) => x,
                None => fallback@,
            },
            Err(_) => fallback@,
        },
{
    match output {
        Ok(o) => match client_list_session(o.as_str()) {
            Some(s) => s,
            None => fallback.to_owned(),
        },
        Err(_) => fallback.to_owned(),
    }
}

/// The number `git rev-list --count` printed, or 0 when it does not read as
/// a count.
pub fn commit_count(output: &str) -> (n: usize)
    ensures
        n == match parse_usize_spec(trim_spec(output@)) {
            Some(c) => c,
            None => 0,
        },
{
    let t = trim(output);
    match parse_usize(t.as_str()) {
        Some(c) => c,
        None => 0,
    }
}

/// The upstream of a branch as git names it: `<branch>@{upstream}`.
pub open spec fn upstream_ref_spec(branch: Seq<char>) -> Seq<char> {
    branch + "@{upstream}"@
}

/// The name git gives the upstream of `branch`.
pub fn upstream_ref(branch: &str) -> (s: String)
    ensures
        s@ == upstream_ref_spec(branch@),
{
    let mut s = branch.to_owned();
    append_str(&mut s, "@{upstream}");
    s
}

/// Whether a branch has commits that are not pushed: always when it has no
/// upstream, else when `git log @{upstream}..HEAD` printed something.
pub fn has_unpushed(has_upstream: bool, log_output: &str) -> (b: bool)
    ensures
        b == (!has_upstream || log_output@.len() > 0),
{
    !has_upstream || log_output.unicode_len() > 0
}

/// What a shell command printed and how it ended.
#[derive(Debug, Clone)]
pub struct ShellOutput {
    pub stdout: String,
    pub stderr: String,
    /// The exit code; `None` when a signal ended the process.
    pub status: Option<i32>,
}

/// Why a check on a shell command's output failed.
#[derive(Debug, Clone)]
pub enum ShellCheckError {
    /// The command was expected to succeed; it ended with this code.
    Failed { code: Option<i32> },
    /// The command was expected to fail but succeeded.
    Succeeded,
    /// The standard output does not contain the expected text.
    StdoutMissing { expected: String },
    /// The standard error does not contain the expected text.
    StderrMissing { expected: String },
    /// The trimmed standard output is not the expected text.
    StdoutDiffers { expected: String, actual: String },
}

impl ShellOutput {
    /// Whether the command exited with code 0.
    pub fn success(&self) -> (b: bool)
        ensures
            b == (self.status == Some(0i32)),
    {
        match self.status {
            Some(c) => c == 0,
            None => false,
        }
    }

    /// The exit code, if the command exited normally.
    pub fn exit_code(&self) -> (c: Option<i32>)
        ensures
            c == self.status,
    {
        self.status
    }

    /// Checks that the command succeeded.
    pub fn assert_success(&self) -> (r: Result<&Self, ShellCheckError>)
        ensures
            match r {
                Ok(x) => x == self && self.status == Some(0i32),
                Err(e) => self.status != Some(0i32) && (e matches ShellCheckError::Failed { code }
                    && code == self.status),
            },
    {
        if self.success() {
            Ok(self)
        } else {
            Err(ShellCheckError::Failed { code: self.status })
        }
    }

    /// Checks that the command failed.
    pub fn assert_failure(&self) -> (r: Result<&Self, ShellCheckError>)
        ensures
            match r {
                Ok(x) => x == self && self.status != Some(0i32),
                Err(e) => self.status == Some(0i32) && e is Succeeded,
            },
    {
        if self.success() {
            Err(ShellCheckError::Succeeded)
        } else {
            Ok(self)
        }
    }

    /// Checks that the standard output contains `expected`.
    pub fn assert_stdout_contains(&self, expected: &str) -> (r: Result<&Self, ShellCheckError>)
        ensures
            match r {
                Ok(x) => x == self && contains_spec(self.stdout@, expected@),
                Err(e) => !contains_spec(self.stdout@, expected@)
                    && (e matches ShellCheckError::StdoutMissing { expected: t } && t@ == expected@),
            },
    {
        let v = chars_of(self.stdout.as_str());
        if contains(&v, expected) {
            Ok(self)
        } else {
            Err(ShellCheckError::StdoutMissing { expected: expected.to_owned() })
        }
    }

    /// Checks that the standard error contains `expected`.
    pub fn assert_stderr_contains(&self, expected: &str) -> (r: Result<&Self, ShellCheckError>)
        ensures
            match r {
                Ok(x) => x == self && contains_spec(self.stderr@, expected@),
                Err(e) => !contains_spec(self.stderr@, expected@)
                    && (e matches ShellCheckError::StderrMissing { expected: t } && t@ == expected@),
            },
    {
        let v = chars_of(self.stderr.as_str());
        if contains(&v, expected) {
            Ok(self)
        } else {
            Err(ShellCheckError::StderrMissing { expected: expected.to_owned() })
        }
    }

    /// Checks that the standard output, trimmed, is `expected`.
    pub fn assert_stdout_eq(&self, expected: &str) -> (r: Result<&Self, ShellCheckError>)
        ensures
            match r {
                Ok(x) => x == self && trim_spec(self.stdout@) == expected@,
                Err(e) => trim_spec(self.stdout@) != expected@ && (e matches ShellCheckError::StdoutDiffers {
                    expected: t,
                    actual: a,
                } && t@ == expected@ && a@ == trim_spec(self.stdout@)),
            },
    {
        let actual = trim(self.stdout.as_str());
        let wanted = expected.to_owned();
        if actual == wanted {
            Ok(self)
        } else {
            Err(ShellCheckError::StdoutDiffers { expected: wanted, actual })
        }
    }
}

} // verus!
