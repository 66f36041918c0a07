//! Tmux sessions, windows, clients and the private server socket they live
//! on, with the tmux command lines that create a session.

use vstd::prelude::*;
use crate::ids::{is_hyphenated_v4_uuid, new_uuid_hyphenated};
use crate::remote::{opt_as_str, opt_str_view, opt_view};
use crate::error::CreateError;
use crate::text::{append_str, string_views};

verus! {

/// A command run in a window, with the means to keep the window open after it.
#[derive(Debug, Clone, Copy)]
pub struct WindowCommand<'a>(pub &'a str);

/// `c` followed by `; exec $SHELL`, so a shell takes over when it exits.
pub open spec fn persistent_shell_spec(c: Seq<char>) -> Seq<char> {
    c + "; exec $SHELL"@
}

impl<'a> WindowCommand<'a> {
    /// The command wrapped so that the window stays alive after it exits.
    pub fn with_persistent_shell(self) -> (s: String)
        ensures
            s@ == persistent_shell_spec(self.0@),
    {
        let mut s = self.0.to_owned();
        append_str(&mut s, "; exec $SHELL");
        s
    }
}

/// A tmux window: a name and an optional command to run in it.
#[derive(Debug, Clone)]
pub struct WindowDescriptor {
    name: String,
    command: Option<String>,
}

impl WindowDescriptor {
    pub closed spec fn spec_name(&self) -> Seq<char> {
        self.name@
    }

    pub closed spec fn spec_command(&self) -> Option<Seq<char>> {
        opt_view(self.command)
    }

    pub fn new(name: &str) -> (w: Self)
        ensures
            w.spec_name() == name@,
            w.spec_command() is None,
    {
        WindowDescriptor { name: name.to_owned(), command: None }
    }

    pub fn with_command(self, cmd: &str) -> (w: Self)
        ensures
            w.spec_name() == self.spec_name(),
            w.spec_command() == Some(cmd@),
    {
        let mut w = self;
        w.command = Some(cmd.to_owned());
        w
    }

    pub fn name(&self) -> (n: &str)
        ensures
            n@ == self.spec_name(),
    {
        self.name.as_str()
    }

    pub fn command(&self) -> (c: Option<WindowCommand<'_>>)
        ensures
            match c {
                Some(wc) => self.spec_command() == Some(wc.0@),
                None => self.spec_command() is None,
            },
    {
        match opt_as_str(&self.command) {
            Some(c) => Some(WindowCommand(c)),
            None => None,
        }
    }
}

/// The trailing argument that runs a window's command, if it has one.
pub open spec fn window_command_args(w: WindowDescriptor) -> Seq<Seq<char>> {
    match w.spec_command() {
        Some(c) => seq![persistent_shell_spec(c)],
        None => Seq::empty(),
    }
}

/// The tmux arguments that create a session whose first window is `w`.
pub open spec fn first_window_args(
    session: Seq<char>,
    w: WindowDescriptor,
    working_dir: Seq<char>,
) -> Seq<Seq<char>> {
    seq![
        "new-session"@,
        "-d"@,
        "-s"@,
        session,
        "-n"@,
        w.spec_name(),
        "-c"@,
        working_dir,
    ] + window_command_args(w)
}

/// The tmux arguments that add the window `w` to a session.
pub open spec fn other_window_args(
    session: Seq<char>,
    w: WindowDescriptor,
    working_dir: Seq<char>,
) -> Seq<Seq<char>> {
    seq!["new-window"@, "-t"@, session, "-n"@, w.spec_name(), "-c"@, working_dir]
        + window_command_args(w)
}

/// The tmux command lines (arguments after the socket) that create a session
/// with the given windows, all started in `working_dir`: a bare session when
/// there is no window, else one command for the first window and one for
/// each other window, in order.
pub open spec fn session_commands_spec(
    session: Seq<char>,
    windows: Seq<WindowDescriptor>,
    working_dir: Seq<char>,
) -> Seq<Seq<Seq<char>>> {
    if windows.len() == 0 {
        seq![seq!["new-session"@, "-d"@, "-s"@, session, "-c"@, working_dir]]
    } else {
        Seq::new(
            windows.len(),
            |i: int|
                if i == 0 {
                    first_window_args(session, windows[0], working_dir)
                } else {
                    other_window_args(session, windows[i], working_dir)
                },
        )
    }
}

/// The argument lists of a list of command lines.
pub open spec fn command_lines_view(c: Seq<Vec<String>>) -> Seq<Seq<Seq<char>>> {
    c.map_values(|v: Vec<String>| string_views(v@))
}

/// Appends an owned copy of `s` to `v`.
fn push_arg(v: &mut Vec<String>, s: &str)
    ensures
        string_views(final(v)@) == string_views(old(v)@).push(s@),
{
    v.push(s.to_owned());
    assert(string_views(v@) =~= string_views(old(v)@).push(s@));
}

/// The tmux arguments that create the first or a later window.
fn window_args(session: &str, w: &WindowDescriptor, working_dir: &str, first: bool) -> (v: Vec<
    String,
>)
    ensures
        string_views(v@) == if first {
            first_window_args(session@, *w, working_dir@)
        } else {
            other_window_args(session@, *w, working_dir@)
        },
{
    let mut v: Vec<String> = Vec::new();
    if first {
        push_arg(&mut v, "new-session");
        push_arg(&mut v, "-d");
        push_arg(&mut v, "-s");
    } else {
        push_arg(&mut v, "new-window");
        push_arg(&mut v, "-t");
    }
    push_arg(&mut v, session);
    push_arg(&mut v, "-n");
    push_arg(&mut v, w.name());
    push_arg(&mut v, "-c");
    push_arg(&mut v, working_dir);
    match w.command() {
        Some(c) => {
            let wrapped = c.with_persistent_shell();
            push_arg(&mut v, wrapped.as_str());
        },
        None => {},
    }
    proof {
        if first {
            assert(string_views(v@) =~= first_window_args(session@, *w, working_dir@));
        } else {
            assert(string_views(v@) =~= other_window_args(session@, *w, working_dir@));
        }
    }
    v
}

/// The tmux command lines that create the session `session` with `windows`
/// in `working_dir` (see [`session_commands_spec`]).
pub fn session_commands(session: &str, windows: &Vec<WindowDescriptor>, working_dir: &str) -> (r:
    Vec<Vec<String>>)
    ensures
        command_lines_view(r@) == session_commands_spec(session@, windows@, working_dir@),
{
    let mut r: Vec<Vec<String>> = Vec::new();
    if windows.len() == 0 {
        let mut v: Vec<String> = Vec::new();
        push_arg(&mut v, "new-session");
        push_arg(&mut v, "-d");
        push_arg(&mut v, "-s");
        push_arg(&mut v, session);
        push_arg(&mut v, "-c");
        push_arg(&mut v, working_dir);
        let ghost args = string_views(v@);
        assert(args =~= seq!["new-session"@, "-d"@, "-s"@, session@, "-c"@, working_dir@]);
        r.push(v);
        assert(command_lines_view(r@) =~= seq![args]);
        assert(command_lines_view(r@) =~= session_commands_spec(
            session@,
            windows@,
            working_dir@,
        ));
        return r;
    }
    let ghost target = session_commands_spec(session@, windows@, working_dir@);
    let mut i: usize = 0;
    while i < windows.len()
        invariant
            windows@.len() > 0,
            target == session_commands_spec(session@, windows@, working_dir@),
            i <= windows@.len(),
            command_lines_view(r@) == target.subrange(0, i as int),
        decreases windows@.len() - i,
    {
        let v = window_args(session, &windows[i], working_dir, i == 0);
        let ghost old_r = r@;
        r.push(v);
        assert(command_lines_view(r@) =~= command_lines_view(old_r).push(string_views(v@)));
        i = i + 1;
        assert(command_lines_view(r@) =~= target.subrange(0, i as int));
    }
    assert(target.subrange(0, windows@.len() as int) =~= target);
    r
}

/// A tmux session made in the environment's root directory.
#[derive(Debug, Clone)]
pub struct TmuxSessionDescriptor {
    name: String,
    windows: Vec<WindowDescriptor>,
}

impl TmuxSessionDescriptor {
    pub closed spec fn spec_name(&self) -> Seq<char> {
        self.name@
    }

    pub closed spec fn spec_windows(&self) -> Seq<WindowDescriptor> {
        self.windows@
    }

    pub fn new(name: &str) -> (s: Self)
        ensures
            s.spec_name() == name@,
            s.spec_windows() == Seq::<WindowDescriptor>::empty(),
    {
        TmuxSessionDescriptor { name: name.to_owned(), windows: Vec::new() }
    }

    pub fn with_window(self, window: WindowDescriptor) -> (s: Self)
        ensures
            s.spec_name() == self.spec_name(),
            s.spec_windows() == self.spec_windows().push(window),
    {
        let mut s = self;
        s.windows.push(window);
        s
    }

    pub fn name(&self) -> (n: &str)
        ensures
            n@ == self.spec_name(),
    {
        self.name.as_str()
    }

    pub fn windows(&self) -> (w: &Vec<WindowDescriptor>)
        ensures
            w@ == self.spec_windows(),
    {
        &self.windows
    }

    /// The tmux command lines that create this session in `working_dir`.
    pub fn tmux_commands(&self, working_dir: &str) -> (r: Vec<Vec<String>>)
        ensures
            command_lines_view(r@) == session_commands_spec(
                self.spec_name(),
                self.spec_windows(),
                working_dir@,
            ),
    {
        session_commands(self.name.as_str(), &self.windows, working_dir)
    }
}

/// A tmux client to attach to a session, with the size of its terminal.
#[derive(Debug)]
pub struct TmuxClientDescriptor {
    session_name: String,
    pty_rows: u16,
    pty_cols: u16,
}

impl TmuxClientDescriptor {
    pub closed spec fn spec_session_name(&self) -> Seq<char> {
        self.session_name@
    }

    pub closed spec fn spec_pty_size(&self) -> (u16, u16) {
        (self.pty_rows, self.pty_cols)
    }

    pub fn new(session_name: String, pty_rows: u16, pty_cols: u16) -> (c: Self)
        ensures
            c.spec_session_name() == session_name@,
            c.spec_pty_size() == (pty_rows, pty_cols),
    {
        TmuxClientDescriptor { session_name, pty_rows, pty_cols }
    }

    pub fn session_name(&self) -> (n: &str)
        ensures
            n@ == self.spec_session_name(),
    {
        self.session_name.as_str()
    }

    pub fn pty_size(&self) -> (s: (u16, u16))
        ensures
            s == self.spec_pty_size(),
    {
        (self.pty_rows, self.pty_cols)
    }

    /// The error when the client's session does not exist; with the hint,
    /// it also says that the session must be created before the client.
    pub fn missing_session_error(&self, hint: bool) -> (e: CreateError)
        ensures
            e == CreateError::InvalidDescriptor(e->InvalidDescriptor_0),
            e->InvalidDescriptor_0@ == "Cannot attach client to non-existent session: "@
                + self.spec_session_name() + if hint {
                ". Make sure the session is created before the client."@
            } else {
                Seq::<char>::empty()
            },
    {
        let mut m = "Cannot attach client to non-existent session: ".to_owned();
        append_str(&mut m, self.session_name.as_str());
        if hint {
            append_str(&mut m, ". Make sure the session is created before the client.");
        }
        CreateError::InvalidDescriptor(m)
    }
}

/// The private tmux server of a test environment, known by its socket name.
#[derive(Debug, Clone)]
pub struct TmuxSocket {
    name: String,
}

/// The prefix of every generated socket name.
pub open spec fn socket_prefix() -> Seq<char> {
    "test-tmux-"@
}

impl TmuxSocket {
    pub closed spec fn spec_name(&self) -> Seq<char> {
        self.name@
    }

    /// A socket with a fresh name: `test-tmux-` followed by a random UUID.
    pub fn new() -> (s: Self)
        ensures
            s.spec_name().len() == socket_prefix().len() + 36,
            s.spec_name().subrange(0, socket_prefix().len() as int) == socket_prefix(),
            is_hyphenated_v4_uuid(
                s.spec_name().subrange(socket_prefix().len() as int, s.spec_name().len() as int),
            ),
    {
        let mut name = "test-tmux-".to_owned();
        let id = new_uuid_hyphenated();
        append_str(&mut name, id.as_str());
        let s = TmuxSocket { name };
        assert(s.spec_name().subrange(0, socket_prefix().len() as int) =~= socket_prefix());
        assert(s.spec_name().subrange(socket_prefix().len() as int, s.spec_name().len() as int)
            =~= id@);
        s
    }

    pub fn from_name(name: String) -> (s: Self)
        ensures
            s.spec_name() == name@,
    {
        TmuxSocket { name }
    }

    pub fn name(&self) -> (n: &str)
        ensures
            n@ == self.spec_name(),
    {
        self.name.as_str()
    }

    /// The arguments of a `tmux` call on this server: `-L <name>`, then `args`.
    pub fn command_args(&self, args: &[&str]) -> (r: Vec<String>)
        ensures
            string_views(r@) == seq!["-L"@, self.spec_name()] + args@.map_values(|a: &str| a@),
    {
        let mut r: Vec<String> = Vec::new();
        r.push("-L".to_owned());
        r.push(self.name.clone());
        let mut i: usize = 0;
        while i < args.len()
            invariant
                i <= args@.len(),
                string_views(r@) == seq!["-L"@, self.spec_name()] + args@.subrange(
                    0,
                    i as int,
                ).map_values(|a: &str| a@),
            decreases args@.len() - i,
        {
            let ghost before = string_views(r@);
            r.push(args[i].to_owned());
            assert(string_views(r@) =~= before.push(args@[i as int]@));
            i = i + 1;
            assert(string_views(r@) =~= seq!["-L"@, self.spec_name()] + args@.subrange(
                0,
                i as int,
            ).map_values(|a: &str| a@));
        }
        assert(args@.subrange(0, args@.len() as int) =~= args@);
        r
    }
}

/// The error of a tmux call that exited unsuccessfully, carrying what it
/// printed on its error stream.
pub open spec fn tmux_failure_spec(stderr: Seq<char>) -> Seq<char> {
    "Tmux command failed: "@ + stderr
}

/// The error for a tmux call that failed with `stderr`.
pub fn tmux_failure(stderr: &str) -> (e: CreateError)
    ensures
        e matches CreateError::TmuxError(m) && m@ == tmux_failure_spec(stderr@),
{
    let mut m = "Tmux command failed: ".to_owned();
    append_str(&mut m, stderr);
    CreateError::TmuxError(m)
}

impl Default for TmuxSocket {
    fn default() -> (s: Self)
        ensures
            s.spec_name().len() == socket_prefix().len() + 36,
            s.spec_name().subrange(0, socket_prefix().len() as int) == socket_prefix(),
    {
        Self::new()
    }
}

/// Each window of a session gets a command line of its own, in order: the
/// first creates the session (`new-session -d -s <session>`), the others add
/// a window to it (`new-window -t <session>`); every one names its window
/// with `-n <name>`, starts it in `-c <working_dir>`, and ends with the
/// window's command followed by `; exec $SHELL` exactly when the window has
/// a command. A session without windows gets one bare `new-session` line.
pub proof fn law_session_commands_name_every_window(
    session: Seq<char>,
    windows: Seq<WindowDescriptor>,
    working_dir: Seq<char>,
)
    ensures
        ({
            let c = session_commands_spec(session, windows, working_dir);
            &&& windows.len() == 0 ==> c == seq![
                seq!["new-session"@, "-d"@, "-s"@, session, "-c"@, working_dir],
            ]
            &&& windows.len() > 0 ==> c.len() == windows.len()
            &&& windows.len() > 0 ==> {
                &&& c[0].subrange(0, 8) == seq![
                    "new-session"@,
                    "-d"@,
                    "-s"@,
                    session,
                    "-n"@,
                    windows[0].spec_name(),
                    "-c"@,
                    working_dir,
                ]
                &&& match windows[0].spec_command() {
                    Some(cmd) => c[0].len() == 9 && c[0][8] == cmd + "; exec $SHELL"@,
                    None => c[0].len() == 8,
                }
            }
            &&& forall|i: int|
                1 <= i < windows.len() ==> {
                    &&& (#[trigger] c[i]).subrange(0, 7) == seq![
                        "new-window"@,
                        "-t"@,
                        session,
                        "-n"@,
                        windows[i].spec_name(),
                        "-c"@,
                        working_dir,
                    ]
                    &&& match windows[i].spec_command() {
                        Some(cmd) => c[i].len() == 8 && c[i][7] == cmd + "; exec $SHELL"@,
                        None => c[i].len() == 7,
                    }
                }
        }),
{
    let c = session_commands_spec(session, windows, working_dir);
    if windows.len() > 0 {
        let f = first_window_args(session, windows[0], working_dir);
        assert(c[0] == f);
        assert(f.subrange(0, 8) =~= seq![
            "new-session"@,
            "-d"@,
            "-s"@,
            session,
            "-n"@,
            windows[0].spec_name(),
            "-c"@,
            working_dir,
        ]);
        assert forall|i: int| 1 <= i < windows.len() implies {
            &&& (#[trigger] c[i]).subrange(0, 7) == seq![
                "new-window"@,
                "-t"@,
                session,
                "-n"@,
                windows[i].spec_name(),
                "-c"@,
                working_dir,
            ]
            &&& match windows[i].spec_command() {
                Some(cmd) => c[i].len() == 8 && c[i][7] == cmd + "; exec $SHELL"@,
                None => c[i].len() == 7,
            }
        } by {
            let o = other_window_args(session, windows[i], working_dir);
            assert(c[i] == o);
            assert(o.subrange(0, 7) =~= seq![
                "new-window"@,
                "-t"@,
                session,
                "-n"@,
                windows[i].spec_name(),
                "-c"@,
                working_dir,
            ]);
        }
    }
}

} // verus!
