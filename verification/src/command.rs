//! A command for a tester to run, and the result of running it.

use vstd::prelude::*;
use crate::registry::TextMap;
use crate::remote::opt_view;
use crate::text::string_views;

verus! {

/// A command as plain values: program, arguments, environment variables,
/// working directory and terminal size.
pub struct CommandView {
    pub program: Seq<char>,
    pub args: Seq<Seq<char>>,
    pub envs: Map<Seq<char>, Seq<char>>,
    pub working_dir: Option<Seq<char>>,
    pub pty_size: (u16, u16),
}

/// A command to run: a program with arguments, environment variables, an
/// optional working directory and the terminal size for TUI testers.
#[derive(Debug, Clone)]
pub struct Command {
    program_name: String,
    args: Vec<String>,
    envs: TextMap<String, String>,
    working_dir: Option<String>,
    pty_rows: u16,
    pty_cols: u16,
}

/// The texts held by a map of strings.
pub open spec fn text_map_view(m: Map<Seq<char>, String>) -> Map<Seq<char>, Seq<char>> {
    m.map_values(|v: String| v@)
}

impl View for Command {
    type V = CommandView;

    closed spec fn view(&self) -> CommandView {
        CommandView {
            program: self.program_name@,
            args: string_views(self.args@),
            envs: text_map_view(self.envs.view()),
            working_dir: opt_view(self.working_dir),
            pty_size: (self.pty_rows, self.pty_cols),
        }
    }
}

impl Command {
    /// A command running `program`, with no arguments, no extra environment,
    /// no working directory and a 24 by 80 terminal.
    pub fn new(program: &str) -> (c: Self)
        ensures
            c@ == (CommandView {
                program: program@,
                args: Seq::empty(),
                envs: Map::empty(),
                working_dir: None,
                pty_size: (24, 80),
            }),
    {
        let c = Command {
            program_name: program.to_owned(),
            args: Vec::new(),
            envs: TextMap::new(),
            working_dir: None,
            pty_rows: 24,
            pty_cols: 80,
        };
        assert(c@.args =~= Seq::<Seq<char>>::empty());
        assert(c@.envs =~= Map::<Seq<char>, Seq<char>>::empty());
        c
    }

    /// Adds the arguments `args`, in order.
    pub fn args(self, args: &[&str]) -> (c: Self)
        ensures
            c@ == (CommandView {
                args: self@.args + args@.map_values(|a: &str| a@),
                ..self@
            }),
    {
        let mut c = self;
        let mut i: usize = 0;
        while i < args.len()
            invariant
                i <= args@.len(),
                c@ == (CommandView {
                    args: self@.args + args@.subrange(0, i as int).map_values(|a: &str| a@),
                    ..self@
                }),
            decreases args@.len() - i,
        {
            let ghost before = c.args@;
            c.args.push(args[i].to_owned());
            assert(string_views(c.args@) =~= string_views(before).push(args@[i as int]@));
            i = i + 1;
            assert(c@.args =~= self@.args + args@.subrange(0, i as int).map_values(
                |a: &str| a@,
            ));
        }
        assert(args@.subrange(0, args@.len() as int) =~= args@);
        c
    }

    /// Adds one argument.
    pub fn arg(self, arg: &str) -> (c: Self)
        ensures
            c@ == (CommandView { args: self@.args.push(arg@), ..self@ }),
    {
        let mut c = self;
        c.args.push(arg.to_owned());
        assert(string_views(c.args@) =~= string_views(self.args@).push(arg@));
        c
    }

    /// Sets the environment variable `key` to `value`.
    pub fn env(self, key: &str, value: &str) -> (c: Self)
        ensures
            c@ == (CommandView { envs: self@.envs.insert(key@, value@), ..self@ }),
    {
        let mut c = self;
        let ghost old_view = c.envs.view();
        let v = value.to_owned();
        c.envs.insert(key.to_owned(), v);
        assert(text_map_view(c.envs.view()) =~= text_map_view(old_view).insert(key@, value@));
        c
    }

    /// Sets each of the environment variables `envs`, in order (a later pair
    /// overrides an earlier one with the same key).
    pub fn envs(self, envs: Vec<(String, String)>) -> (c: Self)
        ensures
            c@ == (CommandView { envs: insert_all(self@.envs, envs@), ..self@ }),
    {
        let mut c = self;
        let mut i: usize = 0;
        while i < envs.len()
            invariant
                i <= envs@.len(),
                c@ == (CommandView {
                    envs: insert_all(self@.envs, envs@.subrange(0, i as int)),
                    ..self@
                }),
            decreases envs@.len() - i,
        {
            let ghost before = c.envs.view();
            let k = envs[i].0.clone();
            let v = envs[i].1.clone();
            c.envs.insert(k, v);
            assert(envs@.subrange(0, i + 1).drop_last() =~= envs@.subrange(0, i as int));
            assert(text_map_view(c.envs.view()) =~= text_map_view(before).insert(
                envs@[i as int].0@,
                envs@[i as int].1@,
            ));
            i = i + 1;
        }
        assert(envs@.subrange(0, envs@.len() as int) =~= envs@);
        c
    }

    /// Sets the working directory.
    pub fn cwd(self, path: &str) -> (c: Self)
        ensures
            c@ == (CommandView { working_dir: Some(path@), ..self@ }),
    {
        let mut c = self;
        c.working_dir = Some(path.to_owned());
        c
    }

    /// Sets the terminal size for TUI testers.
    pub fn pty_size(self, rows: u16, cols: u16) -> (c: Self)
        ensures
            c@ == (CommandView { pty_size: (rows, cols), ..self@ }),
    {
        let mut c = self;
        c.pty_rows = rows;
        c.pty_cols = cols;
        c
    }

    /// The program name.
    pub fn program(&self) -> (p: &str)
        ensures
            p@ == self@.program,
    {
        self.program_name.as_str()
    }

    /// A copy of the arguments.
    pub fn build_args(&self) -> (a: Vec<String>)
        ensures
            string_views(a@) == self@.args,
    {
        let mut a: Vec<String> = Vec::new();
        let mut i: usize = 0;
        while i < self.args.len()
            invariant
                i <= self.args@.len(),
                string_views(a@) == string_views(self.args@).subrange(0, i as int),
            decreases self.args@.len() - i,
        {
            let ghost before = a@;
            a.push(self.args[i].clone());
            assert(string_views(a@) =~= string_views(before).push(self.args@[i as int]@));
            i = i + 1;
            assert(string_views(a@) =~= string_views(self.args@).subrange(0, i as int));
        }
        assert(string_views(self.args@).subrange(0, self.args@.len() as int) =~= string_views(
            self.args@,
        ));
        a
    }

    /// A copy of the environment variables as (name, value) pairs, each name
    /// once; the order of the pairs is left open.
    pub fn build_env(&self) -> (e: Vec<(String, String)>)
        ensures
            e@.len() == self@.envs.dom().len(),
            forall|i: int|
                0 <= i < e@.len() ==> self@.envs.dom().contains(#[trigger] e@[i].0@)
                    && self@.envs[e@[i].0@] == e@[i].1@,
            forall|k: Seq<char>|
                self@.envs.dom().contains(k) ==> exists|i: int|
                    0 <= i < e@.len() && #[trigger] e@[i].0@ == k,
            forall|i: int, j: int|
                0 <= i < e@.len() && 0 <= j < e@.len() && i != j ==> e@[i].0@ != e@[j].0@,
    {
        let src = self.envs.entries();
        let mut e: Vec<(String, String)> = Vec::new();
        let mut i: usize = 0;
        while i < src.len()
            invariant
                i <= src@.len(),
                e@.len() == i,
                forall|j: int| 0 <= j < i ==> #[trigger] e@[j].0@ == src@[j].0@ && e@[j].1@
                    == src@[j].1@,
            decreases src@.len() - i,
        {
            let k = src[i].0.clone();
            let v = src[i].1.clone();
            e.push((k, v));
            i = i + 1;
        }
        proof {
            assert forall|k: Seq<char>| self@.envs.dom().contains(k) implies exists|i: int|
                0 <= i < e@.len() && #[trigger] e@[i].0@ == k by {
                let i = choose|i: int| 0 <= i < src@.len() && #[trigger] src@[i].0@ == k;
                assert(e@[i].0@ == k);
            }
            assert forall|i: int| 0 <= i < e@.len() implies self@.envs.dom().contains(
                #[trigger] e@[i].0@,
            ) && self@.envs[e@[i].0@] == e@[i].1@ by {
                assert(e@[i].0@ == src@[i].0@);
            }
            assert forall|i: int, j: int|
                0 <= i < e@.len() && 0 <= j < e@.len() && i != j implies e@[i].0@ != e@[j].0@ by {
                assert(e@[i].0@ == src@[i].0@);
                assert(e@[j].0@ == src@[j].0@);
            }
            assert(self@.envs.dom() =~= self.envs.view().dom());
        }
        e
    }

    /// The working directory, if set.
    pub fn get_cwd(&self) -> (d: Option<String>)
        ensures
            opt_view(d) == self@.working_dir,
    {
        crate::context::clone_opt_string(&self.working_dir)
    }

    /// The terminal size (rows, columns).
    pub fn get_pty_size(&self) -> (s: (u16, u16))
        ensures
            s == self@.pty_size,
    {
        (self.pty_rows, self.pty_cols)
    }
}

/// `m` with each pair of `pairs` inserted in order.
pub open spec fn insert_all(m: Map<Seq<char>, Seq<char>>, pairs: Seq<(String, String)>) -> Map<
    Seq<char>,
    Seq<char>,
>
    decreases pairs.len(),
{
    if pairs.len() == 0 {
        m
    } else {
        insert_all(m, pairs.drop_last()).insert(pairs.last().0@, pairs.last().1@)
    }
}

/// What running a command produced.
#[derive(Debug, Clone)]
pub struct CommandResult {
    /// Standard output.
    pub stdout: String,
    /// Standard error.
    pub stderr: String,
    /// Exit code.
    pub exit_code: i32,
    /// Whether the command succeeded (exit code 0).
    pub success: bool,
}

impl CommandResult {
    /// A result with the given output and exit code; success means exit code 0.
    pub fn new(stdout: String, stderr: String, exit_code: i32) -> (r: Self)
        ensures
            r.stdout == stdout,
            r.stderr == stderr,
            r.exit_code == exit_code,
            r.success == (exit_code == 0),
    {
        CommandResult { stdout, stderr, success: exit_code == 0, exit_code }
    }

    /// The result of a process that ran to its end: its exit code, or -1
    /// when a signal ended it; success means it exited with code 0.
    pub fn exited(stdout: String, stderr: String, code: Option<i32>) -> (r: Self)
        ensures
            r.stdout == stdout,
            r.stderr == stderr,
            r.exit_code == match code {
                Some(c) => c,
                None => -1i32,
            },
            r.success == (code == Some(0i32)),
    {
        match code {
            Some(c) => CommandResult::new(stdout, stderr, c),
            None => CommandResult { stdout, stderr, exit_code: -1, success: false },
        }
    }

    /// The result of a command that could not be run: no output, the error
    /// stream `<context>: <detail>`, exit code -1.
    pub fn failed(context: &str, detail: &str) -> (r: Self)
        ensures
            r.stdout@ == Seq::<char>::empty(),
            r.stderr@ == context@ + ": "@ + detail@,
            r.exit_code == -1,
            !r.success,
    {
        let mut e = context.to_owned();
        crate::text::append_str(&mut e, ": ");
        crate::text::append_str(&mut e, detail);
        CommandResult::new(String::new(), e, -1)
    }
}

/// An environment variable set on a command is what the command holds for
/// it afterwards, whatever was set before; other variables keep their values.
pub proof fn law_env_read_after_write(
    before: CommandView,
    after: CommandView,
    key: Seq<char>,
    value: Seq<char>,
    other: Seq<char>,
)
    requires
        after.envs == before.envs.insert(key, value),
        other != key,
    ensures
        after.envs.dom().contains(key),
        after.envs[key] == value,
        after.envs.dom().contains(other) == before.envs.dom().contains(other),
        after.envs.dom().contains(other) ==> after.envs[other] == before.envs[other],
{
}

} // verus!
