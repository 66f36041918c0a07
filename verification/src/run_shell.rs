//! Running a command through `tmux run-shell`: the shell script that runs it
//! with its environment and working directory and frames its output between
//! two unique markers, and the reading of that framed output back into a
//! [`CommandResult`].

use vstd::prelude::*;
use crate::command::{Command, CommandResult};
use crate::error::{create_error_text, CreateError};
use crate::ids::{is_simple_v4_uuid, new_uuid_simple};
use crate::parse::{
    decimal_spec, is_ascii_digit, law_parse_i32_reads_decimal, lemma_digits_of, parse_i32,
    parse_i32_spec,
};
use crate::text::{
    append_str, chars_of, escape_single_quotes, is_unicode_whitespace, occurs_at, trim_end_spec,
    trim_start_spec, escape_single_quotes_spec, find_from,
    find_from_spec, lemma_find_from_bounds, string_of_range, string_views, trim_end_char_index, trim_end_char_spec,
    trim_range, trim_spec, trim_start_char_index, trim_start_char_spec,
};

verus! {

/// The parts joined with `sep` between each two (`[String]::join`).
pub open spec fn join_spec(parts: Seq<Seq<char>>, sep: Seq<char>) -> Seq<char>
    decreases parts.len(),
{
    if parts.len() == 0 {
        Seq::empty()
    } else if parts.len() == 1 {
        parts[0]
    } else {
        join_spec(parts.drop_last(), sep) + sep + parts.last()
    }
}

/// Joins the strings with `sep` between each two.
pub fn join_strings(parts: &Vec<String>, sep: &str) -> (s: String)
    ensures
        s@ == join_spec(string_views(parts@), sep@),
{
    let mut s = String::new();
    let mut i: usize = 0;
    while i < parts.len()
        invariant
            i <= parts@.len(),
            s@ == join_spec(string_views(parts@.subrange(0, i as int)), sep@),
        decreases parts@.len() - i,
    {
        let ghost before = parts@.subrange(0, i as int);
        if i > 0 {
            append_str(&mut s, sep);
        }
        append_str(&mut s, parts[i].as_str());
        i = i + 1;
        proof {
            let now = string_views(parts@.subrange(0, i as int));
            assert(now.drop_last() =~= string_views(before));
            assert(now.last() == parts@[i - 1]@);
            if i == 1 {
                assert(string_views(before) =~= Seq::<Seq<char>>::empty());
            }
        }
    }
    assert(parts@.subrange(0, parts@.len() as int) =~= parts@);
    s
}

/// `s` as one single-quoted shell word: `'`, the text with each `'` escaped,
/// `'`.
pub open spec fn quoted_spec(s: Seq<char>) -> Seq<char> {
    "'"@ + escape_single_quotes_spec(s) + "'"@
}

/// Quotes `s` as a single shell word.
pub fn shell_quote(s: &str) -> (q: String)
    ensures
        q@ == quoted_spec(s@),
{
    let mut q = "'".to_owned();
    let e = escape_single_quotes(s);
    append_str(&mut q, e.as_str());
    append_str(&mut q, "'");
    q
}

/// How a POSIX shell reads a word: inside single quotes every character is
/// itself until the closing quote; outside, a quote opens a quoted part, a
/// backslash stands for the character after it, and any other character is
/// itself.
pub open spec fn shell_read_word(w: Seq<char>, quoted: bool) -> Seq<char>
    decreases w.len(),
{
    if w.len() == 0 {
        Seq::empty()
    } else if quoted {
        if w[0] == '\'' {
            shell_read_word(w.drop_first(), false)
        } else {
            seq![w[0]] + shell_read_word(w.drop_first(), true)
        }
    } else if w[0] == '\'' {
        shell_read_word(w.drop_first(), true)
    } else if w[0] == '\\' && w.len() >= 2 {
        seq![w[1]] + shell_read_word(w.skip(2), false)
    } else {
        seq![w[0]] + shell_read_word(w.drop_first(), false)
    }
}

/// Every character of `w` that the shell sees outside quotes is a quote or
/// an escaped character, so no blank, `;`, `$` or other special character
/// acts: the word stays one word with nothing expanded.
pub open spec fn fully_protected(w: Seq<char>, quoted: bool) -> bool
    decreases w.len(),
{
    if w.len() == 0 {
        !quoted
    } else if quoted {
        if w[0] == '\'' {
            fully_protected(w.drop_first(), false)
        } else {
            fully_protected(w.drop_first(), true)
        }
    } else if w[0] == '\'' {
        fully_protected(w.drop_first(), true)
    } else if w[0] == '\\' && w.len() >= 2 {
        fully_protected(w.skip(2), false)
    } else {
        false
    }
}

/// The escaping of the first character, then of the rest.
proof fn lemma_escape_first(s: Seq<char>)
    requires
        s.len() > 0,
    ensures
        escape_single_quotes_spec(s) == (if s[0] == '\'' {
            seq!['\'', '\\', '\'', '\'']
        } else {
            seq![s[0]]
        }) + escape_single_quotes_spec(s.drop_first()),
    decreases s.len(),
{
    if s.len() > 1 {
        lemma_escape_first(s.drop_last());
        assert(s.drop_last().drop_first() =~= s.drop_first().drop_last());
        assert(s.drop_first().last() == s.last());
        assert(s.drop_last()[0] == s[0]);
    } else {
        assert(s.drop_last() =~= Seq::<char>::empty());
        assert(s.drop_first() =~= Seq::<char>::empty());
    }
}

/// Inside quotes, the escaped text followed by a closing quote reads back as
/// the text, and reading goes on outside quotes.
proof fn lemma_read_escaped(s: Seq<char>, rest: Seq<char>)
    ensures
        shell_read_word(escape_single_quotes_spec(s) + seq!['\''] + rest, true) == s
            + shell_read_word(rest, false),
        fully_protected(escape_single_quotes_spec(s) + seq!['\''] + rest, true)
            == fully_protected(rest, false),
    decreases s.len(),
{
    let w = escape_single_quotes_spec(s) + seq!['\''] + rest;
    if s.len() == 0 {
        assert(escape_single_quotes_spec(s) =~= Seq::<char>::empty());
        assert(w =~= seq!['\''] + rest);
        assert(w[0] == '\'');
        assert(w.drop_first() =~= rest);
        assert(shell_read_word(w, true) == shell_read_word(w.drop_first(), false));
        assert(fully_protected(w, true) == fully_protected(w.drop_first(), false));
        assert(s + shell_read_word(rest, false) =~= shell_read_word(rest, false));
    } else {
        lemma_escape_first(s);
        let t = s.drop_first();
        lemma_read_escaped(t, rest);
        let wt = escape_single_quotes_spec(t) + seq!['\''] + rest;
        if s[0] == '\'' {
            assert(w =~= seq!['\'', '\\', '\'', '\''] + wt);
            let w1 = w.drop_first();
            assert(w1 =~= seq!['\\', '\'', '\''] + wt);
            let w2 = w1.skip(2);
            assert(w2 =~= seq!['\''] + wt);
            assert(w2.drop_first() =~= wt);
            assert(shell_read_word(w, true) == shell_read_word(w1, false));
            assert(shell_read_word(w1, false) == seq![w1[1]] + shell_read_word(w2, false));
            assert(shell_read_word(w2, false) == shell_read_word(wt, true));
            assert(fully_protected(w, true) == fully_protected(w1, false));
            assert(fully_protected(w1, false) == fully_protected(w2, false));
            assert(fully_protected(w2, false) == fully_protected(wt, true));
            assert(s =~= seq!['\''] + t);
            assert(seq![w1[1]] + (t + shell_read_word(rest, false)) =~= s + shell_read_word(
                rest,
                false,
            ));
        } else {
            assert(w =~= seq![s[0]] + wt);
            assert(w.drop_first() =~= wt);
            assert(shell_read_word(w, true) == seq![s[0]] + shell_read_word(wt, true));
            assert(fully_protected(w, true) == fully_protected(wt, true));
            assert(s =~= seq![s[0]] + t);
            assert(seq![s[0]] + (t + shell_read_word(rest, false)) =~= s + shell_read_word(
                rest,
                false,
            ));
        }
    }
}

/// A quoted word is one shell word that reads back as the text it quotes:
/// nothing in it is split, expanded or lost.
pub proof fn law_quoted_word_reads_back(s: Seq<char>)
    ensures
        shell_read_word(quoted_spec(s), false) == s,
        fully_protected(quoted_spec(s), false),
{
    reveal_strlit("'");
    let q = quoted_spec(s);
    lemma_read_escaped(s, Seq::empty());
    let inner = escape_single_quotes_spec(s) + seq!['\''] + Seq::<char>::empty();
    assert(q =~= seq!['\''] + inner);
    assert(q[0] == '\'');
    assert(q.drop_first() =~= inner);
    assert(shell_read_word(q, false) == shell_read_word(inner, true));
    assert(fully_protected(q, false) == fully_protected(inner, true));
    assert(shell_read_word(Seq::<char>::empty(), false) =~= Seq::<char>::empty());
    assert(s + Seq::<char>::empty() =~= s);
}

/// The environment variables of a command as a list of (name, value)
/// pairs: each variable once, in some order.
pub open spec fn env_listing(es: Seq<(Seq<char>, Seq<char>)>, m: Map<Seq<char>, Seq<char>>) -> bool {
    &&& forall|i: int| 0 <= i < es.len() ==> #[trigger] m.dom().contains(es[i].0) && m[es[i].0] == es[i].1
    &&& forall|k: Seq<char>| m.dom().contains(k) ==> exists|i: int| 0 <= i < es.len() && #[trigger] es[i].0 == k
    &&& forall|i: int, j: int| 0 <= i < es.len() && 0 <= j < es.len() && i != j ==> es[i].0 != es[j].0
}

/// The texts of a list of string pairs.
pub open spec fn pair_views(e: Seq<(String, String)>) -> Seq<(Seq<char>, Seq<char>)> {
    e.map_values(|p: (String, String)| (p.0@, p.1@))
}

/// `export NAME='value'`, the value quoted for the shell.
pub open spec fn export_spec(name: Seq<char>, value: Seq<char>) -> Seq<char> {
    "export "@ + name + "="@ + quoted_spec(value)
}

/// The statements that set up the environment and the working directory
/// before the command runs inside `run-shell`.
pub open spec fn setup_parts_spec(es: Seq<(Seq<char>, Seq<char>)>, cwd: Option<Seq<char>>) -> Seq<
    Seq<char>,
> {
    es.map_values(|p: (Seq<char>, Seq<char>)| export_spec(p.0, p.1)) + match cwd {
        Some(d) => seq!["cd "@ + quoted_spec(d)],
        None => Seq::empty(),
    }
}

/// The setup statements, each followed by `; `.
pub open spec fn setup_spec(parts: Seq<Seq<char>>) -> Seq<char> {
    if parts.len() == 0 {
        Seq::empty()
    } else {
        join_spec(parts, "; "@) + "; "@
    }
}

/// The program and its arguments, each quoted as a shell word and separated
/// by spaces.
pub open spec fn quoted_command_spec(program: Seq<char>, args: Seq<Seq<char>>) -> Seq<char> {
    if args.len() == 0 {
        quoted_spec(program)
    } else {
        quoted_spec(program) + " "@ + join_spec(args.map_values(|a: Seq<char>| quoted_spec(a)), " "@)
    }
}

/// The script handed to `tmux run-shell`: it runs `command` after `setup`
/// with its output and error streams captured in temporary files, then
/// prints the output, the separator line, the error stream, and the exit
/// marker directly followed by the exit code.
pub open spec fn script_spec(
    setup: Seq<char>,
    command: Seq<char>,
    separator: Seq<char>,
    exit_marker: Seq<char>,
) -> Seq<char> {
    "STDOUT_FILE=$(mktemp); STDERR_FILE=$(mktemp); "@ + setup + command
        + " >\"$STDOUT_FILE\" 2>\"$STDERR_FILE\"; EXIT_CODE=$?; cat \"$STDOUT_FILE\"; printf '%s\\n' '"@
        + separator + "'; cat \"$STDERR_FILE\"; printf '%s%d\\n' '"@ + exit_marker
        + "' \"$EXIT_CODE\"; rm -f \"$STDOUT_FILE\" \"$STDERR_FILE\""@
}

/// The `run-shell` script for `cmd` with the environment listed as `es`.
pub open spec fn run_shell_script_spec(
    cmd: crate::command::CommandView,
    es: Seq<(Seq<char>, Seq<char>)>,
    separator: Seq<char>,
    exit_marker: Seq<char>,
) -> Seq<char> {
    script_spec(
        setup_spec(setup_parts_spec(es, cmd.working_dir)),
        quoted_command_spec(cmd.program, cmd.args),
        separator,
        exit_marker,
    )
}

/// The setup statements for the listed environment and working directory.
fn setup_parts(e: &Vec<(String, String)>, cwd: &Option<String>) -> (r: Vec<String>)
    ensures
        string_views(r@) == setup_parts_spec(pair_views(e@), crate::remote::opt_view(*cwd)),
{
    let mut r: Vec<String> = Vec::new();
    let mut i: usize = 0;
    while i < e.len()
        invariant
            i <= e@.len(),
            string_views(r@) == pair_views(e@).subrange(0, i as int).map_values(
                |p: (Seq<char>, Seq<char>)| export_spec(p.0, p.1),
            ),
        decreases e@.len() - i,
    {
        let mut line = "export ".to_owned();
        append_str(&mut line, e[i].0.as_str());
        append_str(&mut line, "=");
        let q = shell_quote(e[i].1.as_str());
        append_str(&mut line, q.as_str());
        assert(line@ =~= export_spec(pair_views(e@)[i as int].0, pair_views(e@)[i as int].1));
        let ghost before = string_views(r@);
        let ghost lv = line@;
        r.push(line);
        assert(string_views(r@) =~= before.push(lv));
        i = i + 1;
        assert(string_views(r@) =~= pair_views(e@).subrange(0, i as int).map_values(
            |p: (Seq<char>, Seq<char>)| export_spec(p.0, p.1),
        ));
    }
    assert(pair_views(e@).subrange(0, e@.len() as int) =~= pair_views(e@));
    let ghost exports = string_views(r@);
    match cwd {
        Some(d) => {
            let mut line = "cd ".to_owned();
            let q = shell_quote(d.as_str());
            append_str(&mut line, q.as_str());
            r.push(line);
        },
        None => {},
    }
    assert(string_views(r@) =~= setup_parts_spec(pair_views(e@), crate::remote::opt_view(*cwd)));
    r
}

/// The quoted program and arguments.
fn quoted_command(program: &str, args: &Vec<String>) -> (s: String)
    ensures
        s@ == quoted_command_spec(program@, string_views(args@)),
{
    let mut s = shell_quote(program);
    if args.len() == 0 {
        return s;
    }
    let mut qs: Vec<String> = Vec::new();
    let mut i: usize = 0;
    while i < args.len()
        invariant
            i <= args@.len(),
            string_views(qs@) == string_views(args@).subrange(0, i as int).map_values(
                |a: Seq<char>| quoted_spec(a),
            ),
        decreases args@.len() - i,
    {
        let q = shell_quote(args[i].as_str());
        let ghost before = string_views(qs@);
        let ghost qv = q@;
        assert(qv == quoted_spec(string_views(args@)[i as int]));
        qs.push(q);
        assert(string_views(qs@) =~= before.push(qv));
        i = i + 1;
        assert(string_views(qs@) =~= string_views(args@).subrange(0, i as int).map_values(
            |a: Seq<char>| quoted_spec(a),
        ));
    }
    assert(string_views(args@).subrange(0, args@.len() as int) =~= string_views(args@));
    let joined = join_strings(&qs, " ");
    append_str(&mut s, " ");
    append_str(&mut s, joined.as_str());
    s
}

/// The `run-shell` script for `cmd`, framed by `separator` and `exit_marker`.
/// The environment variables are exported in the order `build_env` gives,
/// which the contract leaves open.
pub fn run_shell_script(cmd: &Command, separator: &str, exit_marker: &str) -> (s: String)
    ensures
        exists|es: Seq<(Seq<char>, Seq<char>)>|
            env_listing(es, cmd@.envs) && s@ == run_shell_script_spec(
                cmd@,
                es,
                separator@,
                exit_marker@,
            ),
{
    let e = cmd.build_env();
    let cwd = cmd.get_cwd();
    let parts = setup_parts(&e, &cwd);
    let mut setup = String::new();
    if parts.len() > 0 {
        setup = join_strings(&parts, "; ");
        append_str(&mut setup, "; ");
    }
    let args = cmd.build_args();
    let command = quoted_command(cmd.program(), &args);
    let mut s = "STDOUT_FILE=$(mktemp); STDERR_FILE=$(mktemp); ".to_owned();
    append_str(&mut s, setup.as_str());
    append_str(&mut s, command.as_str());
    append_str(
        &mut s,
        " >\"$STDOUT_FILE\" 2>\"$STDERR_FILE\"; EXIT_CODE=$?; cat \"$STDOUT_FILE\"; printf '%s\\n' '",
    );
    append_str(&mut s, separator);
    append_str(&mut s, "'; cat \"$STDERR_FILE\"; printf '%s%d\\n' '");
    append_str(&mut s, exit_marker);
    append_str(&mut s, "' \"$EXIT_CODE\"; rm -f \"$STDOUT_FILE\" \"$STDERR_FILE\"");
    proof {
        let es = pair_views(e@);
        assert(env_listing(es, cmd@.envs)) by {
            assert forall|k: Seq<char>| cmd@.envs.dom().contains(k) implies exists|i: int|
                0 <= i < es.len() && #[trigger] es[i].0 == k by {
                let i = choose|i: int| 0 <= i < e@.len() && #[trigger] e@[i].0@ == k;
                assert(es[i].0 == k);
            }
            assert forall|i: int| 0 <= i < es.len() implies #[trigger] cmd@.envs.dom().contains(
                es[i].0,
            ) && cmd@.envs[es[i].0] == es[i].1 by {
                assert(es[i].0 == e@[i].0@);
            }
            assert forall|i: int, j: int|
                0 <= i < es.len() && 0 <= j < es.len() && i != j implies es[i].0 != es[j].0 by {
                assert(es[i].0 == e@[i].0@);
                assert(es[j].0 == e@[j].0@);
            }
        }
        assert(s@ =~= run_shell_script_spec(cmd@, es, separator@, exit_marker@));
    }
    s
}

/// The output part of framed `run-shell` output: what comes before the
/// first separator (all of it when there is none), without trailing newlines.
pub open spec fn framed_stdout(raw: Seq<char>, separator: Seq<char>) -> Seq<char> {
    match find_from_spec(raw, separator, 0) {
        Some(i) => trim_end_char_spec(raw.take(i), '\n'),
        None => trim_end_char_spec(raw, '\n'),
    }
}

/// What follows the first separator.
pub open spec fn after_separator(raw: Seq<char>, separator: Seq<char>, i: int) -> Seq<char> {
    raw.skip(i + separator.len())
}

/// The error part of framed output: between the separator and the exit
/// marker, without leading and trailing newlines; all that follows the
/// separator when there is no exit marker; nothing when there is no
/// separator.
pub open spec fn framed_stderr(raw: Seq<char>, separator: Seq<char>, exit_marker: Seq<char>) -> Seq<
    char,
> {
    match find_from_spec(raw, separator, 0) {
        None => Seq::empty(),
        Some(i) => {
            let rest = after_separator(raw, separator, i);
            match find_from_spec(rest, exit_marker, 0) {
                Some(j) => trim_end_char_spec(trim_start_char_spec(rest.take(j), '\n'), '\n'),
                None => rest,
            }
        },
    }
}

/// The exit code in framed output: the number after the exit marker, read
/// with surrounding whitespace dropped; -1 when the separator or the marker
/// is missing or the number does not read as an `i32`.
pub open spec fn framed_exit_code(raw: Seq<char>, separator: Seq<char>, exit_marker: Seq<char>) -> i32 {
    match find_from_spec(raw, separator, 0) {
        None => -1i32,
        Some(i) => {
            let rest = after_separator(raw, separator, i);
            match find_from_spec(rest, exit_marker, 0) {
                Some(j) => match parse_i32_spec(trim_spec(rest.skip(j + exit_marker.len()))) {
                    Some(c) => c,
                    None => -1i32,
                },
                None => -1i32,
            }
        },
    }
}

/// Reads the output of the `run-shell` script back: the command's output,
/// its error stream and its exit code, found by the separator and the exit
/// marker the script was built with. Success means exit code 0.
pub fn parse_run_shell_output(raw: &str, separator: &str, exit_marker: &str) -> (r: CommandResult)
    ensures
        r.stdout@ == framed_stdout(raw@, separator@),
        r.stderr@ == framed_stderr(raw@, separator@, exit_marker@),
        r.exit_code == framed_exit_code(raw@, separator@, exit_marker@),
        r.success == (r.exit_code == 0),
{
    let v = chars_of(raw);
    let sep = chars_of(separator);
    match find_from(&v, &sep, 0) {
        None => {
            let k = trim_end_char_index(&v, 0, v.len(), '\n');
            assert(v@.subrange(0, v@.len() as int) =~= v@);
            let stdout = string_of_range(&v, 0, k);
            CommandResult::new(stdout, String::new(), -1)
        },
        Some(i) => {
            proof {
                lemma_find_from_bounds(v@, sep@, 0);
            }
            let n = v.len();
            assert(i + sep@.len() <= n);
            let k = trim_end_char_index(&v, 0, i, '\n');
            assert(v@.subrange(0, i as int) =~= v@.take(i as int));
            let stdout = string_of_range(&v, 0, k);
            let a = i + sep.len();
            let rest_s = string_of_range(&v, a, v.len());
            let rest = chars_of(rest_s.as_str());
            assert(rest@ =~= after_separator(raw@, separator@, i as int));
            let marker = chars_of(exit_marker);
            match find_from(&rest, &marker, 0) {
                None => CommandResult::new(stdout, rest_s, -1),
                Some(j) => {
                    proof {
                        lemma_find_from_bounds(rest@, marker@, 0);
                    }
                    let k1 = trim_start_char_index(&rest, 0, j, '\n');
                    let k2 = trim_end_char_index(&rest, k1, j, '\n');
                    assert(rest@.subrange(0, j as int) =~= rest@.take(j as int));
                    let stderr = string_of_range(&rest, k1, k2);
                    let b = j + marker.len();
                    let code_text = trim_range(&rest, b, rest.len());
                    assert(rest@.subrange(b as int, rest@.len() as int) =~= rest@.skip(b as int));
                    let code = match parse_i32(code_text.as_str()) {
                        Some(c) => c,
                        None => -1,
                    };
                    CommandResult::new(stdout, stderr, code)
                },
            }
        },
    }
}

/// What the `run-shell` script prints for a command that wrote `out` on its
/// output and `err` on its error stream and exited with `code`.
pub open spec fn script_output_spec(
    out: Seq<char>,
    err: Seq<char>,
    code: i32,
    separator: Seq<char>,
    exit_marker: Seq<char>,
) -> Seq<char> {
    out + separator + seq!['\n'] + err + exit_marker + decimal_spec(code as int) + seq!['\n']
}

/// `needle` occurs nowhere in `hay` at a position before `p`.
pub open spec fn absent_before(hay: Seq<char>, needle: Seq<char>, p: int) -> bool {
    forall|i: int| 0 <= i < p ==> !#[trigger] occurs_at(hay, needle, i)
}

/// The first occurrence at or after `start` is the one at `p` when there
/// is none before it.
proof fn lemma_find_first(hay: Seq<char>, needle: Seq<char>, start: int, p: int)
    requires
        0 <= start <= p,
        occurs_at(hay, needle, p),
        absent_before(hay, needle, p),
    ensures
        find_from_spec(hay, needle, start) == Some(p),
    decreases p - start,
{
    if start < p {
        lemma_find_first(hay, needle, start + 1, p);
    }
}

/// Reading back what the `run-shell` script printed gives the command's
/// output (without trailing newlines), its error stream (without leading and
/// trailing newlines) and its exit code, as long as the output does not
/// contain the separator and the error stream does not contain the exit
/// marker; the random markers make that all but certain.
pub proof fn law_framed_output_read_back(
    out: Seq<char>,
    err: Seq<char>,
    code: i32,
    separator: Seq<char>,
    exit_marker: Seq<char>,
)
    requires
        absent_before(
            script_output_spec(out, err, code, separator, exit_marker),
            separator,
            out.len() as int,
        ),
        absent_before(
            seq!['\n'] + err + exit_marker + decimal_spec(code as int) + seq!['\n'],
            exit_marker,
            err.len() as int + 1,
        ),
    ensures
        framed_stdout(script_output_spec(out, err, code, separator, exit_marker), separator)
            == trim_end_char_spec(out, '\n'),
        framed_stderr(script_output_spec(out, err, code, separator, exit_marker), separator, exit_marker)
            == trim_end_char_spec(trim_start_char_spec(err, '\n'), '\n'),
        framed_exit_code(script_output_spec(out, err, code, separator, exit_marker), separator, exit_marker)
            == code,
{
    let raw = script_output_spec(out, err, code, separator, exit_marker);
    let dec = decimal_spec(code as int);
    let nl = seq!['\n'];
    assert(raw.subrange(out.len() as int, out.len() + separator.len() as int) =~= separator);
    lemma_find_first(raw, separator, 0, out.len() as int);
    assert(raw.take(out.len() as int) =~= out);
    let rest = after_separator(raw, separator, out.len() as int);
    let r2 = nl + err + exit_marker + dec + nl;
    assert(rest =~= r2);
    let j: int = err.len() as int + 1;
    assert(r2.subrange(j, j + exit_marker.len() as int) =~= exit_marker);
    lemma_find_first(r2, exit_marker, 0, j);
    let head = r2.take(j);
    assert(head =~= nl + err);
    assert(head.drop_first() =~= err);
    assert(trim_start_char_spec(head, '\n') == trim_start_char_spec(err, '\n'));
    let tail = r2.skip(j + exit_marker.len() as int);
    assert(tail =~= dec + nl);
    law_parse_i32_reads_decimal(code);
    if code < 0 {
        lemma_digits_of((-(code as int)) as nat);
    } else {
        lemma_digits_of(code as nat);
    }
    assert(tail.drop_last() =~= dec);
    assert(is_unicode_whitespace(tail.last()));
    assert(dec.len() >= 1);
    assert(is_ascii_digit(dec.last()));
    assert(!is_unicode_whitespace(dec.last()));
    assert(trim_end_spec(dec) == dec);
    assert(trim_end_spec(tail) == dec);
    assert(dec[0] == '-' || is_ascii_digit(dec[0]));
    assert(trim_start_spec(dec) == dec);
    assert(trim_spec(tail) == dec);
}

/// The result of a command whose `run-shell` call failed: no output, the
/// failure as the error stream, exit code -1.
pub open spec fn run_shell_failure_text(e: CreateError) -> Seq<char> {
    "Failed to run command in tmux: "@ + create_error_text(e)
}

/// A command framed for `run-shell`: the script and the two markers that
/// frame its output.
#[derive(Debug, Clone)]
pub struct RunShellPlan {
    pub script: String,
    pub separator: String,
    pub exit_marker: String,
}

/// The separator for a marker id: `===SEP_<id>===`.
pub open spec fn separator_spec(id: Seq<char>) -> Seq<char> {
    "===SEP_"@ + id + "==="@
}

/// The exit marker for a marker id: `===EXIT_<id>===`.
pub open spec fn exit_marker_spec(id: Seq<char>) -> Seq<char> {
    "===EXIT_"@ + id + "==="@
}

/// Frames `cmd` for `run-shell` with two fresh random markers, so that the
/// command's own output cannot be mistaken for them.
pub fn plan_run_shell(cmd: &Command) -> (p: RunShellPlan)
    ensures
        exists|id: Seq<char>| is_simple_v4_uuid(id) && p.separator@ == separator_spec(id),
        exists|id: Seq<char>| is_simple_v4_uuid(id) && p.exit_marker@ == exit_marker_spec(id),
        exists|es: Seq<(Seq<char>, Seq<char>)>|
            env_listing(es, cmd@.envs) && p.script@ == run_shell_script_spec(
                cmd@,
                es,
                p.separator@,
                p.exit_marker@,
            ),
{
    let id1 = new_uuid_simple();
    let mut separator = "===SEP_".to_owned();
    append_str(&mut separator, id1.as_str());
    append_str(&mut separator, "===");
    let id2 = new_uuid_simple();
    let mut exit_marker = "===EXIT_".to_owned();
    append_str(&mut exit_marker, id2.as_str());
    append_str(&mut exit_marker, "===");
    let script = run_shell_script(cmd, separator.as_str(), exit_marker.as_str());
    RunShellPlan { script, separator, exit_marker }
}

/// What a command run through `run-shell` gave: the framed output read back
/// when tmux ran the script, else a failure carrying tmux's error.
pub fn run_shell_result(plan: &RunShellPlan, output: Result<String, CreateError>) -> (r: CommandResult)
    ensures
        match output {
            Ok(raw) => {
                &&& r.stdout@ == framed_stdout(raw@, plan.separator@)
                &&& r.stderr@ == framed_stderr(raw@, plan.separator@, plan.exit_marker@)
                &&& r.exit_code == framed_exit_code(raw@, plan.separator@, plan.exit_marker@)
                &&& r.success == (r.exit_code == 0)
            },
            Err(e) => {
                &&& r.stdout@ == Seq::<char>::empty()
                &&& r.stderr@ == run_shell_failure_text(e)
                &&& r.exit_code == -1
                &&& !r.success
            },
        },
{
    match output {
        Ok(raw) => parse_run_shell_output(raw.as_str(), plan.separator.as_str(), plan.exit_marker.as_str()),
        Err(e) => {
            let mut stderr = "Failed to run command in tmux: ".to_owned();
            let m = e.message();
            append_str(&mut stderr, m.as_str());
            CommandResult::new(String::new(), stderr, -1)
        },
    }
}

/// The statements of the line typed into a tmux pane to run a command:
/// the exports, a `cd` into the working directory (quoted but not escaped),
/// then the program and its arguments separated by spaces.
pub open spec fn typed_parts_spec(cmd: crate::command::CommandView, es: Seq<(Seq<char>, Seq<char>)>) -> Seq<
    Seq<char>,
> {
    es.map_values(|p: (Seq<char>, Seq<char>)| export_spec(p.0, p.1)) + match cmd.working_dir {
        Some(d) => seq!["cd '"@ + d + "'"@],
        None => Seq::empty(),
    } + seq![
        cmd.program + if cmd.args.len() == 0 {
            Seq::empty()
        } else {
            " "@ + join_spec(cmd.args, " "@)
        },
    ]
}

/// The line typed into a tmux pane to run `cmd`, with the environment
/// listed as `es`: its statements joined by `; `.
pub open spec fn typed_command_spec(cmd: crate::command::CommandView, es: Seq<(Seq<char>, Seq<char>)>) -> Seq<
    char,
> {
    join_spec(typed_parts_spec(cmd, es), "; "@)
}

/// The line typed into a tmux pane (with `send-keys`) to run `cmd` there.
pub fn typed_command(cmd: &Command) -> (s: String)
    ensures
        exists|es: Seq<(Seq<char>, Seq<char>)>|
            env_listing(es, cmd@.envs) && s@ == typed_command_spec(cmd@, es),
{
    let e = cmd.build_env();
    let mut parts: Vec<String> = Vec::new();
    let mut i: usize = 0;
    while i < e.len()
        invariant
            i <= e@.len(),
            string_views(parts@) == pair_views(e@).subrange(0, i as int).map_values(
                |p: (Seq<char>, Seq<char>)| export_spec(p.0, p.1),
            ),
        decreases e@.len() - i,
    {
        let mut line = "export ".to_owned();
        append_str(&mut line, e[i].0.as_str());
        append_str(&mut line, "=");
        let q = shell_quote(e[i].1.as_str());
        append_str(&mut line, q.as_str());
        assert(line@ =~= export_spec(pair_views(e@)[i as int].0, pair_views(e@)[i as int].1));
        let ghost before = string_views(parts@);
        let ghost lv = line@;
        parts.push(line);
        assert(string_views(parts@) =~= before.push(lv));
        i = i + 1;
        assert(string_views(parts@) =~= pair_views(e@).subrange(0, i as int).map_values(
            |p: (Seq<char>, Seq<char>)| export_spec(p.0, p.1),
        ));
    }
    assert(pair_views(e@).subrange(0, e@.len() as int) =~= pair_views(e@));
    let ghost exports = string_views(parts@);
    let cwd = cmd.get_cwd();
    match cwd {
        Some(d) => {
            let mut line = "cd '".to_owned();
            append_str(&mut line, d.as_str());
            append_str(&mut line, "'");
            let ghost lv = line@;
            parts.push(line);
            assert(string_views(parts@) =~= exports.push(lv));
        },
        None => {},
    }
    let ghost with_cd = string_views(parts@);
    assert(with_cd =~= exports + match cmd@.working_dir {
        Some(d) => seq!["cd '"@ + d + "'"@],
        None => Seq::<Seq<char>>::empty(),
    });
    let args = cmd.build_args();
    let mut last = cmd.program().to_owned();
    if args.len() > 0 {
        let joined = join_strings(&args, " ");
        append_str(&mut last, " ");
        append_str(&mut last, joined.as_str());
    }
    let ghost lv = last@;
    assert(lv =~= cmd@.program + if cmd@.args.len() == 0 {
        Seq::<char>::empty()
    } else {
        " "@ + join_spec(cmd@.args, " "@)
    });
    parts.push(last);
    assert(string_views(parts@) =~= with_cd.push(lv));
    let s = join_strings(&parts, "; ");
    proof {
        let es = pair_views(e@);
        assert(env_listing(es, cmd@.envs)) by {
            assert forall|k: Seq<char>| cmd@.envs.dom().contains(k) implies exists|i: int|
                0 <= i < es.len() && #[trigger] es[i].0 == k by {
                let i = choose|i: int| 0 <= i < e@.len() && #[trigger] e@[i].0@ == k;
                assert(es[i].0 == k);
            }
            assert forall|i: int| 0 <= i < es.len() implies #[trigger] cmd@.envs.dom().contains(
                es[i].0,
            ) && cmd@.envs[es[i].0] == es[i].1 by {
                assert(es[i].0 == e@[i].0@);
            }
            assert forall|i: int, j: int|
                0 <= i < es.len() && 0 <= j < es.len() && i != j implies es[i].0 != es[j].0 by {
                assert(es[i].0 == e@[i].0@);
                assert(es[j].0 == e@[j].0@);
            }
        }
        assert(string_views(parts@) =~= typed_parts_spec(cmd@, es));
        assert(s@ == typed_command_spec(cmd@, es));
    }
    s
}

} // verus!
