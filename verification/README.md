# test_descriptors

Declarative test environments for command-line and terminal programs:
directories, git repositories (with branches, commits, remotes and
worktrees) and tmux sessions described with builders, created in a
temporary directory with a private tmux server, and testers that run
commands or terminal applications in them and check what they print.

Layout:

- `src/` — the verified library (Verus): the descriptors and builders, the
  registry of created resources, the plans of git and tmux calls, the
  framing and reading of command output run through `tmux run-shell`, the
  terminal screen model (text search, cells, colors), the color and order
  checks, and the decisions of the testers (settling, waiting for text).
- `tests/` — tests of the library on concrete values.
- `app/` — the parts that touch the machine: running git, tmux and
  processes, pseudo-terminals, the terminal emulator, the temporary
  directory and the test environment that ties them together.
