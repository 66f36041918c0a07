use test_descriptors::changes::{FileChange, StagedBuilder, UnstagedBuilder};
use test_descriptors::context::CreateContext;
use test_descriptors::error::{git_command_failure, git_failure, CreateError};
use test_descriptors::git_builders::{BranchBuilder, CommitBuilder, GitBuilder};
use test_descriptors::paths::join_path;
use test_descriptors::registry::{ResourceRegistry, TmuxSessionInfo};
use test_descriptors::remote::{
    validate_branch_name, RemoteBranchDescriptor, RemoteCommitDescriptor, RemoteDescriptor,
};
use test_descriptors::repo::{
    BranchDescriptor, CommitDescriptor, DirectoryDescriptor, GitRepoDescriptor, PathDescriptor,
};
use test_descriptors::tmux::{
    tmux_failure, TmuxClientDescriptor, TmuxSessionDescriptor, TmuxSocket, WindowDescriptor,
};
use test_descriptors::tmux_builders::SessionBuilder;
use test_descriptors::tree_builders::{
    DirBuilder, DirChild, HierarchicalWorktreeDescriptor, TestDirBuilder, WorktreeBuilder,
};

#[test]
fn registry_gives_back_what_was_registered() {
    let mut r = ResourceRegistry::new();
    assert_eq!(r.get_git_repo("app"), None);
    r.register_git_repo("app".to_string(), "/t/app".to_string());
    r.register_git_repo("lib".to_string(), "/t/lib".to_string());
    r.register_git_repo("app".to_string(), "/t/app2".to_string());
    assert_eq!(r.get_git_repo("app").map(|s| s.as_str()), Some("/t/app2"));
    assert_eq!(r.get_git_repo("lib").map(|s| s.as_str()), Some("/t/lib"));
    r.register_worktree("app".to_string(), "feat".to_string(), "/t/feat".to_string());
    assert_eq!(r.get_worktree("app", "feat").map(|s| s.as_str()), Some("/t/feat"));
    assert_eq!(r.get_worktree("app", "main"), None);
    assert_eq!(r.get_worktree("lib", "feat"), None);
    r.register_dir("d".to_string(), "/t/d".to_string());
    assert_eq!(r.get_dir("d").map(|s| s.as_str()), Some("/t/d"));
    assert_eq!(r.get_dir("app"), None);
    r.register_tmux_session(
        "s".to_string(),
        TmuxSessionInfo { name: "s".to_string(), working_dir: "/t".to_string() },
    );
    let info = r.get_tmux_session("s").unwrap();
    assert_eq!((info.name.as_str(), info.working_dir.as_str()), ("s", "/t"));
    assert!(r.get_tmux_session("x").is_none());
    let d = ResourceRegistry::default();
    assert!(d.get_dir("d").is_none());
}

#[test]
fn context_settings_and_resources() {
    let mut c = CreateContext::new("/root".to_string());
    assert_eq!(c.root_path(), "/root");
    assert_eq!(c.tmux_socket(), None);
    c.set_tmux_socket("sock".to_string());
    assert_eq!(c.tmux_socket().as_deref(), Some("sock"));
    assert_eq!(c.config_path(), None);
    c.set_config_path("/cfg".to_string());
    assert_eq!(c.config_path().as_deref(), Some("/cfg"));
    c.register_resource("k".to_string(), "/p".to_string());
    assert_eq!(c.get_resource("k").as_deref(), Some("/p"));
    assert_eq!(c.get_resource("other"), None);
    assert!(!c.has_pending_client());
    c.set_pending_client(TmuxClientDescriptor::new("s".to_string(), 30, 100));
    assert!(c.has_pending_client());
    let client = c.take_pending_client().unwrap();
    assert_eq!(client.session_name(), "s");
    assert_eq!(client.pty_size(), (30, 100));
    assert!(!c.has_pending_client());
    assert!(c.take_pending_client().is_none());
    c.registry_mut().register_dir("x".to_string(), "/x".to_string());
    assert_eq!(c.registry().get_dir("x").map(|s| s.as_str()), Some("/x"));
}

#[test]
fn paths_join_like_path_join() {
    assert_eq!(join_path("/a", "b"), "/a/b");
    assert_eq!(join_path("/a/", "b"), "/a/b");
    assert_eq!(join_path("", "b"), "b");
    assert_eq!(join_path("/a", "/abs"), "/abs");
    let ctx = CreateContext::new("/tmp/root".to_string());
    assert_eq!(GitRepoDescriptor::new("repo").path(&ctx), "/tmp/root/repo");
    assert_eq!(DirectoryDescriptor::new("d").path(&ctx), "/tmp/root/d");
}

#[test]
fn remote_branches_created_after_their_bases() {
    let remote = RemoteDescriptor::new("origin")
        .with_branch(RemoteBranchDescriptor::from("c", "b"))
        .with_branch(RemoteBranchDescriptor::from("b", "a"))
        .with_branch(RemoteBranchDescriptor::new("a"))
        .with_branch(RemoteBranchDescriptor::from("d", "main"));
    // first pass: a (no base), then d (main exists); second: b; third: c
    assert_eq!(remote.creation_order(), Ok(vec![2, 3, 1, 0]));
    let linear = RemoteDescriptor::new("o")
        .with_branch(RemoteBranchDescriptor::new("x"))
        .with_branch(RemoteBranchDescriptor::from("y", "x"));
    assert_eq!(linear.creation_order(), Ok(vec![0, 1]));
    assert_eq!(RemoteDescriptor::new("empty").creation_order(), Ok(vec![]));
}

#[test]
fn remote_branches_with_missing_bases() {
    let remote = RemoteDescriptor::new("origin")
        .with_branch(RemoteBranchDescriptor::new("ok"))
        .with_branch(RemoteBranchDescriptor::from("lost", "nowhere"))
        .with_branch(RemoteBranchDescriptor::from("lost2", "lost"));
    let (done, stuck) = remote.creation_order().unwrap_err();
    assert_eq!(done, vec![0]);
    assert_eq!(stuck, vec![1, 2]);
    let blocked = RemoteDescriptor::new("b").with_branch(RemoteBranchDescriptor::from("x", "y"));
    assert_eq!(blocked.creation_order(), Err((vec![], vec![0])));
    assert_eq!(remote.missing_bases(&stuck), vec!["nowhere", "lost"]);
    assert_eq!(
        remote.creation_order_error(&stuck),
        CreateError::GitError(
            "Cannot create branches: bases not found - [\"nowhere\", \"lost\"]".to_string()
        )
    );
    assert_eq!(remote.bare_repo_dir_name("1234"), "bare-origin-1234.git");
}

#[test]
fn remote_descriptors_keep_their_parts() {
    let c = RemoteCommitDescriptor::new("msg").with_file("a.txt", "A").with_delete("b.txt");
    assert_eq!(c.message(), "msg");
    assert_eq!(c.files(), &vec![("a.txt".to_string(), "A".to_string())]);
    assert_eq!(c.deletes(), &vec!["b.txt".to_string()]);
    let b = RemoteBranchDescriptor::from("f", "main").with_commit(c);
    assert_eq!((b.name(), b.base()), ("f", Some("main")));
    assert_eq!(b.commits().len(), 1);
    let r = RemoteDescriptor::new("up").with_branch(b);
    assert_eq!(r.name(), "up");
    assert_eq!(r.branches().len(), 1);
}

#[test]
fn branch_names_are_validated() {
    assert!(validate_branch_name("feature/x").is_ok());
    for bad in ["a..b", "a~1", "a^", "a:b", "-x"] {
        assert_eq!(
            validate_branch_name(bad),
            Err(CreateError::GitError(format!(
                "Invalid branch name '{}': contains invalid characters",
                bad
            )))
        );
    }
}

#[test]
fn commit_and_branch_arguments() {
    let c = CommitDescriptor::new("Add file").with_file("f.txt", "x").pushed_to("origin");
    assert_eq!(c.commit_args(), vec!["commit", "-m", "Add file"]);
    assert_eq!(c.get_pushed_to(), Some("origin"));
    assert_eq!(c.get_pushed_as(), None);
    let c2 = c.clone().pushed_as("up", "remote-branch");
    assert_eq!(c2.get_pushed_as(), Some("remote-branch"));
    assert_eq!(c2.get_pushed_to(), Some("up"));
    assert_eq!(c2.message(), "Add file");
    assert_eq!(c2.changes().len(), 1);
    let b = BranchDescriptor::from("feat", "main").with_commit(c2);
    assert_eq!(b.checkout_args(false), vec!["checkout", "-b", "feat", "main"]);
    assert_eq!(b.checkout_args(true), vec!["checkout", "feat"]);
    assert_eq!(BranchDescriptor::new("x").checkout_args(false), vec!["checkout", "-b", "x"]);
}

#[test]
fn repository_setup() {
    let repo = GitRepoDescriptor::new("proj");
    assert_eq!(repo.initial_branch(), "main");
    assert_eq!(repo.readme_content(), "# proj\n");
    assert!(repo.needs_rename("master\n"));
    assert!(!repo.needs_rename("main\n"));
    let repo = repo.with_initial_branch("trunk").with_branch(BranchDescriptor::new("b"));
    assert!(repo.needs_rename("main"));
    assert_eq!(repo.branches().len(), 1);
    assert_eq!(repo.name(), "proj");
}

#[test]
fn change_builders() {
    let mut s = StagedBuilder::new();
    s.file("a", "1");
    s.delete("b");
    let staged = s.build();
    assert_eq!(staged.changes().len(), 2);
    assert!(matches!(&staged.changes()[1], FileChange::Delete { path } if path == "b"));
    let mut u = UnstagedBuilder::new();
    u.modify("m", "2");
    u.untracked("n", "3");
    let un = u.build();
    assert_eq!(un.modifications().len(), 1);
    assert_eq!(un.untracked(), &vec![("n".to_string(), "3".to_string())]);
}

#[test]
fn git_builder_collects_branches_and_commits() {
    let mut g = GitBuilder::new("repo", "/root".to_string());
    g.branch("feature", |b| {
        b.commit("first", |c| {
            c.file("a.txt", "A");
            c.pushed("origin");
        });
    });
    g.branch_from("fix", "feature", |_b| {});
    g.remote("origin");
    g.initial_branch("develop");
    let d = g.build();
    assert_eq!(d.name(), "repo");
    assert_eq!(d.path(), "/root/repo");
    let repo = d.repo_descriptor();
    assert_eq!(repo.initial_branch(), "develop");
    assert_eq!(repo.branches().len(), 2);
    assert_eq!(repo.branches()[0].commits()[0].get_pushed_to(), Some("origin"));
    assert_eq!(repo.branches()[1].base(), Some("feature"));
    assert_eq!(repo.remotes().len(), 1);
    let mut cb = CommitBuilder::new("m");
    cb.delete("gone");
    cb.pushed_as("o", "b");
    let c = cb.build();
    assert_eq!(c.get_pushed_as(), Some("b"));
    assert_eq!(c.get_pushed_to(), Some("o"));
    let bb = BranchBuilder::from("n", "main");
    assert_eq!(bb.build().base(), Some("main"));
}

#[test]
fn worktrees_and_directories() {
    assert_eq!(HierarchicalWorktreeDescriptor::branch_to_dirname("feature/test"), "feature-test");
    let mut w = WorktreeBuilder::new("repo", "main", "feature/x", "/root".to_string());
    w.commit("wip", |c| c.file("f", "x"));
    let wt = w.build();
    assert_eq!(wt.worktree_path(), "/root/feature-x");
    assert_eq!(
        wt.worktree_add_args("/root/feature-x"),
        vec!["worktree", "add", "-b", "feature/x", "/root/feature-x", "main"]
    );
    assert_eq!(wt.commits().len(), 1);
    assert_eq!(
        wt.missing_repo_error(),
        CreateError::InvalidDescriptor(
            "Git repository 'repo' not found. Worktrees must be created after their parent repository."
                .to_string()
        )
    );
    let mut t = TestDirBuilder::new("/root".to_string());
    t.dir("work", |d| {
        d.dir("inner", |_| {});
        d.git("repo", |_| {});
        d.tmux_session("s", |s| s.window("w"));
        d.git_worktree("repo", "main", "feat", |_| {});
    });
    let ds = t.into_descriptors();
    assert_eq!(ds.len(), 1);
    assert_eq!(ds[0].path(), "/root/work");
    let kids = ds[0].children();
    assert_eq!(kids.len(), 4);
    assert!(matches!(&kids[0], DirChild::Dir(d) if d.path() == "/root/work/inner"));
    let b = DirBuilder::new("x", "/p".to_string());
    assert_eq!(b.our_path(), "/p/x");
}

#[test]
fn tmux_session_commands() {
    let empty = TmuxSessionDescriptor::new("s");
    assert_eq!(empty.tmux_commands("/w"), vec![vec!["new-session", "-d", "-s", "s", "-c", "/w"]]);
    let two = TmuxSessionDescriptor::new("s")
        .with_window(WindowDescriptor::new("editor").with_command("vim"))
        .with_window(WindowDescriptor::new("shell"));
    assert_eq!(
        two.tmux_commands("/w"),
        vec![
            vec!["new-session", "-d", "-s", "s", "-n", "editor", "-c", "/w", "vim; exec $SHELL"],
            vec!["new-window", "-t", "s", "-n", "shell", "-c", "/w"],
        ]
    );
    let w = WindowDescriptor::new("e").with_command("top");
    assert_eq!(w.command().unwrap().with_persistent_shell(), "top; exec $SHELL");
    assert!(WindowDescriptor::new("x").command().is_none());
}

#[test]
fn session_builder_with_client() {
    let mut s = SessionBuilder::new("dev", "/root/work".to_string());
    s.window("one");
    s.window_with_command("two", "htop");
    s.with_client(|c| c.pty_size(40, 120));
    let d = s.build();
    assert_eq!(d.name(), "dev");
    let client = d.client_descriptor().unwrap();
    assert_eq!(client.pty_size(), (40, 120));
    assert_eq!(client.session_name(), "dev");
    assert_eq!(d.tmux_commands().len(), 2);
    assert_eq!(d.tmux_commands()[1][7], "htop; exec $SHELL");
    let info = d.session_info();
    assert_eq!((info.name.as_str(), info.working_dir.as_str()), ("dev", "/root/work"));
    let mut plain = SessionBuilder::new("p", "/r".to_string());
    plain.with_client(|_| {});
    assert_eq!(plain.build().client_descriptor().unwrap().pty_size(), (24, 80));
}

#[test]
fn tmux_sockets() {
    let s = TmuxSocket::new();
    assert!(s.name().starts_with("test-tmux-"));
    assert_eq!(s.name().len(), "test-tmux-".len() + 36);
    assert_ne!(TmuxSocket::new().name(), s.name());
    let named = TmuxSocket::from_name("mine".to_string());
    assert_eq!(named.command_args(&["list-sessions"]), vec!["-L", "mine", "list-sessions"]);
    assert_eq!(
        tmux_failure("no server running"),
        CreateError::TmuxError("Tmux command failed: no server running".to_string())
    );
    assert!(TmuxSocket::default().name().starts_with("test-tmux-"));
}

#[test]
fn error_messages() {
    assert_eq!(CreateError::IoError("x".to_string()).message(), "IO error: x");
    assert_eq!(CreateError::GitError("x".to_string()).message(), "Git error: x");
    assert_eq!(CreateError::TmuxError("x".to_string()).message(), "Tmux error: x");
    assert_eq!(CreateError::InvalidDescriptor("x".to_string()).message(), "Invalid descriptor: x");
    assert_eq!(CreateError::ResourceNotFound("x".to_string()).message(), "Resource not found: x");
}

#[test]
fn git_step_errors() {
    assert_eq!(
        git_failure("Failed to commit", "nothing to commit"),
        CreateError::GitError("Failed to commit: nothing to commit".to_string())
    );
    assert_eq!(
        git_command_failure(&vec!["push".to_string(), "origin".to_string()], "denied"),
        CreateError::GitError("Git command [\"push\", \"origin\"] failed: denied".to_string())
    );
    let b = BranchDescriptor::from("feat", "dev");
    assert_eq!(
        b.checkout_failure(true, "e"),
        CreateError::GitError("Failed to checkout existing branch feat: e".to_string())
    );
    assert_eq!(
        b.checkout_failure(false, "e"),
        CreateError::GitError("Failed to create branch from dev: e".to_string())
    );
    assert_eq!(
        BranchDescriptor::new("x").checkout_failure(false, "e"),
        CreateError::GitError("Failed to create branch: e".to_string())
    );
}

#[test]
fn tmux_socket_required_and_missing_sessions() {
    let mut c = CreateContext::new("/r".to_string());
    assert_eq!(
        c.require_tmux_socket("No tmux socket set in context"),
        Err(CreateError::InvalidDescriptor("No tmux socket set in context".to_string()))
    );
    c.set_tmux_socket("s1".to_string());
    assert_eq!(c.require_tmux_socket("unused"), Ok("s1".to_string()));
    let client = TmuxClientDescriptor::new("dev".to_string(), 24, 80);
    assert_eq!(
        client.missing_session_error(false),
        CreateError::InvalidDescriptor("Cannot attach client to non-existent session: dev".to_string())
    );
    assert_eq!(
        client.missing_session_error(true),
        CreateError::InvalidDescriptor(
            "Cannot attach client to non-existent session: dev. Make sure the session is created before the client."
                .to_string()
        )
    );
}

#[test]
fn worktree_dirnames_are_single_components() {
    for b in ["a/b/c", "plain", "/lead", "x//y"] {
        let d = HierarchicalWorktreeDescriptor::branch_to_dirname(b);
        assert!(!d.contains('/'));
        assert_eq!(d.chars().count(), b.chars().count());
    }
}
