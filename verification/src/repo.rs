//! Git repositories, their branches and commits, and plain directories, as
//! descriptions; with the git command lines that realise them.

use vstd::prelude::*;
use crate::changes::{FileChange, FileChangeView, changes_view, delete_change, push_change, write_change};
use crate::context::CreateContext;
use crate::error::CreateError;
use crate::paths::{join_path, join_spec};
use crate::remote::{RemoteDescriptor, opt_as_str, opt_str_view, opt_view};
use crate::text::{append_str, string_views, trim, trim_spec};

verus! {

/// A commit as plain text.
pub struct CommitView {
    pub message: Seq<char>,
    pub changes: Seq<FileChangeView>,
    pub pushed_to: Option<Seq<char>>,
    pub pushed_as: Option<Seq<char>>,
}

/// A commit: its message, the file changes it records, and where it is pushed.
#[derive(Debug)]
pub struct CommitDescriptor {
    message: String,
    changes: Vec<FileChange>,
    pushed_to: Option<String>,
    pushed_as: Option<String>,
}

impl View for CommitDescriptor {
    type V = CommitView;

    closed spec fn view(&self) -> CommitView {
        CommitView {
            message: self.message@,
            changes: changes_view(self.changes@),
            pushed_to: opt_view(self.pushed_to),
            pushed_as: opt_view(self.pushed_as),
        }
    }
}

impl CommitDescriptor {
    pub fn new(message: &str) -> (c: Self)
        ensures
            c@ == (CommitView {
                message: message@,
                changes: Seq::empty(),
                pushed_to: None,
                pushed_as: None,
            }),
    {
        let c = CommitDescriptor {
            message: message.to_owned(),
            changes: Vec::new(),
            pushed_to: None,
            pushed_as: None,
        };
        assert(changes_view(c.changes@) =~= Seq::<FileChangeView>::empty());
        c
    }

    pub fn with_file(self, path: &str, content: &str) -> (c: Self)
        ensures
            c@ == (CommitView { changes: self@.changes.push((path@, Some(content@))), ..self@ }),
    {
        let mut c = self;
        push_change(&mut c.changes, write_change(path, content));
        c
    }

    pub fn with_delete(self, path: &str) -> (c: Self)
        ensures
            c@ == (CommitView { changes: self@.changes.push((path@, None)), ..self@ }),
    {
        let mut c = self;
        push_change(&mut c.changes, delete_change(path));
        c
    }

    pub fn pushed_to(self, remote: &str) -> (c: Self)
        ensures
            c@ == (CommitView { pushed_to: Some(remote@), ..self@ }),
    {
        let mut c = self;
        c.pushed_to = Some(remote.to_owned());
        c
    }

    pub fn pushed_as(self, remote: &str, branch: &str) -> (c: Self)
        ensures
            c@ == (CommitView { pushed_to: Some(remote@), pushed_as: Some(branch@), ..self@ }),
    {
        let mut c = self;
        c.pushed_to = Some(remote.to_owned());
        c.pushed_as = Some(branch.to_owned());
        c
    }

    pub fn message(&self) -> (m: &str)
        ensures
            m@ == self@.message,
    {
        self.message.as_str()
    }

    pub fn changes(&self) -> (c: &Vec<FileChange>)
        ensures
            changes_view(c@) == self@.changes,
    {
        &self.changes
    }

    pub fn get_pushed_to(&self) -> (r: Option<&str>)
        ensures
            opt_str_view(r) == self@.pushed_to,
    {
        opt_as_str(&self.pushed_to)
    }

    pub fn get_pushed_as(&self) -> (r: Option<&str>)
        ensures
            opt_str_view(r) == self@.pushed_as,
    {
        opt_as_str(&self.pushed_as)
    }

    /// The git arguments that record the commit once its changes are staged.
    pub fn commit_args(&self) -> (v: Vec<String>)
        ensures
            string_views(v@) == seq!["commit"@, "-m"@, self@.message],
    {
        let mut v: Vec<String> = Vec::new();
        v.push("commit".to_owned());
        v.push("-m".to_owned());
        v.push(self.message.clone());
        assert(string_views(v@) =~= seq!["commit"@, "-m"@, self@.message]);
        v
    }
}

/// A copy of a list of file changes.
fn clone_changes(v: &Vec<FileChange>) -> (r: Vec<FileChange>)
    ensures
        changes_view(r@) == changes_view(v@),
{
    let mut r: Vec<FileChange> = Vec::new();
    let mut i: usize = 0;
    while i < v.len()
        invariant
            i <= v@.len(),
            changes_view(r@) == changes_view(v@.subrange(0, i as int)),
        decreases v@.len() - i,
    {
        let c = match &v[i] {
            FileChange::Write { path, content } => write_change(path.as_str(), content.as_str()),
            FileChange::Delete { path } => delete_change(path.as_str()),
        };
        push_change(&mut r, c);
        i = i + 1;
        assert(changes_view(r@) =~= changes_view(v@.subrange(0, i as int)));
    }
    assert(v@.subrange(0, v@.len() as int) =~= v@);
    r
}

impl Clone for CommitDescriptor {
    fn clone(&self) -> (c: Self)
        ensures
            c@ == self@,
    {
        CommitDescriptor {
            message: self.message.clone(),
            changes: clone_changes(&self.changes),
            pushed_to: crate::context::clone_opt_string(&self.pushed_to),
            pushed_as: crate::context::clone_opt_string(&self.pushed_as),
        }
    }
}

/// The views of a list of commits.
pub open spec fn commits_view(v: Seq<CommitDescriptor>) -> Seq<CommitView> {
    v.map_values(|c: CommitDescriptor| c@)
}

/// A branch as plain text.
pub struct BranchView {
    pub name: Seq<char>,
    pub base: Option<Seq<char>>,
    pub commits: Seq<CommitView>,
}

/// A branch: its name, the branch it starts from (if not the current one)
/// and the commits made on it.
#[derive(Debug)]
pub struct BranchDescriptor {
    name: String,
    base: Option<String>,
    commits: Vec<CommitDescriptor>,
}

impl View for BranchDescriptor {
    type V = BranchView;

    closed spec fn view(&self) -> BranchView {
        BranchView {
            name: self.name@,
            base: opt_view(self.base),
            commits: commits_view(self.commits@),
        }
    }
}

/// The git arguments that switch a repository to a branch: check out an
/// existing branch, or create it from its base or from the current head.
pub open spec fn checkout_args_spec(exists: bool, name: Seq<char>, base: Option<Seq<char>>) -> Seq<
    Seq<char>,
> {
    if exists {
        seq!["checkout"@, name]
    } else {
        match base {
            Some(b) => seq!["checkout"@, "-b"@, name, b],
            None => seq!["checkout"@, "-b"@, name],
        }
    }
}

impl BranchDescriptor {
    pub fn new(name: &str) -> (b: Self)
        ensures
            b@ == (BranchView { name: name@, base: None, commits: Seq::empty() }),
    {
        let b = BranchDescriptor { name: name.to_owned(), base: None, commits: Vec::new() };
        assert(commits_view(b.commits@) =~= Seq::<CommitView>::empty());
        b
    }

    pub fn from(name: &str, base: &str) -> (b: Self)
        ensures
            b@ == (BranchView { name: name@, base: Some(base@), commits: Seq::empty() }),
    {
        let b = BranchDescriptor {
            name: name.to_owned(),
            base: Some(base.to_owned()),
            commits: Vec::new(),
        };
        assert(commits_view(b.commits@) =~= Seq::<CommitView>::empty());
        b
    }

    pub fn with_commit(self, commit: CommitDescriptor) -> (b: Self)
        ensures
            b@ == (BranchView { commits: self@.commits.push(commit@), ..self@ }),
    {
        let mut b = self;
        b.commits.push(commit);
        assert(commits_view(b.commits@) =~= commits_view(self.commits@).push(commit@));
        b
    }

    pub fn name(&self) -> (n: &str)
        ensures
            n@ == self@.name,
    {
        self.name.as_str()
    }

    pub fn base(&self) -> (b: Option<&str>)
        ensures
            opt_str_view(b) == self@.base,
    {
        opt_as_str(&self.base)
    }

    pub fn commits(&self) -> (c: &Vec<CommitDescriptor>)
        ensures
            commits_view(c@) == self@.commits,
    {
        &self.commits
    }

    /// The git arguments that switch to this branch, given whether it exists.
    pub fn checkout_args(&self, exists: bool) -> (v: Vec<String>)
        ensures
            string_views(v@) == checkout_args_spec(exists, self@.name, self@.base),
    {
        let mut v: Vec<String> = Vec::new();
        v.push("checkout".to_owned());
        if exists {
            v.push(self.name.clone());
        } else {
            v.push("-b".to_owned());
            v.push(self.name.clone());
            match &self.base {
                Some(b) => v.push(b.clone()),
                None => {},
            }
        }
        assert(string_views(v@) =~= checkout_args_spec(exists, self@.name, self@.base));
        v
    }
}

/// A copy of a list of commits.
fn clone_commits(v: &Vec<CommitDescriptor>) -> (r: Vec<CommitDescriptor>)
    ensures
        commits_view(r@) == commits_view(v@),
{
    let mut r: Vec<CommitDescriptor> = Vec::new();
    let mut i: usize = 0;
    while i < v.len()
        invariant
            i <= v@.len(),
            commits_view(r@) == commits_view(v@.subrange(0, i as int)),
        decreases v@.len() - i,
    {
        let c = v[i].clone();
        let ghost old_r = r@;
        r.push(c);
        assert(commits_view(r@) =~= commits_view(old_r).push(c@));
        i = i + 1;
        assert(commits_view(r@) =~= commits_view(v@.subrange(0, i as int)));
    }
    assert(v@.subrange(0, v@.len() as int) =~= v@);
    r
}

/// The error when switching to a branch failed: which switch failed (to an
/// existing branch, to a new one from its base, to a new one from the
/// current head), then git's error stream.
pub open spec fn checkout_failure_spec(
    exists: bool,
    name: Seq<char>,
    base: Option<Seq<char>>,
    stderr: Seq<char>,
) -> Seq<char> {
    if exists {
        "Failed to checkout existing branch "@ + name + ": "@ + stderr
    } else {
        match base {
            Some(b) => "Failed to create branch from "@ + b + ": "@ + stderr,
            None => "Failed to create branch: "@ + stderr,
        }
    }
}

impl BranchDescriptor {
    /// The error for a failed switch to this branch (see [`checkout_failure_spec`]).
    pub fn checkout_failure(&self, exists: bool, stderr: &str) -> (e: CreateError)
        ensures
            e == CreateError::GitError(e->GitError_0) && e->GitError_0@ == checkout_failure_spec(
                exists,
                self@.name,
                self@.base,
                stderr@,
            ),
    {
        let mut m = String::new();
        if exists {
            m = "Failed to checkout existing branch ".to_owned();
            append_str(&mut m, self.name.as_str());
            append_str(&mut m, ": ");
        } else {
            match &self.base {
                Some(b) => {
                    m = "Failed to create branch from ".to_owned();
                    append_str(&mut m, b.as_str());
                    append_str(&mut m, ": ");
                },
                None => {
                    m = "Failed to create branch: ".to_owned();
                },
            }
        }
        append_str(&mut m, stderr);
        CreateError::GitError(m)
    }
}

impl Clone for BranchDescriptor {
    fn clone(&self) -> (b: Self)
        ensures
            b@ == self@,
    {
        BranchDescriptor {
            name: self.name.clone(),
            base: crate::context::clone_opt_string(&self.base),
            commits: clone_commits(&self.commits),
        }
    }
}

/// The views of a list of branches.
pub open spec fn branches_view(v: Seq<BranchDescriptor>) -> Seq<BranchView> {
    v.map_values(|b: BranchDescriptor| b@)
}

/// The name given to the initial branch when none is chosen.
pub open spec fn default_initial_branch() -> Seq<char> {
    "main"@
}

/// A path that a descriptor creates, given the context it is created in.
pub trait PathDescriptor {
    fn path(&self, context: &CreateContext) -> String;
}

/// A git repository directly under the root of the environment.
#[derive(Debug)]
pub struct GitRepoDescriptor {
    name: String,
    branches: Vec<BranchDescriptor>,
    remotes: Vec<RemoteDescriptor>,
    initial_branch: String,
}

/// A repository as plain text (its remotes as descriptors).
pub struct GitRepoView {
    pub name: Seq<char>,
    pub branches: Seq<BranchView>,
    pub remotes: Seq<RemoteDescriptor>,
    pub initial_branch: Seq<char>,
}

impl View for GitRepoDescriptor {
    type V = GitRepoView;

    closed spec fn view(&self) -> GitRepoView {
        GitRepoView {
            name: self.name@,
            branches: branches_view(self.branches@),
            remotes: self.remotes@,
            initial_branch: self.initial_branch@,
        }
    }
}

impl GitRepoDescriptor {
    pub fn new(name: &str) -> (r: Self)
        ensures
            r@ == (GitRepoView {
                name: name@,
                branches: Seq::empty(),
                remotes: Seq::empty(),
                initial_branch: default_initial_branch(),
            }),
    {
        let r = GitRepoDescriptor {
            name: name.to_owned(),
            branches: Vec::new(),
            remotes: Vec::new(),
            initial_branch: "main".to_owned(),
        };
        assert(branches_view(r.branches@) =~= Seq::<BranchView>::empty());
        r
    }

    pub fn with_branch(self, branch: BranchDescriptor) -> (r: Self)
        ensures
            r@ == (GitRepoView { branches: self@.branches.push(branch@), ..self@ }),
    {
        let mut r = self;
        r.branches.push(branch);
        assert(branches_view(r.branches@) =~= branches_view(self.branches@).push(branch@));
        r
    }

    pub fn with_remote(self, remote: RemoteDescriptor) -> (r: Self)
        ensures
            r@ == (GitRepoView { remotes: self@.remotes.push(remote), ..self@ }),
    {
        let mut r = self;
        r.remotes.push(remote);
        r
    }

    pub fn with_initial_branch(self, branch: &str) -> (r: Self)
        ensures
            r@ == (GitRepoView { initial_branch: branch@, ..self@ }),
    {
        let mut r = self;
        r.initial_branch = branch.to_owned();
        r
    }

    pub fn name(&self) -> (n: &str)
        ensures
            n@ == self@.name,
    {
        self.name.as_str()
    }

    pub fn branches(&self) -> (b: &Vec<BranchDescriptor>)
        ensures
            branches_view(b@) == self@.branches,
    {
        &self.branches
    }

    pub fn remotes(&self) -> (r: &Vec<RemoteDescriptor>)
        ensures
            r@ == self@.remotes,
    {
        &self.remotes
    }

    pub fn initial_branch(&self) -> (b: &str)
        ensures
            b@ == self@.initial_branch,
    {
        self.initial_branch.as_str()
    }

    /// The content of the README.md of the initial commit: `# <name>` and a newline.
    pub fn readme_content(&self) -> (s: String)
        ensures
            s@ == "# "@ + self@.name + "\n"@,
    {
        let mut s = "# ".to_owned();
        append_str(&mut s, self.name.as_str());
        append_str(&mut s, "\n");
        s
    }

    /// Whether the branch git started with must be renamed to the initial
    /// branch, given what `git branch --show-current` printed.
    pub fn needs_rename(&self, current_branch_output: &str) -> (b: bool)
        ensures
            b == (trim_spec(current_branch_output@) != self@.initial_branch),
    {
        let current = trim(current_branch_output);
        !(current == self.initial_branch)
    }
}

impl PathDescriptor for GitRepoDescriptor {
    /// The repository's directory: the root path joined with its name.
    fn path(&self, context: &CreateContext) -> (p: String)
        ensures
            p@ == join_spec(context.spec_root_path(), self@.name),
    {
        join_path(context.root_path().as_str(), self.name.as_str())
    }
}

/// A plain directory directly under the root of the environment.
#[derive(Debug)]
pub struct DirectoryDescriptor {
    name: String,
}

impl DirectoryDescriptor {
    pub closed spec fn spec_name(&self) -> Seq<char> {
        self.name@
    }

    pub fn new(name: &str) -> (d: Self)
        ensures
            d.spec_name() == name@,
    {
        DirectoryDescriptor { name: name.to_owned() }
    }

    pub fn name(&self) -> (n: &str)
        ensures
            n@ == self.spec_name(),
    {
        self.name.as_str()
    }
}

impl PathDescriptor for DirectoryDescriptor {
    /// The directory: the root path joined with its name.
    fn path(&self, context: &CreateContext) -> (p: String)
        ensures
            p@ == join_spec(context.spec_root_path(), self.spec_name()),
    {
        join_path(context.root_path().as_str(), self.name.as_str())
    }
}

} // verus!
