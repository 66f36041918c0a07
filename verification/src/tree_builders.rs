//! Builders for the directory tree of a test environment: directories that
//! hold further directories, git repositories, tmux sessions and worktrees.

use vstd::prelude::*;
use crate::error::CreateError;
use crate::git_builders::{
    CommitBuilder, CommitBuilderView, GitBuilder, GitBuilderView, HierarchicalGitRepoDescriptor,
    commit_of_builder, fresh_commit_builder,
};
use crate::paths::{join_path, join_spec};
use crate::repo::{CommitDescriptor, CommitView, commits_view};
use crate::text::{append_str, replace_char, replace_char_spec, string_views};
use crate::tmux_builders::{HierarchicalTmuxSessionDescriptor, SessionBuilder, SessionBuilderView};

verus! {

/// A worktree builder as plain text.
pub struct WorktreeView {
    pub repo_name: Seq<char>,
    pub base_branch: Seq<char>,
    pub branch: Seq<char>,
    pub parent_path: Seq<char>,
    pub commits: Seq<CommitView>,
}

/// Builder for a git worktree made from an existing repository.
pub struct WorktreeBuilder {
    repo_name: String,
    base_branch: String,
    branch: String,
    parent_path: String,
    commits: Vec<CommitDescriptor>,
}

impl View for WorktreeBuilder {
    type V = WorktreeView;

    closed spec fn view(&self) -> WorktreeView {
        WorktreeView {
            repo_name: self.repo_name@,
            base_branch: self.base_branch@,
            branch: self.branch@,
            parent_path: self.parent_path@,
            commits: commits_view(self.commits@),
        }
    }
}

impl WorktreeBuilder {
    pub fn new(repo_name: &str, base_branch: &str, branch: &str, parent_path: String) -> (b: Self)
        ensures
            b@ == (WorktreeView {
                repo_name: repo_name@,
                base_branch: base_branch@,
                branch: branch@,
                parent_path: parent_path@,
                commits: Seq::empty(),
            }),
    {
        let b = WorktreeBuilder {
            repo_name: repo_name.to_owned(),
            base_branch: base_branch.to_owned(),
            branch: branch.to_owned(),
            parent_path,
            commits: Vec::new(),
        };
        assert(b@.commits =~= Seq::<CommitView>::empty());
        b
    }

    /// Adds a commit to the worktree, configured by `f`.
    pub fn commit<F>(&mut self, message: &str, f: F) where F: FnOnce(&mut CommitBuilder)
        requires
            forall|b: &mut CommitBuilder| f.requires((b,)),
        ensures
            exists|b: &mut CommitBuilder|
                (*b)@ == fresh_commit_builder(message@) && f.ensures((b,), ()) && final(self)@
                    == (WorktreeView {
                    commits: old(self)@.commits.push(commit_of_builder((*final(b))@)),
                    ..old(self)@
                }),
    {
        let mut builder = CommitBuilder::new(message);
        let r = &mut builder;
        let ghost gr = r;
        f(r);
        let ghost x = choose|x: &mut CommitBuilder|
            *x == *gr && f.ensures((x,), ()) && builder == *final(x);
        let c = builder.build();
        self.commits.push(c);
        assert(self@.commits =~= old(self)@.commits.push(c@));
    }

    pub fn build(self) -> (d: HierarchicalWorktreeDescriptor)
        ensures
            d@ == self@,
    {
        HierarchicalWorktreeDescriptor {
            repo_name: self.repo_name,
            base_branch: self.base_branch,
            branch: self.branch,
            parent_path: self.parent_path,
            commits: self.commits,
        }
    }
}

/// A git worktree that knows where it is created.
#[derive(Debug)]
pub struct HierarchicalWorktreeDescriptor {
    repo_name: String,
    base_branch: String,
    branch: String,
    parent_path: String,
    commits: Vec<CommitDescriptor>,
}

impl View for HierarchicalWorktreeDescriptor {
    type V = WorktreeView;

    closed spec fn view(&self) -> WorktreeView {
        WorktreeView {
            repo_name: self.repo_name@,
            base_branch: self.base_branch@,
            branch: self.branch@,
            parent_path: self.parent_path@,
            commits: commits_view(self.commits@),
        }
    }
}

/// The directory name of a worktree for `branch`: every `/` becomes `-`
/// (`feature/test` gives `feature-test`).
pub open spec fn branch_dirname_spec(branch: Seq<char>) -> Seq<char> {
    replace_char_spec(branch, '/', '-')
}

impl HierarchicalWorktreeDescriptor {
    /// Converts a branch name to a directory name (see [`branch_dirname_spec`]).
    pub fn branch_to_dirname(branch: &str) -> (s: String)
        ensures
            s@ == branch_dirname_spec(branch@),
    {
        replace_char(branch, '/', '-')
    }

    pub fn repo_name(&self) -> (n: &str)
        ensures
            n@ == self@.repo_name,
    {
        self.repo_name.as_str()
    }

    pub fn branch(&self) -> (n: &str)
        ensures
            n@ == self@.branch,
    {
        self.branch.as_str()
    }

    pub fn commits(&self) -> (c: &Vec<CommitDescriptor>)
        ensures
            commits_view(c@) == self@.commits,
    {
        &self.commits
    }

    /// Where the worktree is checked out: the parent directory joined with
    /// the branch's directory name.
    pub fn worktree_path(&self) -> (p: String)
        ensures
            p@ == join_spec(self@.parent_path, branch_dirname_spec(self@.branch)),
    {
        let dirname = Self::branch_to_dirname(self.branch.as_str());
        join_path(self.parent_path.as_str(), dirname.as_str())
    }

    /// The git arguments, run in the repository, that create the worktree at
    /// `worktree_path` on a new branch made from the base branch.
    pub fn worktree_add_args(&self, worktree_path: &str) -> (v: Vec<String>)
        ensures
            string_views(v@) == seq![
                "worktree"@,
                "add"@,
                "-b"@,
                self@.branch,
                worktree_path@,
                self@.base_branch,
            ],
    {
        let mut v: Vec<String> = Vec::new();
        v.push("worktree".to_owned());
        v.push("add".to_owned());
        v.push("-b".to_owned());
        v.push(self.branch.clone());
        v.push(worktree_path.to_owned());
        v.push(self.base_branch.clone());
        assert(string_views(v@) =~= seq![
            "worktree"@,
            "add"@,
            "-b"@,
            self@.branch,
            worktree_path@,
            self@.base_branch,
        ]);
        v
    }

    /// The error when the worktree's repository has not been created (yet).
    pub fn missing_repo_error(&self) -> (e: CreateError)
        ensures
            e matches CreateError::InvalidDescriptor(m) && m@ == "Git repository '"@
                + self@.repo_name
                + "' not found. Worktrees must be created after their parent repository."@,
    {
        let mut m = "Git repository '".to_owned();
        append_str(&mut m, self.repo_name.as_str());
        append_str(&mut m, "' not found. Worktrees must be created after their parent repository.");
        CreateError::InvalidDescriptor(m)
    }
}

/// Something a directory holds.
#[derive(Debug)]
pub enum DirChild {
    Dir(DirDescriptor),
    Git(HierarchicalGitRepoDescriptor),
    TmuxSession(HierarchicalTmuxSessionDescriptor),
    Worktree(HierarchicalWorktreeDescriptor),
}

/// A directory with the things inside it, in the order they are created.
#[derive(Debug)]
pub struct DirDescriptor {
    name: String,
    parent_path: String,
    children: Vec<DirChild>,
}

impl DirDescriptor {
    pub closed spec fn spec_name(&self) -> Seq<char> {
        self.name@
    }

    pub closed spec fn spec_parent_path(&self) -> Seq<char> {
        self.parent_path@
    }

    pub closed spec fn spec_children(&self) -> Seq<DirChild> {
        self.children@
    }

    pub fn name(&self) -> (n: &str)
        ensures
            n@ == self.spec_name(),
    {
        self.name.as_str()
    }

    /// Where the directory is created: its parent joined with its name.
    pub fn path(&self) -> (p: String)
        ensures
            p@ == join_spec(self.spec_parent_path(), self.spec_name()),
    {
        join_path(self.parent_path.as_str(), self.name.as_str())
    }

    /// What the directory holds, in creation order.
    pub fn children(&self) -> (c: &Vec<DirChild>)
        ensures
            c@ == self.spec_children(),
    {
        &self.children
    }
}

/// Builder for a directory and what it holds.
pub struct DirBuilder {
    name: String,
    parent_path: String,
    children: Vec<DirChild>,
}

impl DirBuilder {
    pub closed spec fn spec_name(&self) -> Seq<char> {
        self.name@
    }

    pub closed spec fn spec_parent_path(&self) -> Seq<char> {
        self.parent_path@
    }

    pub closed spec fn spec_children(&self) -> Seq<DirChild> {
        self.children@
    }

    /// The path of the directory being built.
    pub open spec fn spec_our_path(&self) -> Seq<char> {
        join_spec(self.spec_parent_path(), self.spec_name())
    }

    pub fn new(name: &str, parent_path: String) -> (b: Self)
        ensures
            b.spec_name() == name@,
            b.spec_parent_path() == parent_path@,
            b.spec_children() == Seq::<DirChild>::empty(),
    {
        DirBuilder { name: name.to_owned(), parent_path, children: Vec::new() }
    }

    /// The full path this directory will be created at.
    pub fn our_path(&self) -> (p: String)
        ensures
            p@ == self.spec_our_path(),
    {
        join_path(self.parent_path.as_str(), self.name.as_str())
    }

    /// Adds a subdirectory `name`, configured by `f`.
    pub fn dir<F>(&mut self, name: &str, f: F) where F: FnOnce(&mut DirBuilder)
        requires
            forall|b: &mut DirBuilder| f.requires((b,)),
        ensures
            final(self).spec_name() == old(self).spec_name(),
            final(self).spec_parent_path() == old(self).spec_parent_path(),
            exists|b: &mut DirBuilder|
                {
                    &&& (*b).spec_name() == name@
                    &&& (*b).spec_parent_path() == old(self).spec_our_path()
                    &&& (*b).spec_children() == Seq::<DirChild>::empty()
                    &&& f.ensures((b,), ())
                    &&& final(self).spec_children().len() == old(self).spec_children().len() + 1
                    &&& final(self).spec_children().subrange(
                        0,
                        old(self).spec_children().len() as int,
                    ) == old(self).spec_children()
                    &&& final(self).spec_children().last() matches DirChild::Dir(d)
                    &&& d.spec_name() == (*final(b)).spec_name()
                    &&& d.spec_parent_path() == (*final(b)).spec_parent_path()
                    &&& d.spec_children() == (*final(b)).spec_children()
                },
    {
        let mut builder = DirBuilder::new(name, self.our_path());
        let r = &mut builder;
        let ghost gr = r;
        f(r);
        let ghost x = choose|x: &mut DirBuilder|
            *x == *gr && f.ensures((x,), ()) && builder == *final(x);
        let d = builder.build();
        self.children.push(DirChild::Dir(d));
        assert(self.children@.subrange(0, old(self).children@.len() as int)
            =~= old(self).children@);
    }

    /// Adds a git repository `name`, configured by `f`.
    pub fn git<F>(&mut self, name: &str, f: F) where F: FnOnce(&mut GitBuilder)
        requires
            forall|b: &mut GitBuilder| f.requires((b,)),
        ensures
            final(self).spec_name() == old(self).spec_name(),
            final(self).spec_parent_path() == old(self).spec_parent_path(),
            exists|b: &mut GitBuilder|
                {
                    &&& (*b)@ == (GitBuilderView {
                        name: name@,
                        parent_path: old(self).spec_our_path(),
                        branches: Seq::empty(),
                        remotes: Seq::empty(),
                        initial_branch: None,
                    })
                    &&& f.ensures((b,), ())
                    &&& final(self).spec_children().len() == old(self).spec_children().len() + 1
                    &&& final(self).spec_children().subrange(
                        0,
                        old(self).spec_children().len() as int,
                    ) == old(self).spec_children()
                    &&& final(self).spec_children().last() matches DirChild::Git(g)
                    &&& g@.name == (*final(b))@.name
                    &&& g@.parent_path == (*final(b))@.parent_path
                    &&& g@.branches == (*final(b))@.branches
                    &&& g@.remotes == (*final(b))@.remotes
                },
    {
        let mut builder = GitBuilder::new(name, self.our_path());
        let r = &mut builder;
        let ghost gr = r;
        f(r);
        let ghost x = choose|x: &mut GitBuilder|
            *x == *gr && f.ensures((x,), ()) && builder == *final(x);
        let g = builder.build();
        self.children.push(DirChild::Git(g));
        assert(self.children@.subrange(0, old(self).children@.len() as int)
            =~= old(self).children@);
    }

    /// Adds a tmux session `name` whose working directory is this directory,
    /// configured by `f`.
    pub fn tmux_session<F>(&mut self, name: &str, f: F) where F: FnOnce(&mut SessionBuilder)
        requires
            forall|b: &mut SessionBuilder| f.requires((b,)),
        ensures
            final(self).spec_name() == old(self).spec_name(),
            final(self).spec_parent_path() == old(self).spec_parent_path(),
            exists|b: &mut SessionBuilder|
                {
                    &&& (*b)@ == (SessionBuilderView {
                        name: name@,
                        parent_path: old(self).spec_our_path(),
                        windows: Seq::empty(),
                        client: None,
                    })
                    &&& f.ensures((b,), ())
                    &&& final(self).spec_children().len() == old(self).spec_children().len() + 1
                    &&& final(self).spec_children().subrange(
                        0,
                        old(self).spec_children().len() as int,
                    ) == old(self).spec_children()
                    &&& final(self).spec_children().last() matches DirChild::TmuxSession(s)
                    &&& s.spec_name() == (*final(b))@.name
                    &&& s.spec_parent_path() == (*final(b))@.parent_path
                    &&& s.spec_windows() == (*final(b))@.windows
                },
    {
        let mut builder = SessionBuilder::new(name, self.our_path());
        let r = &mut builder;
        let ghost gr = r;
        f(r);
        let ghost x = choose|x: &mut SessionBuilder|
            *x == *gr && f.ensures((x,), ()) && builder == *final(x);
        let s = builder.build();
        self.children.push(DirChild::TmuxSession(s));
        assert(self.children@.subrange(0, old(self).children@.len() as int)
            =~= old(self).children@);
    }

    /// Adds a worktree of the (already created) repository `repo_name`, on a
    /// new branch `branch` made from `base_branch`, configured by `f`.
    pub fn git_worktree<F>(&mut self, repo_name: &str, base_branch: &str, branch: &str, f: F) where
        F: FnOnce(&mut WorktreeBuilder),

        requires
            forall|b: &mut WorktreeBuilder| f.requires((b,)),
        ensures
            final(self).spec_name() == old(self).spec_name(),
            final(self).spec_parent_path() == old(self).spec_parent_path(),
            exists|b: &mut WorktreeBuilder|
                {
                    &&& (*b)@ == (WorktreeView {
                        repo_name: repo_name@,
                        base_branch: base_branch@,
                        branch: branch@,
                        parent_path: old(self).spec_our_path(),
                        commits: Seq::empty(),
                    })
                    &&& f.ensures((b,), ())
                    &&& final(self).spec_children().len() == old(self).spec_children().len() + 1
                    &&& final(self).spec_children().subrange(
                        0,
                        old(self).spec_children().len() as int,
                    ) == old(self).spec_children()
                    &&& final(self).spec_children().last() matches DirChild::Worktree(w)
                    &&& w@ == (*final(b))@
                },
    {
        let mut builder = WorktreeBuilder::new(repo_name, base_branch, branch, self.our_path());
        let r = &mut builder;
        let ghost gr = r;
        f(r);
        let ghost x = choose|x: &mut WorktreeBuilder|
            *x == *gr && f.ensures((x,), ()) && builder == *final(x);
        let w = builder.build();
        self.children.push(DirChild::Worktree(w));
        assert(self.children@.subrange(0, old(self).children@.len() as int)
            =~= old(self).children@);
    }

    pub fn build(self) -> (d: DirDescriptor)
        ensures
            d.spec_name() == self.spec_name(),
            d.spec_parent_path() == self.spec_parent_path(),
            d.spec_children() == self.spec_children(),
    {
        DirDescriptor { name: self.name, parent_path: self.parent_path, children: self.children }
    }
}

/// Builder for the top-level directories of a test environment.
pub struct TestDirBuilder {
    parent_path: String,
    descriptors: Vec<DirDescriptor>,
}

impl TestDirBuilder {
    pub closed spec fn spec_parent_path(&self) -> Seq<char> {
        self.parent_path@
    }

    pub closed spec fn spec_descriptors(&self) -> Seq<DirDescriptor> {
        self.descriptors@
    }

    pub fn new(parent_path: String) -> (b: Self)
        ensures
            b.spec_parent_path() == parent_path@,
            b.spec_descriptors() == Seq::<DirDescriptor>::empty(),
    {
        TestDirBuilder { parent_path, descriptors: Vec::new() }
    }

    /// Adds a top-level directory `name`, configured by `f`.
    pub fn dir<F>(&mut self, name: &str, f: F) where F: FnOnce(&mut DirBuilder)
        requires
            forall|b: &mut DirBuilder| f.requires((b,)),
        ensures
            final(self).spec_parent_path() == old(self).spec_parent_path(),
            exists|b: &mut DirBuilder|
                {
                    &&& (*b).spec_name() == name@
                    &&& (*b).spec_parent_path() == old(self).spec_parent_path()
                    &&& (*b).spec_children() == Seq::<DirChild>::empty()
                    &&& f.ensures((b,), ())
                    &&& final(self).spec_descriptors().len() == old(self).spec_descriptors().len()
                        + 1
                    &&& final(self).spec_descriptors().subrange(
                        0,
                        old(self).spec_descriptors().len() as int,
                    ) == old(self).spec_descriptors()
                    &&& final(self).spec_descriptors().last().spec_name() == (*final(b)).spec_name()
                    &&& final(self).spec_descriptors().last().spec_parent_path()
                        == (*final(b)).spec_parent_path()
                    &&& final(self).spec_descriptors().last().spec_children()
                        == (*final(b)).spec_children()
                },
    {
        let mut builder = DirBuilder::new(name, self.parent_path.clone());
        let r = &mut builder;
        let ghost gr = r;
        f(r);
        let ghost x = choose|x: &mut DirBuilder|
            *x == *gr && f.ensures((x,), ()) && builder == *final(x);
        let d = builder.build();
        self.descriptors.push(d);
        assert(self.descriptors@.subrange(0, old(self).descriptors@.len() as int)
            =~= old(self).descriptors@);
    }

    /// The directories added, in order.
    pub fn into_descriptors(self) -> (v: Vec<DirDescriptor>)
        ensures
            v@ == self.spec_descriptors(),
    {
        self.descriptors
    }
}

/// A worktree's directory name is a single path component: it holds no
/// `/`, and has one character for each character of the branch name.
pub proof fn law_worktree_dirname_is_one_component(branch: Seq<char>)
    ensures
        branch_dirname_spec(branch).len() == branch.len(),
        forall|i: int| 0 <= i < branch.len() ==> #[trigger] branch_dirname_spec(branch)[i] != '/',
{
}

} // verus!
