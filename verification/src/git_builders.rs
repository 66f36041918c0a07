//! Builders for git repositories nested in a directory tree: a repository
//! with its branches, each branch with its commits.

use vstd::prelude::*;
use crate::changes::FileChangeView;
use crate::paths::{join_path, join_spec};
use crate::remote::{RemoteDescriptor, opt_view};
use crate::repo::{
    BranchDescriptor, BranchView, CommitDescriptor, CommitView, GitRepoDescriptor, GitRepoView,
    branches_view, commits_view, default_initial_branch,
};
use crate::text::string_views;

verus! {

/// A commit builder as plain text.
pub struct CommitBuilderView {
    pub message: Seq<char>,
    pub files: Seq<(Seq<char>, Seq<char>)>,
    pub deletes: Seq<Seq<char>>,
    pub pushed_to: Option<Seq<char>>,
    pub pushed_as: Option<Seq<char>>,
}

/// The commit a builder describes: its files are written first, in order,
/// then its paths deleted; it is pushed as the builder says (a branch to push
/// as counts only together with a remote).
pub open spec fn commit_of_builder(b: CommitBuilderView) -> CommitView {
    CommitView {
        message: b.message,
        changes: b.files.map_values(|f: (Seq<char>, Seq<char>)| (f.0, Some(f.1)))
            + b.deletes.map_values(|d: Seq<char>| (d, None::<Seq<char>>)),
        pushed_to: b.pushed_to,
        pushed_as: if b.pushed_to is Some {
            b.pushed_as
        } else {
            None
        },
    }
}

/// Builder for one commit.
pub struct CommitBuilder {
    message: String,
    files: Vec<(String, String)>,
    deletes: Vec<String>,
    pushed_to: Option<String>,
    pushed_as: Option<String>,
}

impl View for CommitBuilder {
    type V = CommitBuilderView;

    closed spec fn view(&self) -> CommitBuilderView {
        CommitBuilderView {
            message: self.message@,
            files: crate::changes::pairs_view(self.files@),
            deletes: string_views(self.deletes@),
            pushed_to: opt_view(self.pushed_to),
            pushed_as: opt_view(self.pushed_as),
        }
    }
}

/// A fresh commit builder for `message`.
pub open spec fn fresh_commit_builder(message: Seq<char>) -> CommitBuilderView {
    CommitBuilderView {
        message,
        files: Seq::empty(),
        deletes: Seq::empty(),
        pushed_to: None,
        pushed_as: None,
    }
}

impl CommitBuilder {
    pub fn new(message: &str) -> (b: Self)
        ensures
            b@ == fresh_commit_builder(message@),
    {
        let b = CommitBuilder {
            message: message.to_owned(),
            files: Vec::new(),
            deletes: Vec::new(),
            pushed_to: None,
            pushed_as: None,
        };
        assert(b@.files =~= Seq::<(Seq<char>, Seq<char>)>::empty());
        assert(b@.deletes =~= Seq::<Seq<char>>::empty());
        b
    }

    /// Writes `content` to `path` in the commit.
    pub fn file(&mut self, path: &str, content: &str)
        ensures
            final(self)@ == (CommitBuilderView {
                files: old(self)@.files.push((path@, content@)),
                ..old(self)@
            }),
    {
        self.files.push((path.to_owned(), content.to_owned()));
        assert(crate::changes::pairs_view(self.files@) =~= old(self)@.files.push(
            (path@, content@),
        ));
    }

    /// Deletes `path` in the commit.
    pub fn delete(&mut self, path: &str)
        ensures
            final(self)@ == (CommitBuilderView {
                deletes: old(self)@.deletes.push(path@),
                ..old(self)@
            }),
    {
        self.deletes.push(path.to_owned());
        assert(string_views(self.deletes@) =~= old(self)@.deletes.push(path@));
    }

    /// Marks the commit as pushed to `remote`.
    pub fn pushed(&mut self, remote: &str)
        ensures
            final(self)@ == (CommitBuilderView { pushed_to: Some(remote@), ..old(self)@ }),
    {
        self.pushed_to = Some(remote.to_owned());
    }

    /// Marks the commit as pushed to `remote` under the branch name `branch`.
    pub fn pushed_as(&mut self, remote: &str, branch: &str)
        ensures
            final(self)@ == (CommitBuilderView {
                pushed_to: Some(remote@),
                pushed_as: Some(branch@),
                ..old(self)@
            }),
    {
        self.pushed_to = Some(remote.to_owned());
        self.pushed_as = Some(branch.to_owned());
    }

    pub fn build(self) -> (c: CommitDescriptor)
        ensures
            c@ == commit_of_builder(self@),
    {
        let ghost v = self@;
        let mut commit = CommitDescriptor::new(self.message.as_str());
        let mut i: usize = 0;
        assert(v.files.subrange(0, 0).map_values(|f: (Seq<char>, Seq<char>)| (f.0, Some(f.1)))
            =~= Seq::<FileChangeView>::empty());
        while i < self.files.len()
            invariant
                v == self@,
                i <= self.files@.len(),
                commit@ == (CommitView {
                    message: v.message,
                    changes: v.files.subrange(0, i as int).map_values(
                        |f: (Seq<char>, Seq<char>)| (f.0, Some(f.1)),
                    ),
                    pushed_to: None,
                    pushed_as: None,
                }),
            decreases self.files@.len() - i,
        {
            let ghost before = commit@.changes;
            commit = commit.with_file(self.files[i].0.as_str(), self.files[i].1.as_str());
            i = i + 1;
            assert(commit@.changes =~= v.files.subrange(0, i as int).map_values(
                |f: (Seq<char>, Seq<char>)| (f.0, Some(f.1)),
            ));
        }
        let ghost written = commit@.changes;
        assert(v.files.subrange(0, self.files@.len() as int) =~= v.files);
        let mut j: usize = 0;
        while j < self.deletes.len()
            invariant
                v == self@,
                j <= self.deletes@.len(),
                written == v.files.map_values(|f: (Seq<char>, Seq<char>)| (f.0, Some(f.1))),
                commit@ == (CommitView {
                    message: v.message,
                    changes: written + v.deletes.subrange(0, j as int).map_values(
                        |d: Seq<char>| (d, None::<Seq<char>>),
                    ),
                    pushed_to: None,
                    pushed_as: None,
                }),
            decreases self.deletes@.len() - j,
        {
            commit = commit.with_delete(self.deletes[j].as_str());
            j = j + 1;
            assert(commit@.changes =~= written + v.deletes.subrange(0, j as int).map_values(
                |d: Seq<char>| (d, None::<Seq<char>>),
            ));
        }
        assert(v.deletes.subrange(0, self.deletes@.len() as int) =~= v.deletes);
        match &self.pushed_to {
            Some(remote) => {
                match &self.pushed_as {
                    Some(branch) => {
                        commit = commit.pushed_as(remote.as_str(), branch.as_str());
                    },
                    None => {
                        commit = commit.pushed_to(remote.as_str());
                    },
                }
            },
            None => {},
        }
        commit
    }
}

/// A branch builder as plain text.
pub struct BranchBuilderView {
    pub name: Seq<char>,
    pub base: Option<Seq<char>>,
    pub commits: Seq<CommitView>,
}

/// Builder for one branch and its commits.
pub struct BranchBuilder {
    name: String,
    base: Option<String>,
    commits: Vec<CommitDescriptor>,
}

impl View for BranchBuilder {
    type V = BranchBuilderView;

    closed spec fn view(&self) -> BranchBuilderView {
        BranchBuilderView {
            name: self.name@,
            base: opt_view(self.base),
            commits: commits_view(self.commits@),
        }
    }
}

impl BranchBuilder {
    pub fn new(name: &str) -> (b: Self)
        ensures
            b@ == (BranchBuilderView { name: name@, base: None, commits: Seq::empty() }),
    {
        let b = BranchBuilder { name: name.to_owned(), base: None, commits: Vec::new() };
        assert(b@.commits =~= Seq::<CommitView>::empty());
        b
    }

    pub fn from(name: &str, base: &str) -> (b: Self)
        ensures
            b@ == (BranchBuilderView { name: name@, base: Some(base@), commits: Seq::empty() }),
    {
        let b = BranchBuilder {
            name: name.to_owned(),
            base: Some(base.to_owned()),
            commits: Vec::new(),
        };
        assert(b@.commits =~= Seq::<CommitView>::empty());
        b
    }

    /// Adds a commit with `message`, configured by `f`.
    pub fn commit<F>(&mut self, message: &str, f: F) where F: FnOnce(&mut CommitBuilder)
        requires
            forall|b: &mut CommitBuilder| f.requires((b,)),
        ensures
            exists|b: &mut CommitBuilder|
                (*b)@ == fresh_commit_builder(message@) && f.ensures((b,), ()) && final(self)@
                    == (BranchBuilderView {
                    commits: old(self)@.commits.push(commit_of_builder((*final(b))@)),
                    ..old(self)@
                }),
    {
        let mut builder = CommitBuilder::new(message);
        let r = &mut builder;
        let ghost gr = r;
        f(r);
        let ghost x = choose|x: &mut CommitBuilder|
            *x == *gr && f.ensures((x,), ()) && builder == *final(x);
        let c = builder.build();
        self.commits.push(c);
        assert(self@.commits =~= old(self)@.commits.push(c@));
        assert((*x)@ == fresh_commit_builder(message@) && f.ensures((x,), ()) && self@
            == (BranchBuilderView {
            commits: old(self)@.commits.push(commit_of_builder((*final(x))@)),
            ..old(self)@
        }));
    }

    pub fn build(self) -> (b: BranchDescriptor)
        ensures
            b@ == (BranchView { name: self@.name, base: self@.base, commits: self@.commits }),
    {
        let ghost v = self@;
        let mut branch = match &self.base {
            Some(base) => BranchDescriptor::from(self.name.as_str(), base.as_str()),
            None => BranchDescriptor::new(self.name.as_str()),
        };
        let mut commits = self.commits;
        let ghost all = commits@;
        let ghost n = all.len();
        assert(commits_view(all.subrange(0, 0)) =~= Seq::<CommitView>::empty());
        while commits.len() > 0
            invariant
                v.commits == commits_view(all),
                n == all.len(),
                commits@.len() <= n,
                commits@ == all.subrange(n - commits@.len(), n as int),
                branch@ == (BranchView {
                    name: v.name,
                    base: v.base,
                    commits: commits_view(all.subrange(0, n - commits@.len())),
                }),
            decreases commits@.len(),
        {
            let ghost k = n - commits@.len();
            let c = commits.remove(0);
            assert(c == all[k]);
            branch = branch.with_commit(c);
            assert(commits@ =~= all.subrange(n - commits@.len(), n as int));
            assert(commits_view(all.subrange(0, k + 1)) =~= commits_view(all.subrange(0, k)).push(
                c@,
            ));
        }
        assert(all.subrange(0, n as int) =~= all);
        branch
    }
}

/// The branch a builder describes.
pub open spec fn branch_of_builder(b: BranchBuilderView) -> BranchView {
    BranchView { name: b.name, base: b.base, commits: b.commits }
}

/// A git repository builder as plain text.
pub struct GitBuilderView {
    pub name: Seq<char>,
    pub parent_path: Seq<char>,
    pub branches: Seq<BranchView>,
    pub remotes: Seq<RemoteDescriptor>,
    pub initial_branch: Option<Seq<char>>,
}

/// Builder for a git repository inside a directory.
pub struct GitBuilder {
    name: String,
    parent_path: String,
    branches: Vec<BranchDescriptor>,
    remotes: Vec<RemoteDescriptor>,
    initial_branch: Option<String>,
}

impl View for GitBuilder {
    type V = GitBuilderView;

    closed spec fn view(&self) -> GitBuilderView {
        GitBuilderView {
            name: self.name@,
            parent_path: self.parent_path@,
            branches: branches_view(self.branches@),
            remotes: self.remotes@,
            initial_branch: opt_view(self.initial_branch),
        }
    }
}

impl GitBuilder {
    pub fn new(name: &str, parent_path: String) -> (b: Self)
        ensures
            b@ == (GitBuilderView {
                name: name@,
                parent_path: parent_path@,
                branches: Seq::empty(),
                remotes: Seq::empty(),
                initial_branch: None,
            }),
    {
        let b = GitBuilder {
            name: name.to_owned(),
            parent_path,
            branches: Vec::new(),
            remotes: Vec::new(),
            initial_branch: None,
        };
        assert(b@.branches =~= Seq::<BranchView>::empty());
        b
    }

    fn add_branch<F>(&mut self, builder: BranchBuilder, f: F) where F: FnOnce(&mut BranchBuilder)
        requires
            forall|b: &mut BranchBuilder| f.requires((b,)),
        ensures
            exists|b: &mut BranchBuilder|
                *b == builder && f.ensures((b,), ()) && final(self)@ == (GitBuilderView {
                    branches: old(self)@.branches.push(branch_of_builder((*final(b))@)),
                    ..old(self)@
                }),
    {
        let mut builder = builder;
        let r = &mut builder;
        let ghost gr = r;
        f(r);
        let ghost x = choose|x: &mut BranchBuilder|
            *x == *gr && f.ensures((x,), ()) && builder == *final(x);
        let b = builder.build();
        self.branches.push(b);
        assert(self@.branches =~= old(self)@.branches.push(b@));
    }

    /// Adds a branch created from the current head, configured by `f`.
    pub fn branch<F>(&mut self, name: &str, f: F) where F: FnOnce(&mut BranchBuilder)
        requires
            forall|b: &mut BranchBuilder| f.requires((b,)),
        ensures
            exists|b: &mut BranchBuilder|
                (*b)@ == (BranchBuilderView { name: name@, base: None, commits: Seq::empty() })
                    && f.ensures((b,), ()) && final(self)@ == (GitBuilderView {
                    branches: old(self)@.branches.push(branch_of_builder((*final(b))@)),
                    ..old(self)@
                }),
    {
        let builder = BranchBuilder::new(name);
        self.add_branch(builder, f);
    }

    /// Adds a branch created from `base`, configured by `f`.
    pub fn branch_from<F>(&mut self, name: &str, base: &str, f: F) where
        F: FnOnce(&mut BranchBuilder),

        requires
            forall|b: &mut BranchBuilder| f.requires((b,)),
        ensures
            exists|b: &mut BranchBuilder|
                (*b)@ == (BranchBuilderView {
                    name: name@,
                    base: Some(base@),
                    commits: Seq::empty(),
                }) && f.ensures((b,), ()) && final(self)@ == (GitBuilderView {
                    branches: old(self)@.branches.push(branch_of_builder((*final(b))@)),
                    ..old(self)@
                }),
    {
        let builder = BranchBuilder::from(name, base);
        self.add_branch(builder, f);
    }

    /// Adds a remote named `name`, with no branches of its own.
    pub fn remote(&mut self, name: &str)
        ensures
            final(self)@.remotes.len() == old(self)@.remotes.len() + 1,
            final(self)@.remotes.subrange(0, old(self)@.remotes.len() as int)
                == old(self)@.remotes,
            final(self)@.remotes.last().spec_name() == name@,
            final(self)@.remotes.last().spec_branches() == Seq::<
                crate::remote::RemoteBranchDescriptor,
            >::empty(),
            final(self)@ == (GitBuilderView { remotes: final(self)@.remotes, ..old(self)@ }),
    {
        self.remotes.push(RemoteDescriptor::new(name));
        assert(self@.remotes.subrange(0, old(self)@.remotes.len() as int) =~= old(self)@.remotes);
    }

    /// Sets the name of the initial branch.
    pub fn initial_branch(&mut self, name: &str)
        ensures
            final(self)@ == (GitBuilderView { initial_branch: Some(name@), ..old(self)@ }),
    {
        self.initial_branch = Some(name.to_owned());
    }

    pub fn build(self) -> (d: HierarchicalGitRepoDescriptor)
        ensures
            d@ == (HierarchicalGitRepoView {
                name: self@.name,
                parent_path: self@.parent_path,
                branches: self@.branches,
                remotes: self@.remotes,
                initial_branch: match self@.initial_branch {
                    Some(b) => b,
                    None => default_initial_branch(),
                },
            }),
    {
        let initial_branch = match self.initial_branch {
            Some(b) => b,
            None => "main".to_owned(),
        };
        HierarchicalGitRepoDescriptor {
            name: self.name,
            parent_path: self.parent_path,
            branches: self.branches,
            remotes: self.remotes,
            initial_branch,
        }
    }
}

/// A nested git repository as plain text.
pub struct HierarchicalGitRepoView {
    pub name: Seq<char>,
    pub parent_path: Seq<char>,
    pub branches: Seq<BranchView>,
    pub remotes: Seq<RemoteDescriptor>,
    pub initial_branch: Seq<char>,
}

/// A git repository that knows the directory it is created in.
#[derive(Debug)]
pub struct HierarchicalGitRepoDescriptor {
    name: String,
    parent_path: String,
    branches: Vec<BranchDescriptor>,
    remotes: Vec<RemoteDescriptor>,
    initial_branch: String,
}

impl View for HierarchicalGitRepoDescriptor {
    type V = HierarchicalGitRepoView;

    closed spec fn view(&self) -> HierarchicalGitRepoView {
        HierarchicalGitRepoView {
            name: self.name@,
            parent_path: self.parent_path@,
            branches: branches_view(self.branches@),
            remotes: self.remotes@,
            initial_branch: self.initial_branch@,
        }
    }
}

impl HierarchicalGitRepoDescriptor {
    pub fn name(&self) -> (n: &str)
        ensures
            n@ == self@.name,
    {
        self.name.as_str()
    }

    /// The directory the repository is created in.
    pub fn parent_path(&self) -> (p: &str)
        ensures
            p@ == self@.parent_path,
    {
        self.parent_path.as_str()
    }

    /// Where the repository ends up: its parent directory joined with its name.
    pub fn path(&self) -> (p: String)
        ensures
            p@ == join_spec(self@.parent_path, self@.name),
    {
        join_path(self.parent_path.as_str(), self.name.as_str())
    }

    /// The plain repository description to create under the parent directory:
    /// same name, initial branch and branches, with copies of the remotes.
    pub fn repo_descriptor(&self) -> (r: GitRepoDescriptor)
        ensures
            r@.name == self@.name,
            r@.initial_branch == self@.initial_branch,
            r@.branches == self@.branches,
            r@.remotes.len() == self@.remotes.len(),
    {
        let mut repo = GitRepoDescriptor::new(self.name.as_str()).with_initial_branch(
            self.initial_branch.as_str(),
        );
        let mut i: usize = 0;
        while i < self.remotes.len()
            invariant
                i <= self.remotes@.len(),
                repo@.name == self@.name,
                repo@.initial_branch == self@.initial_branch,
                repo@.branches == Seq::<BranchView>::empty(),
                repo@.remotes.len() == i,
            decreases self.remotes@.len() - i,
        {
            repo = repo.with_remote(self.remotes[i].clone());
            i = i + 1;
        }
        let mut j: usize = 0;
        while j < self.branches.len()
            invariant
                j <= self.branches@.len(),
                repo@.name == self@.name,
                repo@.initial_branch == self@.initial_branch,
                repo@.branches == self@.branches.subrange(0, j as int),
                repo@.remotes.len() == self@.remotes.len(),
            decreases self.branches@.len() - j,
        {
            let b = self.branches[j].clone();
            repo = repo.with_branch(b);
            j = j + 1;
            assert(repo@.branches =~= self@.branches.subrange(0, j as int));
        }
        assert(self@.branches.subrange(0, self.branches@.len() as int) =~= self@.branches);
        repo
    }
}

} // verus!
