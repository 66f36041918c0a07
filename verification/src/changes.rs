//! File changes, and the staged and unstaged changes a repository is left with.

use vstd::prelude::*;

verus! {

/// A change to one file of a repository: write it with some content, or delete it.
#[derive(Debug, Clone)]
pub enum FileChange {
    Write { path: String, content: String },
    Delete { path: String },
}

/// A file change as plain text: the path, and the content for a write
/// (`None` for a delete).
pub type FileChangeView = (Seq<char>, Option<Seq<char>>);

impl View for FileChange {
    type V = FileChangeView;

    open spec fn view(&self) -> FileChangeView {
        match self {
            FileChange::Write { path, content } => (path@, Some(content@)),
            FileChange::Delete { path } => (path@, None),
        }
    }
}

/// The views of a list of file changes.
pub open spec fn changes_view(v: Seq<FileChange>) -> Seq<FileChangeView> {
    v.map_values(|c: FileChange| c@)
}

/// A write of `content` to `path`.
pub fn write_change(path: &str, content: &str) -> (c: FileChange)
    ensures
        c@ == (path@, Some(content@)),
{
    FileChange::Write { path: path.to_owned(), content: content.to_owned() }
}

/// A deletion of `path`.
pub fn delete_change(path: &str) -> (c: FileChange)
    ensures
        c@ == (path@, None::<Seq<char>>),
{
    FileChange::Delete { path: path.to_owned() }
}

/// Appends a change to a list of changes.
pub fn push_change(v: &mut Vec<FileChange>, c: FileChange)
    ensures
        changes_view(final(v)@) == changes_view(old(v)@).push(c@),
{
    v.push(c);
    assert(changes_view(v@) =~= changes_view(old(v)@).push(c@));
}

/// Builder for changes that are staged but not committed.
pub struct StagedBuilder {
    changes: Vec<FileChange>,
}

impl View for StagedBuilder {
    type V = Seq<FileChangeView>;

    closed spec fn view(&self) -> Seq<FileChangeView> {
        changes_view(self.changes@)
    }
}

impl StagedBuilder {
    pub fn new() -> (b: Self)
        ensures
            b@ == Seq::<FileChangeView>::empty(),
    {
        let b = StagedBuilder { changes: Vec::new() };
        assert(b@ =~= Seq::<FileChangeView>::empty());
        b
    }

    /// Adds or modifies a file and stages it.
    pub fn file(&mut self, path: &str, content: &str)
        ensures
            final(self)@ == old(self)@.push((path@, Some(content@))),
    {
        push_change(&mut self.changes, write_change(path, content));
    }

    /// Deletes a file and stages the deletion.
    pub fn delete(&mut self, path: &str)
        ensures
            final(self)@ == old(self)@.push((path@, None)),
    {
        push_change(&mut self.changes, delete_change(path));
    }

    pub fn build(self) -> (s: StagedChanges)
        ensures
            s@ == self@,
    {
        StagedChanges { changes: self.changes }
    }
}

/// Changes that are staged but not committed.
#[derive(Debug, Clone)]
pub struct StagedChanges {
    changes: Vec<FileChange>,
}

impl View for StagedChanges {
    type V = Seq<FileChangeView>;

    closed spec fn view(&self) -> Seq<FileChangeView> {
        changes_view(self.changes@)
    }
}

impl StagedChanges {
    /// The changes, in the order they are applied before `git add -A`.
    pub fn changes(&self) -> (c: &Vec<FileChange>)
        ensures
            changes_view(c@) == self@,
    {
        &self.changes
    }
}

/// Builder for unstaged changes: modified tracked files and untracked files.
pub struct UnstagedBuilder {
    modifications: Vec<FileChange>,
    untracked: Vec<(String, String)>,
}

/// Unstaged changes as plain text: the modifications of tracked files, then
/// the untracked files as (path, content).
pub type UnstagedView = (Seq<FileChangeView>, Seq<(Seq<char>, Seq<char>)>);

/// The views of a list of (path, content) pairs.
pub open spec fn pairs_view(v: Seq<(String, String)>) -> Seq<(Seq<char>, Seq<char>)> {
    v.map_values(|p: (String, String)| (p.0@, p.1@))
}

impl View for UnstagedBuilder {
    type V = UnstagedView;

    closed spec fn view(&self) -> UnstagedView {
        (changes_view(self.modifications@), pairs_view(self.untracked@))
    }
}

impl UnstagedBuilder {
    pub fn new() -> (b: Self)
        ensures
            b@.0 == Seq::<FileChangeView>::empty(),
            b@.1 == Seq::<(Seq<char>, Seq<char>)>::empty(),
    {
        let b = UnstagedBuilder { modifications: Vec::new(), untracked: Vec::new() };
        assert(b@.0 =~= Seq::<FileChangeView>::empty());
        assert(b@.1 =~= Seq::<(Seq<char>, Seq<char>)>::empty());
        b
    }

    /// Modifies an existing tracked file without staging it.
    pub fn modify(&mut self, path: &str, content: &str)
        ensures
            final(self)@.0 == old(self)@.0.push((path@, Some(content@))),
            final(self)@.1 == old(self)@.1,
    {
        push_change(&mut self.modifications, write_change(path, content));
    }

    /// Deletes a tracked file without staging the deletion.
    pub fn delete(&mut self, path: &str)
        ensures
            final(self)@.0 == old(self)@.0.push((path@, None)),
            final(self)@.1 == old(self)@.1,
    {
        push_change(&mut self.modifications, delete_change(path));
    }

    /// Creates a new untracked file.
    pub fn untracked(&mut self, path: &str, content: &str)
        ensures
            final(self)@.0 == old(self)@.0,
            final(self)@.1 == old(self)@.1.push((path@, content@)),
    {
        self.untracked.push((path.to_owned(), content.to_owned()));
        assert(pairs_view(self.untracked@) =~= pairs_view(old(self).untracked@).push(
            (path@, content@),
        ));
    }

    pub fn build(self) -> (u: UnstagedChanges)
        ensures
            u@ == self@,
    {
        UnstagedChanges { modifications: self.modifications, untracked: self.untracked }
    }
}

/// Unstaged changes: modifications of tracked files and untracked files.
#[derive(Debug, Clone)]
pub struct UnstagedChanges {
    modifications: Vec<FileChange>,
    untracked: Vec<(String, String)>,
}

impl View for UnstagedChanges {
    type V = UnstagedView;

    closed spec fn view(&self) -> UnstagedView {
        (changes_view(self.modifications@), pairs_view(self.untracked@))
    }
}

impl UnstagedChanges {
    /// The modifications of tracked files, in order.
    pub fn modifications(&self) -> (m: &Vec<FileChange>)
        ensures
            changes_view(m@) == self@.0,
    {
        &self.modifications
    }

    /// The untracked files to create, as (path, content), in order.
    pub fn untracked(&self) -> (u: &Vec<(String, String)>)
        ensures
            pairs_view(u@) == self@.1,
    {
        &self.untracked
    }
}

} // verus!
