//! The registry of created resources: what a descriptor registers under a
//! name can be looked up again by that name.

use vstd::prelude::*;

verus! {

/// A key of a [`TextMap`]: compared by the text it holds.
pub trait TextKey: Sized {
    /// What identifies the key.
    type KeyView;

    spec fn key_view(&self) -> Self::KeyView;

    /// Whether two keys hold the same text.
    fn same_key(&self, other: &Self) -> (b: bool)
        ensures
            b == (self.key_view() == other.key_view()),
    ;
}

impl TextKey for String {
    type KeyView = Seq<char>;

    open spec fn key_view(&self) -> Seq<char> {
        self@
    }

    fn same_key(&self, other: &Self) -> (b: bool) {
        *self == *other
    }
}

impl TextKey for (String, String) {
    type KeyView = (Seq<char>, Seq<char>);

    open spec fn key_view(&self) -> (Seq<char>, Seq<char>) {
        (self.0@, self.1@)
    }

    fn same_key(&self, other: &Self) -> (b: bool) {
        self.0 == other.0 && self.1 == other.1
    }
}

/// A map from text keys to values, kept as a list of entries whose keys are
/// all different; inserting under a present key replaces its value.
#[derive(Debug)]
pub struct TextMap<K: TextKey, V> {
    entries: Vec<(K, V)>,
}

impl<K: TextKey, V> TextMap<K, V> {
    /// No key occurs twice.
    #[verifier::type_invariant]
    closed spec fn keys_unique(&self) -> bool {
        forall|i: int, j: int|
            0 <= i < self.entries@.len() && 0 <= j < self.entries@.len() && i != j
                ==> self.entries@[i].0.key_view() != self.entries@[j].0.key_view()
    }

    /// Whether some entry has key `k`.
    closed spec fn has_key(entries: Seq<(K, V)>, k: K::KeyView) -> bool {
        exists|i: int| 0 <= i < entries.len() && entries[i].0.key_view() == k
    }

    /// The position of the entry with key `k`.
    closed spec fn index_of(entries: Seq<(K, V)>, k: K::KeyView) -> int {
        choose|i: int| 0 <= i < entries.len() && entries[i].0.key_view() == k
    }

    /// The map the entries describe.
    pub closed spec fn view(&self) -> Map<K::KeyView, V> {
        Map::new(
            |k: K::KeyView| Self::has_key(self.entries@, k),
            |k: K::KeyView| self.entries@[Self::index_of(self.entries@, k)].1,
        )
    }

    pub fn new() -> (m: Self)
        ensures
            m.view() == Map::<K::KeyView, V>::empty(),
    {
        let m = TextMap { entries: Vec::new() };
        assert(m.view() =~= Map::<K::KeyView, V>::empty());
        m
    }

    /// Position of the entry with the key of `key`, if any.
    fn find(&self, key: &K) -> (r: Option<usize>)
        ensures
            match r {
                Some(i) => i < self.entries@.len() && self.entries@[i as int].0.key_view()
                    == key.key_view(),
                None => !Self::has_key(self.entries@, key.key_view()),
            },
    {
        let mut i: usize = 0;
        while i < self.entries.len()
            invariant
                i <= self.entries@.len(),
                forall|j: int|
                    0 <= j < i ==> self.entries@[j].0.key_view() != key.key_view(),
            decreases self.entries@.len() - i,
        {
            if self.entries[i].0.same_key(key) {
                return Some(i);
            }
            i = i + 1;
        }
        None
    }

    /// The value stored under the key of `key`.
    pub fn get(&self, key: &K) -> (r: Option<&V>)
        ensures
            match r {
                Some(v) => self.view().dom().contains(key.key_view()) && self.view()[key.key_view()]
                    == *v,
                None => !self.view().dom().contains(key.key_view()),
            },
    {
        proof {
            use_type_invariant(self);
        }
        match self.find(key) {
            Some(i) => {
                let ghost k = key.key_view();
                proof {
                    let j = Self::index_of(self.entries@, k);
                    assert(Self::has_key(self.entries@, k));
                    assert(j == i);
                }
                Some(&self.entries[i].1)
            },
            None => None,
        }
    }

    /// Stores `value` under `key`, replacing what was stored there.
    pub fn insert(&mut self, key: K, value: V)
        ensures
            final(self).view() == old(self).view().insert(key.key_view(), value),
    {
        proof {
            use_type_invariant(&*self);
        }
        let ghost k = key.key_view();
        let ghost old_entries = self.entries@;
        let mut entries = Vec::new();
        std::mem::swap(&mut entries, &mut self.entries);
        match self.find_in(&entries, &key) {
            Some(i) => {
                entries.set(i, (key, value));
            },
            None => {
                entries.push((key, value));
            },
        }
        proof {
            let ne = entries@;
            assert forall|i: int, j: int|
                0 <= i < ne.len() && 0 <= j < ne.len() && i != j implies ne[i].0.key_view()
                != ne[j].0.key_view() by {
                if i < old_entries.len() && j < old_entries.len() {
                    if ne[i].0.key_view() == k || ne[j].0.key_view() == k {
                    }
                }
            }
            let m0 = Map::<K::KeyView, V>::new(
                |x: K::KeyView| Self::has_key(old_entries, x),
                |x: K::KeyView| old_entries[Self::index_of(old_entries, x)].1,
            );
            let m1 = Map::<K::KeyView, V>::new(
                |x: K::KeyView| Self::has_key(ne, x),
                |x: K::KeyView| ne[Self::index_of(ne, x)].1,
            );
            assert forall|x: K::KeyView| #[trigger] m1.dom().contains(x) <==> m0.insert(
                k,
                value,
            ).dom().contains(x) by {
                if Self::has_key(ne, x) && x != k {
                    let i = choose|i: int| 0 <= i < ne.len() && ne[i].0.key_view() == x;
                    assert(i < old_entries.len() && old_entries[i] == ne[i]);
                }
                if Self::has_key(old_entries, x) {
                    let i = choose|i: int|
                        0 <= i < old_entries.len() && old_entries[i].0.key_view() == x;
                    if x != k {
                        assert(ne[i] == old_entries[i]);
                    }
                }
                if x == k {
                    let i = if ne.len() > old_entries.len() {
                        old_entries.len() as int
                    } else {
                        choose|i: int|
                            0 <= i < old_entries.len() && old_entries[i].0.key_view() == k
                    };
                    assert(ne[i].0.key_view() == k);
                }
            }
            assert forall|x: K::KeyView| #[trigger] m1.dom().contains(x) implies m1[x] == m0.insert(
                k,
                value,
            )[x] by {
                let j1 = Self::index_of(ne, x);
                if x == k {
                    assert(ne[j1].0.key_view() == k);
                    if ne.len() > old_entries.len() {
                        assert(ne[old_entries.len() as int].0.key_view() == k);
                        assert(j1 == old_entries.len());
                    } else {
                        let i = choose|i: int|
                            0 <= i < old_entries.len() && old_entries[i].0.key_view() == k;
                        assert(ne[i].0.key_view() == k);
                        assert(j1 == i);
                    }
                } else {
                    assert(j1 < old_entries.len() && old_entries[j1] == ne[j1]);
                    assert(Self::has_key(old_entries, x));
                    let j0 = Self::index_of(old_entries, x);
                    assert(ne[j0] == old_entries[j0]);
                    assert(j0 == j1);
                }
            }
            assert(m1 =~= m0.insert(k, value));
        }
        self.entries = entries;
    }

    /// Position in `entries` of the entry with the key of `key`, if any.
    fn find_in(&self, entries: &Vec<(K, V)>, key: &K) -> (r: Option<usize>)
        ensures
            match r {
                Some(i) => i < entries@.len() && entries@[i as int].0.key_view() == key.key_view(),
                None => !Self::has_key(entries@, key.key_view()),
            },
    {
        let mut i: usize = 0;
        while i < entries.len()
            invariant
                i <= entries@.len(),
                forall|j: int| 0 <= j < i ==> entries@[j].0.key_view() != key.key_view(),
            decreases entries@.len() - i,
        {
            if entries[i].0.same_key(key) {
                return Some(i);
            }
            i = i + 1;
        }
        None
    }
}

impl<V> TextMap<String, V> {
    /// The entries: each key of the map occurs once, with its value; the
    /// order of the entries is left open.
    pub fn entries(&self) -> (e: &Vec<(String, V)>)
        ensures
            forall|i: int|
                0 <= i < e@.len() ==> self.view().dom().contains(#[trigger] e@[i].0@)
                    && self.view()[e@[i].0@] == e@[i].1,
            forall|k: Seq<char>|
                self.view().dom().contains(k) ==> exists|i: int|
                    0 <= i < e@.len() && #[trigger] e@[i].0@ == k,
            forall|i: int, j: int|
                0 <= i < e@.len() && 0 <= j < e@.len() && i != j ==> e@[i].0@ != e@[j].0@,
            e@.len() == self.view().dom().len(),
    {
        proof {
            use_type_invariant(self);
            let es = self.entries@;
            assert forall|i: int| 0 <= i < es.len() implies self.view().dom().contains(
                #[trigger] es[i].0@,
            ) && self.view()[es[i].0@] == es[i].1 by {
                assert(Self::has_key(es, es[i].0@));
                let j = Self::index_of(es, es[i].0@);
                assert(j == i);
            }
            lemma_dom_len(es);
            let ks = es.map_values(|p: (String, V)| p.0@);
            assert forall|x: Seq<char>| self.view().dom().contains(x) <==> ks.to_set().contains(
                x,
            ) by {
                if self.view().dom().contains(x) {
                    let i = choose|i: int| 0 <= i < es.len() && es[i].0.key_view() == x;
                    assert(ks[i] == x);
                }
                if ks.to_set().contains(x) {
                    let i = choose|i: int| 0 <= i < ks.len() && ks[i] == x;
                    assert(es[i].0.key_view() == x);
                }
            }
            assert(self.view().dom() =~= ks.to_set());
        }
        &self.entries
    }
}

/// The keys of entries with distinct keys are as many as the entries.
proof fn lemma_dom_len<V>(es: Seq<(String, V)>)
    requires
        forall|i: int, j: int|
            0 <= i < es.len() && 0 <= j < es.len() && i != j ==> es[i].0@ != es[j].0@,
    ensures
        es.map_values(|p: (String, V)| p.0@).to_set().len() == es.len(),
{
    let ks = es.map_values(|p: (String, V)| p.0@);
    assert forall|i: int, j: int| 0 <= i < ks.len() && 0 <= j < ks.len() && i != j implies ks[i]
        != ks[j] by {
        assert(ks[i] == es[i].0@);
        assert(ks[j] == es[j].0@);
    }
    assert(ks.no_duplicates());
    ks.unique_seq_to_set();
}

impl Clone for TextMap<String, String> {
    /// A copy with the same entries.
    fn clone(&self) -> (c: Self)
        ensures
            c.view() == self.view(),
    {
        proof {
            use_type_invariant(self);
        }
        let mut entries: Vec<(String, String)> = Vec::new();
        let mut i: usize = 0;
        while i < self.entries.len()
            invariant
                i <= self.entries@.len(),
                entries@ == self.entries@.subrange(0, i as int),
            decreases self.entries@.len() - i,
        {
            let k = self.entries[i].0.clone();
            let v = self.entries[i].1.clone();
            entries.push((k, v));
            i = i + 1;
            assert(entries@ =~= self.entries@.subrange(0, i as int));
        }
        assert(entries@ =~= self.entries@);
        TextMap { entries }
    }
}

/// A tmux session as registered: its name and working directory.
#[derive(Debug, Clone)]
pub struct TmuxSessionInfo {
    pub name: String,
    pub working_dir: String,
}

/// The resources created so far, by kind and name.
#[derive(Debug)]
pub struct ResourceRegistry {
    git_repos: TextMap<String, String>,
    worktrees: TextMap<(String, String), String>,
    tmux_sessions: TextMap<String, TmuxSessionInfo>,
    dirs: TextMap<String, String>,
}

/// The text of an optional registered path.
pub open spec fn lookup_text(m: Map<Seq<char>, Seq<char>>, k: Seq<char>) -> Option<Seq<char>> {
    if m.dom().contains(k) {
        Some(m[k])
    } else {
        None
    }
}

impl ResourceRegistry {
    /// Git repositories by name: their paths.
    pub closed spec fn spec_git_repos(&self) -> Map<Seq<char>, Seq<char>> {
        self.git_repos.view().map_values(|p: String| p@)
    }

    /// Worktrees by (repository, branch): their paths.
    pub closed spec fn spec_worktrees(&self) -> Map<(Seq<char>, Seq<char>), Seq<char>> {
        self.worktrees.view().map_values(|p: String| p@)
    }

    /// Tmux sessions by name.
    pub closed spec fn spec_tmux_sessions(&self) -> Map<Seq<char>, TmuxSessionInfo> {
        self.tmux_sessions.view()
    }

    /// Directories by name: their paths.
    pub closed spec fn spec_dirs(&self) -> Map<Seq<char>, Seq<char>> {
        self.dirs.view().map_values(|p: String| p@)
    }

    pub fn new() -> (r: Self)
        ensures
            r.spec_git_repos() == Map::<Seq<char>, Seq<char>>::empty(),
            r.spec_worktrees() == Map::<(Seq<char>, Seq<char>), Seq<char>>::empty(),
            r.spec_tmux_sessions() == Map::<Seq<char>, TmuxSessionInfo>::empty(),
            r.spec_dirs() == Map::<Seq<char>, Seq<char>>::empty(),
    {
        let r = ResourceRegistry {
            git_repos: TextMap::new(),
            worktrees: TextMap::new(),
            tmux_sessions: TextMap::new(),
            dirs: TextMap::new(),
        };
        assert(r.spec_git_repos() =~= Map::<Seq<char>, Seq<char>>::empty());
        assert(r.spec_worktrees() =~= Map::<(Seq<char>, Seq<char>), Seq<char>>::empty());
        assert(r.spec_dirs() =~= Map::<Seq<char>, Seq<char>>::empty());
        r
    }

    pub fn register_git_repo(&mut self, name: String, path: String)
        ensures
            final(self).spec_git_repos() == old(self).spec_git_repos().insert(name@, path@),
            final(self).spec_worktrees() == old(self).spec_worktrees(),
            final(self).spec_tmux_sessions() == old(self).spec_tmux_sessions(),
            final(self).spec_dirs() == old(self).spec_dirs(),
    {
        let ghost k = name@;
        let ghost p = path@;
        self.git_repos.insert(name, path);
        assert(self.spec_git_repos() =~= old(self).spec_git_repos().insert(k, p));
    }

    pub fn get_git_repo(&self, name: &str) -> (r: Option<&String>)
        ensures
            match r {
                Some(p) => lookup_text(self.spec_git_repos(), name@) == Some(p@),
                None => lookup_text(self.spec_git_repos(), name@) is None,
            },
    {
        let key = name.to_owned();
        self.git_repos.get(&key)
    }

    pub fn register_worktree(&mut self, repo: String, branch: String, path: String)
        ensures
            final(self).spec_worktrees() == old(self).spec_worktrees().insert(
                (repo@, branch@),
                path@,
            ),
            final(self).spec_git_repos() == old(self).spec_git_repos(),
            final(self).spec_tmux_sessions() == old(self).spec_tmux_sessions(),
            final(self).spec_dirs() == old(self).spec_dirs(),
    {
        let ghost k = (repo@, branch@);
        let ghost p = path@;
        self.worktrees.insert((repo, branch), path);
        assert(self.spec_worktrees() =~= old(self).spec_worktrees().insert(k, p));
    }

    pub fn get_worktree(&self, repo: &str, branch: &str) -> (r: Option<&String>)
        ensures
            match r {
                Some(p) => self.spec_worktrees().dom().contains((repo@, branch@))
                    && self.spec_worktrees()[(repo@, branch@)] == p@,
                None => !self.spec_worktrees().dom().contains((repo@, branch@)),
            },
    {
        let key = (repo.to_owned(), branch.to_owned());
        self.worktrees.get(&key)
    }

    pub fn register_tmux_session(&mut self, name: String, info: TmuxSessionInfo)
        ensures
            final(self).spec_tmux_sessions() == old(self).spec_tmux_sessions().insert(
                name@,
                info,
            ),
            final(self).spec_git_repos() == old(self).spec_git_repos(),
            final(self).spec_worktrees() == old(self).spec_worktrees(),
            final(self).spec_dirs() == old(self).spec_dirs(),
    {
        self.tmux_sessions.insert(name, info);
    }

    pub fn get_tmux_session(&self, name: &str) -> (r: Option<&TmuxSessionInfo>)
        ensures
            match r {
                Some(i) => self.spec_tmux_sessions().dom().contains(name@)
                    && self.spec_tmux_sessions()[name@] == *i,
                None => !self.spec_tmux_sessions().dom().contains(name@),
            },
    {
        let key = name.to_owned();
        self.tmux_sessions.get(&key)
    }

    pub fn register_dir(&mut self, name: String, path: String)
        ensures
            final(self).spec_dirs() == old(self).spec_dirs().insert(name@, path@),
            final(self).spec_git_repos() == old(self).spec_git_repos(),
            final(self).spec_worktrees() == old(self).spec_worktrees(),
            final(self).spec_tmux_sessions() == old(self).spec_tmux_sessions(),
    {
        let ghost k = name@;
        let ghost p = path@;
        self.dirs.insert(name, path);
        assert(self.spec_dirs() =~= old(self).spec_dirs().insert(k, p));
    }

    pub fn get_dir(&self, name: &str) -> (r: Option<&String>)
        ensures
            match r {
                Some(p) => lookup_text(self.spec_dirs(), name@) == Some(p@),
                None => lookup_text(self.spec_dirs(), name@) is None,
            },
    {
        let key = name.to_owned();
        self.dirs.get(&key)
    }
}

impl Default for ResourceRegistry {
    fn default() -> (r: Self)
        ensures
            r.spec_git_repos() == Map::<Seq<char>, Seq<char>>::empty(),
            r.spec_worktrees() == Map::<(Seq<char>, Seq<char>), Seq<char>>::empty(),
            r.spec_tmux_sessions() == Map::<Seq<char>, TmuxSessionInfo>::empty(),
            r.spec_dirs() == Map::<Seq<char>, Seq<char>>::empty(),
    {
        Self::new()
    }
}

/// A git repository registered under a name is what a later lookup of that
/// name finds; every other name finds what it found before.
pub proof fn law_git_repo_read_after_write(
    before: ResourceRegistry,
    after: ResourceRegistry,
    name: Seq<char>,
    path: Seq<char>,
    other: Seq<char>,
)
    requires
        after.spec_git_repos() == before.spec_git_repos().insert(name, path),
        other != name,
    ensures
        lookup_text(after.spec_git_repos(), name) == Some(path),
        lookup_text(after.spec_git_repos(), other) == lookup_text(before.spec_git_repos(), other),
{
}

/// A directory registered under a name is what a later lookup of that name
/// finds; every other name finds what it found before.
pub proof fn law_dir_read_after_write(
    before: ResourceRegistry,
    after: ResourceRegistry,
    name: Seq<char>,
    path: Seq<char>,
    other: Seq<char>,
)
    requires
        after.spec_dirs() == before.spec_dirs().insert(name, path),
        other != name,
    ensures
        lookup_text(after.spec_dirs(), name) == Some(path),
        lookup_text(after.spec_dirs(), other) == lookup_text(before.spec_dirs(), other),
{
}

/// A worktree registered under a repository and branch is what a later lookup
/// of that pair finds; every other pair finds what it found before.
pub proof fn law_worktree_read_after_write(
    before: ResourceRegistry,
    after: ResourceRegistry,
    repo: Seq<char>,
    branch: Seq<char>,
    path: Seq<char>,
    other: (Seq<char>, Seq<char>),
)
    requires
        after.spec_worktrees() == before.spec_worktrees().insert((repo, branch), path),
        other != (repo, branch),
    ensures
        after.spec_worktrees().dom().contains((repo, branch)),
        after.spec_worktrees()[(repo, branch)] == path,
        after.spec_worktrees().dom().contains(other) == before.spec_worktrees().dom().contains(
            other,
        ),
        after.spec_worktrees().dom().contains(other) ==> after.spec_worktrees()[other]
            == before.spec_worktrees()[other],
{
}

/// A tmux session registered under a name is what a later lookup of that
/// name finds; every other name finds what it found before.
pub proof fn law_tmux_session_read_after_write(
    before: ResourceRegistry,
    after: ResourceRegistry,
    name: Seq<char>,
    info: TmuxSessionInfo,
    other: Seq<char>,
)
    requires
        after.spec_tmux_sessions() == before.spec_tmux_sessions().insert(name, info),
        other != name,
    ensures
        after.spec_tmux_sessions().dom().contains(name),
        after.spec_tmux_sessions()[name] == info,
        after.spec_tmux_sessions().dom().contains(other)
            == before.spec_tmux_sessions().dom().contains(other),
        after.spec_tmux_sessions().dom().contains(other) ==> after.spec_tmux_sessions()[other]
            == before.spec_tmux_sessions()[other],
{
}

} // verus!
