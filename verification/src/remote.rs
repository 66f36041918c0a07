//! Remote repositories: a bare repository that a local one pushes to, with
//! branches of its own that are created in an order where every branch comes
//! after the branch it is based on.

use vstd::prelude::*;
use vstd::multiset::Multiset;
use crate::error::CreateError;
use crate::text::{append_str, chars_of, contains, contains_spec, debug_list, debug_list_text, string_views};

verus! {

/// The name a branch always starts from in a fresh work tree.
pub open spec fn initial_branch_name() -> Seq<char> {
    seq!['m', 'a', 'i', 'n']
}

/// A commit made on a branch of a remote repository.
#[derive(Debug, Clone)]
pub struct RemoteCommitDescriptor {
    message: String,
    files: Vec<(String, String)>,
    deletes: Vec<String>,
}

impl RemoteCommitDescriptor {
    /// The commit message.
    pub closed spec fn spec_message(&self) -> Seq<char> {
        self.message@
    }

    /// The files the commit writes, as (path, content) pairs in order.
    pub closed spec fn spec_files(&self) -> Seq<(Seq<char>, Seq<char>)> {
        self.files@.map_values(|p: (String, String)| (p.0@, p.1@))
    }

    /// The paths the commit deletes, in order.
    pub closed spec fn spec_deletes(&self) -> Seq<Seq<char>> {
        string_views(self.deletes@)
    }

    pub fn new(message: &str) -> (c: Self)
        ensures
            c.spec_message() == message@,
            c.spec_files() == Seq::<(Seq<char>, Seq<char>)>::empty(),
            c.spec_deletes() == Seq::<Seq<char>>::empty(),
    {
        let c = RemoteCommitDescriptor {
            message: message.to_owned(),
            files: Vec::new(),
            deletes: Vec::new(),
        };
        assert(c.spec_files() =~= Seq::<(Seq<char>, Seq<char>)>::empty());
        assert(c.spec_deletes() =~= Seq::<Seq<char>>::empty());
        c
    }

    pub fn with_file(self, path: &str, content: &str) -> (c: Self)
        ensures
            c.spec_message() == self.spec_message(),
            c.spec_files() == self.spec_files().push((path@, content@)),
            c.spec_deletes() == self.spec_deletes(),
    {
        let mut c = self;
        c.files.push((path.to_owned(), content.to_owned()));
        assert(c.spec_files() =~= self.spec_files().push((path@, content@)));
        c
    }

    pub fn with_delete(self, path: &str) -> (c: Self)
        ensures
            c.spec_message() == self.spec_message(),
            c.spec_files() == self.spec_files(),
            c.spec_deletes() == self.spec_deletes().push(path@),
    {
        let mut c = self;
        c.deletes.push(path.to_owned());
        assert(c.spec_deletes() =~= self.spec_deletes().push(path@));
        c
    }

    /// The commit message.
    pub fn message(&self) -> (m: &str)
        ensures
            m@ == self.spec_message(),
    {
        self.message.as_str()
    }

    /// The files the commit writes.
    pub fn files(&self) -> (f: &Vec<(String, String)>)
        ensures
            f@.map_values(|p: (String, String)| (p.0@, p.1@)) == self.spec_files(),
    {
        &self.files
    }

    /// The paths the commit deletes.
    pub fn deletes(&self) -> (d: &Vec<String>)
        ensures
            string_views(d@) == self.spec_deletes(),
    {
        &self.deletes
    }
}

/// The text held by an optional string, if any.
pub open spec fn opt_view(o: Option<String>) -> Option<Seq<char>> {
    match o {
        Some(s) => Some(s@),
        None => None,
    }
}

/// The text held by an optional string slice, if any.
pub open spec fn opt_str_view(o: Option<&str>) -> Option<Seq<char>> {
    match o {
        Some(s) => Some(s@),
        None => None,
    }
}

/// Borrows the text of an optional string.
pub fn opt_as_str(o: &Option<String>) -> (r: Option<&str>)
    ensures
        opt_str_view(r) == opt_view(*o),
{
    match o {
        Some(s) => Some(s.as_str()),
        None => None,
    }
}

/// A branch of a remote repository, optionally based on another branch.
#[derive(Debug, Clone)]
pub struct RemoteBranchDescriptor {
    name: String,
    base: Option<String>,
    commits: Vec<RemoteCommitDescriptor>,
}

impl RemoteBranchDescriptor {
    /// The branch name.
    pub closed spec fn spec_name(&self) -> Seq<char> {
        self.name@
    }

    /// The branch it starts from, if not the current one.
    pub closed spec fn spec_base(&self) -> Option<Seq<char>> {
        opt_view(self.base)
    }

    /// The commits made on the branch, in order.
    pub closed spec fn spec_commits(&self) -> Seq<RemoteCommitDescriptor> {
        self.commits@
    }

    pub fn new(name: &str) -> (b: Self)
        ensures
            b.spec_name() == name@,
            b.spec_base() is None,
            b.spec_commits() == Seq::<RemoteCommitDescriptor>::empty(),
    {
        RemoteBranchDescriptor { name: name.to_owned(), base: None, commits: Vec::new() }
    }

    pub fn from(name: &str, base: &str) -> (b: Self)
        ensures
            b.spec_name() == name@,
            b.spec_base() == Some(base@),
            b.spec_commits() == Seq::<RemoteCommitDescriptor>::empty(),
    {
        RemoteBranchDescriptor {
            name: name.to_owned(),
            base: Some(base.to_owned()),
            commits: Vec::new(),
        }
    }

    pub fn with_commit(self, commit: RemoteCommitDescriptor) -> (b: Self)
        ensures
            b.spec_name() == self.spec_name(),
            b.spec_base() == self.spec_base(),
            b.spec_commits() == self.spec_commits().push(commit),
    {
        let mut b = self;
        b.commits.push(commit);
        b
    }

    pub fn name(&self) -> (n: &str)
        ensures
            n@ == self.spec_name(),
    {
        self.name.as_str()
    }

    pub fn base(&self) -> (b: Option<&str>)
        ensures
            opt_str_view(b) == self.spec_base(),
    {
        opt_as_str(&self.base)
    }

    /// The commits made on the branch.
    pub fn commits(&self) -> (c: &Vec<RemoteCommitDescriptor>)
        ensures
            c@ == self.spec_commits(),
    {
        &self.commits
    }
}

/// A remote repository with the branches it is created with.
#[derive(Debug, Clone)]
pub struct RemoteDescriptor {
    name: String,
    branches: Vec<RemoteBranchDescriptor>,
}

/// Whether branch `i` can be created once the branches in `pushed` exist.
pub open spec fn base_available(
    bs: Seq<RemoteBranchDescriptor>,
    i: usize,
    pushed: Set<Seq<char>>,
) -> bool {
    match bs[i as int].spec_base() {
        None => true,
        Some(b) => pushed.contains(b),
    }
}

/// One pass over `pending[k..]`: each branch whose base already exists is
/// created (and becomes available to the branches after it in the same pass);
/// the others are kept, in order, for the next pass. Returns the created
/// branches, the kept ones and the names that exist afterwards.
pub open spec fn order_pass(
    bs: Seq<RemoteBranchDescriptor>,
    pending: Seq<usize>,
    k: int,
    pushed: Set<Seq<char>>,
    created: Seq<usize>,
    remaining: Seq<usize>,
) -> (Seq<usize>, Seq<usize>, Set<Seq<char>>)
    decreases pending.len() - k,
{
    if k < 0 || k >= pending.len() {
        (created, remaining, pushed)
    } else {
        let i = pending[k];
        if base_available(bs, i, pushed) {
            order_pass(
                bs,
                pending,
                k + 1,
                pushed.insert(bs[i as int].spec_name()),
                created.push(i),
                remaining,
            )
        } else {
            order_pass(bs, pending, k + 1, pushed, created, remaining.push(i))
        }
    }
}

/// A pass splits what it looks at between the created and the kept branches.
pub proof fn lemma_pass_len(
    bs: Seq<RemoteBranchDescriptor>,
    pending: Seq<usize>,
    k: int,
    pushed: Set<Seq<char>>,
    created: Seq<usize>,
    remaining: Seq<usize>,
)
    requires
        0 <= k <= pending.len(),
    ensures
        ({
            let (c, r, p) = order_pass(bs, pending, k, pushed, created, remaining);
            c.len() + r.len() == created.len() + remaining.len() + pending.len() - k
                && c.len() >= created.len() && r.len() >= remaining.len()
        }),
    decreases pending.len() - k,
{
    if k < pending.len() {
        let i = pending[k];
        if base_available(bs, i, pushed) {
            lemma_pass_len(
                bs,
                pending,
                k + 1,
                pushed.insert(bs[i as int].spec_name()),
                created.push(i),
                remaining,
            );
        } else {
            lemma_pass_len(bs, pending, k + 1, pushed, created, remaining.push(i));
        }
    }
}

/// The order in which the branches `pending` are created when the names in
/// `pushed` exist: passes are repeated until every branch is created (`Ok`
/// with the creation order) or a pass creates nothing (`Err` with the
/// branches created until then, in order, and the branches whose bases never
/// appear, in order).
pub open spec fn branch_order(
    bs: Seq<RemoteBranchDescriptor>,
    pending: Seq<usize>,
    pushed: Set<Seq<char>>,
) -> Result<Seq<usize>, (Seq<usize>, Seq<usize>)>
    decreases pending.len(),
{
    if pending.len() == 0 {
        Ok(Seq::empty())
    } else {
        let (c, r, p) = order_pass(bs, pending, 0, pushed, Seq::empty(), Seq::empty());
        if c.len() == 0 {
            Err((Seq::empty(), r))
        } else {
            proof {
                lemma_pass_len(bs, pending, 0, pushed, Seq::empty(), Seq::empty());
            }
            match branch_order(bs, r, p) {
                Ok(rest) => Ok(c + rest),
                Err((done, e)) => Err((c + done, e)),
            }
        }
    }
}

/// The indices `0..n` in order.
pub open spec fn index_range(n: nat) -> Seq<usize> {
    Seq::new(n, |i: int| i as usize)
}

/// The set of texts held by a list of strings.
pub open spec fn name_set(v: Seq<String>) -> Set<Seq<char>> {
    string_views(v).to_set()
}

/// Whether a list of names holds `name`.
fn contains_name(names: &Vec<String>, name: &String) -> (b: bool)
    ensures
        b == name_set(names@).contains(name@),
{
    let mut i: usize = 0;
    while i < names.len()
        invariant
            i <= names@.len(),
            forall|j: int| 0 <= j < i ==> names@[j]@ != name@,
        decreases names@.len() - i,
    {
        if names[i] == *name {
            assert(string_views(names@)[i as int] == name@);
            return true;
        }
        i = i + 1;
    }
    assert forall|x: Seq<char>| name_set(names@).contains(x) implies x != name@ by {
        let j = choose|j: int| 0 <= j < string_views(names@).len() && string_views(names@)[j] == x;
        assert(names@[j]@ == x);
    }
    false
}

/// `name_set` of a list grown by one string.
proof fn lemma_name_set_push(v: Seq<String>, s: String)
    ensures
        name_set(v.push(s)) == name_set(v).insert(s@),
{
    let sv = string_views(v.push(s));
    assert(sv =~= string_views(v).push(s@));
    assert forall|x: Seq<char>| name_set(v.push(s)).contains(x) <==> name_set(v).insert(
        s@,
    ).contains(x) by {
        if name_set(v.push(s)).contains(x) {
            let j = choose|j: int| 0 <= j < sv.len() && sv[j] == x;
            if j < v.len() {
                assert(string_views(v)[j] == x);
            }
        }
        if name_set(v).contains(x) {
            let j = choose|j: int|
                0 <= j < string_views(v).len() && string_views(v)[j] == x;
            assert(sv[j] == x);
        }
        if x == s@ {
            assert(sv[v.len() as int] == x);
        }
    }
    assert(name_set(v.push(s)) =~= name_set(v).insert(s@));
}

impl RemoteDescriptor {
    /// The remote's name.
    pub closed spec fn spec_name(&self) -> Seq<char> {
        self.name@
    }

    /// The branches the remote is created with, in order.
    pub closed spec fn spec_branches(&self) -> Seq<RemoteBranchDescriptor> {
        self.branches@
    }

    pub fn new(name: &str) -> (r: Self)
        ensures
            r.spec_name() == name@,
            r.spec_branches() == Seq::<RemoteBranchDescriptor>::empty(),
    {
        RemoteDescriptor { name: name.to_owned(), branches: Vec::new() }
    }

    pub fn with_branch(self, branch: RemoteBranchDescriptor) -> (r: Self)
        ensures
            r.spec_name() == self.spec_name(),
            r.spec_branches() == self.spec_branches().push(branch),
    {
        let mut r = self;
        r.branches.push(branch);
        r
    }

    pub fn name(&self) -> (n: &str)
        ensures
            n@ == self.spec_name(),
    {
        self.name.as_str()
    }

    pub fn branches(&self) -> (b: &Vec<RemoteBranchDescriptor>)
        ensures
            b@ == self.spec_branches(),
    {
        &self.branches
    }

    /// The order in which the remote's branches are created, starting from a
    /// work tree that holds only the initial branch: `Ok` with indices into
    /// `branches()`, or `Err` with the indices of the branches created before
    /// creation got stuck and those of the branches whose bases never come
    /// to exist.
    pub fn creation_order(&self) -> (r: Result<Vec<usize>, (Vec<usize>, Vec<usize>)>)
        ensures
            match r {
                Ok(o) => branch_order(
                    self.spec_branches(),
                    index_range(self.spec_branches().len()),
                    set![initial_branch_name()],
                ) == Ok::<Seq<usize>, (Seq<usize>, Seq<usize>)>(o@),
                Err((d, e)) => branch_order(
                    self.spec_branches(),
                    index_range(self.spec_branches().len()),
                    set![initial_branch_name()],
                ) == Err::<Seq<usize>, (Seq<usize>, Seq<usize>)>((d@, e@)),
            },
    {
        let ghost bs = self.branches@;
        let mut pending: Vec<usize> = Vec::new();
        let mut i: usize = 0;
        while i < self.branches.len()
            invariant
                i <= bs.len(),
                bs == self.branches@,
                pending@ == index_range(i as nat),
            decreases bs.len() - i,
        {
            pending.push(i);
            i = i + 1;
            assert(pending@ =~= index_range(i as nat));
        }
        let mut pushed: Vec<String> = Vec::new();
        pushed.push("main".to_owned());
        proof {
            reveal_strlit("main");
            let empty: Seq<String> = Seq::empty();
            assert(pushed@ == empty.push(pushed@[0]));
            assert(name_set(empty) =~= Set::<Seq<char>>::empty());
            lemma_name_set_push(empty, pushed@[0]);
            assert(pushed@[0]@ =~= initial_branch_name());
            assert(name_set(pushed@) =~= set![initial_branch_name()]);
        }
        let mut order: Vec<usize> = Vec::new();
        let ghost goal = branch_order(bs, pending@, name_set(pushed@));
        loop
            invariant
                bs == self.branches@,
                bs == self.spec_branches(),
                goal == branch_order(bs, index_range(bs.len()), set![initial_branch_name()]),
                forall|j: int| 0 <= j < pending@.len() ==> pending@[j] < bs.len(),
                goal == match branch_order(bs, pending@, name_set(pushed@)) {
                    Ok(rest) => Ok(order@ + rest),
                    Err((done, e)) => Err((order@ + done, e)),
                },
            decreases pending@.len(),
        {
            if pending.len() == 0 {
                assert(order@ + Seq::<usize>::empty() =~= order@);
                return Ok(order);
            }
            let ghost p0 = pending@;
            let ghost s0 = name_set(pushed@);
            let mut created: Vec<usize> = Vec::new();
            let mut remaining: Vec<usize> = Vec::new();
            let mut k: usize = 0;
            while k < pending.len()
                invariant
                    bs == self.branches@,
                    pending@ == p0,
                    k <= p0.len(),
                    forall|j: int| 0 <= j < p0.len() ==> p0[j] < bs.len(),
                    forall|j: int| 0 <= j < remaining@.len() ==> remaining@[j] < bs.len(),
                    order_pass(bs, p0, 0, s0, Seq::empty(), Seq::empty()) == order_pass(
                        bs,
                        p0,
                        k as int,
                        name_set(pushed@),
                        created@,
                        remaining@,
                    ),
                decreases p0.len() - k,
            {
                let idx = pending[k];
                let b = &self.branches[idx];
                let available = match &b.base {
                    None => true,
                    Some(base) => contains_name(&pushed, base),
                };
                if available {
                    proof {
                        lemma_name_set_push(pushed@, b.name);
                    }
                    pushed.push(b.name.clone());
                    created.push(idx);
                } else {
                    remaining.push(idx);
                }
                k = k + 1;
            }
            proof {
                lemma_pass_len(bs, p0, 0, s0, Seq::empty(), Seq::empty());
                assert(order_pass(bs, p0, k as int, name_set(pushed@), created@, remaining@) == (
                    created@,
                    remaining@,
                    name_set(pushed@),
                ));
            }
            if created.len() == 0 {
                assert(order@ + Seq::<usize>::empty() =~= order@);
                return Err((order, remaining));
            }
            let ghost before = order@;
            let ghost c = created@;
            order.append(&mut created);
            proof {
                assert(order@ =~= before + c);
                match branch_order(bs, remaining@, name_set(pushed@)) {
                    Ok(rest) => {
                        assert(before + (c + rest) =~= order@ + rest);
                    },
                    Err((done, _)) => {
                        assert(before + (c + done) =~= order@ + done);
                    },
                }
            }
            pending = remaining;
        }
    }

    /// The error reported when the branches `stuck` can never be created:
    /// their missing bases, listed as `{:?}` shows them.
    pub fn creation_order_error(&self, stuck: &Vec<usize>) -> (e: CreateError)
        requires
            forall|j: int| 0 <= j < stuck@.len() ==> stuck@[j] < self.spec_branches().len(),
        ensures
            e matches CreateError::GitError(m) && m@ == "Cannot create branches: bases not found - "@
                + debug_list_text(missing_bases_spec(self.spec_branches(), stuck@)),
    {
        let bases = self.missing_bases(stuck);
        let mut m = "Cannot create branches: bases not found - ".to_owned();
        let listed = debug_list(&bases);
        append_str(&mut m, listed.as_str());
        CreateError::GitError(m)
    }

    /// The directory name of the bare repository made for this remote, given
    /// a unique identifier: `bare-<name>-<id>.git`.
    pub fn bare_repo_dir_name(&self, id: &str) -> (s: String)
        ensures
            s@ == "bare-"@ + self.spec_name() + "-"@ + id@ + ".git"@,
    {
        let mut s = "bare-".to_owned();
        append_str(&mut s, self.name.as_str());
        append_str(&mut s, "-");
        append_str(&mut s, id);
        append_str(&mut s, ".git");
        s
    }

    /// The branches whose creation cannot start, named by their bases: what
    /// the error about missing bases lists.
    pub fn missing_bases(&self, stuck: &Vec<usize>) -> (r: Vec<String>)
        requires
            forall|j: int| 0 <= j < stuck@.len() ==> stuck@[j] < self.spec_branches().len(),
        ensures
            string_views(r@) == missing_bases_spec(self.spec_branches(), stuck@),
    {
        let mut r: Vec<String> = Vec::new();
        let mut j: usize = 0;
        while j < stuck.len()
            invariant
                j <= stuck@.len(),
                forall|t: int| 0 <= t < stuck@.len() ==> stuck@[t] < self.spec_branches().len(),
                string_views(r@) == missing_bases_spec(
                    self.spec_branches(),
                    stuck@.subrange(0, j as int),
                ),
            decreases stuck@.len() - j,
        {
            let b = &self.branches[stuck[j]];
            let ghost old_r = r@;
            assert(stuck@.subrange(0, j + 1).drop_last() =~= stuck@.subrange(0, j as int));
            match &b.base {
                Some(base) => {
                    r.push(base.clone());
                    assert(string_views(r@) =~= string_views(old_r).push(base@));
                },
                None => {},
            }
            j = j + 1;
        }
        assert(stuck@.subrange(0, stuck@.len() as int) =~= stuck@);
        r
    }
}

/// Why a branch name is refused: it holds `..`, `~`, `^` or `:`, or starts with `-`.
pub open spec fn invalid_branch_name(name: Seq<char>) -> bool {
    ||| contains_spec(name, seq!['.', '.'])
    ||| contains_spec(name, seq!['~'])
    ||| contains_spec(name, seq!['^'])
    ||| contains_spec(name, seq![':'])
    ||| (name.len() > 0 && name[0] == '-')
}

/// The message of the error for a refused branch name.
pub open spec fn invalid_branch_message(name: Seq<char>) -> Seq<char> {
    "Invalid branch name '"@ + name + "': contains invalid characters"@
}

/// Checks a branch name before git sees it: `Err` exactly for the names
/// [`invalid_branch_name`] refuses.
pub fn validate_branch_name(name: &str) -> (r: Result<(), CreateError>)
    ensures
        r is Err <==> invalid_branch_name(name@),
        r matches Err(e) ==> (e matches CreateError::GitError(m) && m@ == invalid_branch_message(
            name@,
        )),
{
    let v = chars_of(name);
    proof {
        reveal_strlit("..");
        reveal_strlit("~");
        reveal_strlit("^");
        reveal_strlit(":");
        assert(".."@ =~= seq!['.', '.']);
        assert("~"@ =~= seq!['~']);
        assert("^"@ =~= seq!['^']);
        assert(":"@ =~= seq![':']);
    }
    let bad = contains(&v, "..") || contains(&v, "~") || contains(&v, "^") || contains(&v, ":")
        || (v.len() > 0 && v[0] == '-');
    if bad {
        let mut m = "Invalid branch name '".to_owned();
        append_str(&mut m, name);
        append_str(&mut m, "': contains invalid characters");
        Err(CreateError::GitError(m))
    } else {
        Ok(())
    }
}

/// The bases of the listed branches, skipping those without one.
pub open spec fn missing_bases_spec(bs: Seq<RemoteBranchDescriptor>, stuck: Seq<usize>) -> Seq<
    Seq<char>,
>
    decreases stuck.len(),
{
    if stuck.len() == 0 {
        Seq::empty()
    } else {
        let rest = missing_bases_spec(bs, stuck.drop_last());
        match bs[stuck.last() as int].spec_base() {
            Some(b) => rest.push(b),
            None => rest,
        }
    }
}

/// The names of the branches listed in `o`.
pub open spec fn names_of(bs: Seq<RemoteBranchDescriptor>, o: Seq<usize>) -> Set<Seq<char>> {
    Set::new(|x: Seq<char>| exists|t: int| 0 <= t < o.len() && bs[o[t] as int].spec_name() == x)
}

/// In the order `o`, the branch at position `j` has no base, or its base is
/// in `pushed` or is the name of a branch at an earlier position.
pub open spec fn base_before(
    bs: Seq<RemoteBranchDescriptor>,
    o: Seq<usize>,
    j: int,
    pushed: Set<Seq<char>>,
) -> bool {
    match bs[o[j] as int].spec_base() {
        None => true,
        Some(b) => pushed.contains(b) || exists|t: int|
            0 <= t < j && #[trigger] bs[o[t] as int].spec_name() == b,
    }
}

/// Every branch of the order `o` comes after its base (or its base is in `pushed`).
pub open spec fn respects_bases(
    bs: Seq<RemoteBranchDescriptor>,
    o: Seq<usize>,
    pushed: Set<Seq<char>>,
) -> bool {
    forall|j: int| 0 <= j < o.len() ==> #[trigger] base_before(bs, o, j, pushed)
}

proof fn lemma_pass_multiset(
    bs: Seq<RemoteBranchDescriptor>,
    pending: Seq<usize>,
    k: int,
    pushed: Set<Seq<char>>,
    created: Seq<usize>,
    remaining: Seq<usize>,
)
    requires
        0 <= k <= pending.len(),
    ensures
        ({
            let (c, r, p) = order_pass(bs, pending, k, pushed, created, remaining);
            c.to_multiset().add(r.to_multiset()) == created.to_multiset().add(
                remaining.to_multiset(),
            ).add(pending.subrange(k, pending.len() as int).to_multiset())
        }),
    decreases pending.len() - k,
{
    broadcast use vstd::seq_lib::group_to_multiset_ensures;
    broadcast use vstd::multiset::group_multiset_axioms;

    let tail = pending.subrange(k, pending.len() as int);
    if k == pending.len() {
        assert(tail =~= Seq::<usize>::empty());
        assert(tail.to_multiset() =~= Multiset::empty());
        assert(created.to_multiset().add(remaining.to_multiset()).add(tail.to_multiset())
            =~= created.to_multiset().add(remaining.to_multiset()));
    } else {
        let i = pending[k];
        let next = pending.subrange(k + 1, pending.len() as int);
        assert(tail =~= seq![i] + next);
        vstd::seq_lib::lemma_multiset_commutative(seq![i], next);
        assert(seq![i] =~= Seq::<usize>::empty().push(i));
        assert(Seq::<usize>::empty().to_multiset() =~= Multiset::empty());
        if base_available(bs, i, pushed) {
            lemma_pass_multiset(
                bs,
                pending,
                k + 1,
                pushed.insert(bs[i as int].spec_name()),
                created.push(i),
                remaining,
            );
        } else {
            lemma_pass_multiset(bs, pending, k + 1, pushed, created, remaining.push(i));
        }
        let (c, r, p) = order_pass(bs, pending, k, pushed, created, remaining);
        assert(c.to_multiset().add(r.to_multiset()) =~= created.to_multiset().add(
            remaining.to_multiset(),
        ).add(tail.to_multiset()));
    }
}

proof fn lemma_order_multiset(
    bs: Seq<RemoteBranchDescriptor>,
    pending: Seq<usize>,
    pushed: Set<Seq<char>>,
)
    ensures
        branch_order(bs, pending, pushed) matches Ok(o) ==> o.to_multiset()
            == pending.to_multiset(),
        branch_order(bs, pending, pushed) matches Err((d, e)) ==> (d + e).to_multiset()
            == pending.to_multiset(),
    decreases pending.len(),
{
    broadcast use vstd::seq_lib::group_to_multiset_ensures;
    broadcast use vstd::multiset::group_multiset_axioms;

    if pending.len() > 0 {
        let (c, r, p) = order_pass(bs, pending, 0, pushed, Seq::empty(), Seq::empty());
        lemma_pass_len(bs, pending, 0, pushed, Seq::empty(), Seq::empty());
        lemma_pass_multiset(bs, pending, 0, pushed, Seq::empty(), Seq::empty());
        assert(pending.subrange(0, pending.len() as int) =~= pending);
        assert(Seq::<usize>::empty().to_multiset() =~= Multiset::empty());
        if c.len() > 0 {
            lemma_order_multiset(bs, r, p);
            match branch_order(bs, r, p) {
                Ok(rest) => {
                    vstd::seq_lib::lemma_multiset_commutative(c, rest);
                    assert((c + rest).to_multiset() =~= pending.to_multiset());
                },
                Err((done, e)) => {
                    vstd::seq_lib::lemma_multiset_commutative(c, done);
                    vstd::seq_lib::lemma_multiset_commutative(c + done, e);
                    vstd::seq_lib::lemma_multiset_commutative(done, e);
                    assert(c + done + e =~= c + (done + e));
                    vstd::seq_lib::lemma_multiset_commutative(c, done + e);
                    assert((done + e).to_multiset() =~= r.to_multiset());
                    assert((c + (done + e)).to_multiset() =~= c.to_multiset().add(r.to_multiset()));
                    assert((c + done + e).to_multiset() =~= pending.to_multiset());
                },
            }
        } else {
            assert(c =~= Seq::<usize>::empty());
            assert(Seq::<usize>::empty() + r =~= r);
            assert(c.to_multiset() =~= Multiset::empty());
            assert(Multiset::<usize>::empty().add(r.to_multiset()) =~= r.to_multiset());
            assert(Multiset::<usize>::empty().add(Multiset::empty()).add(pending.to_multiset())
                =~= pending.to_multiset());
            assert(r.to_multiset() =~= pending.to_multiset());
        }
    } else {
        assert(pending =~= Seq::<usize>::empty());
    }
}

proof fn lemma_pass_respects(
    bs: Seq<RemoteBranchDescriptor>,
    pending: Seq<usize>,
    k: int,
    pushed0: Set<Seq<char>>,
    pushed: Set<Seq<char>>,
    created: Seq<usize>,
    remaining: Seq<usize>,
)
    requires
        0 <= k <= pending.len(),
        pushed == pushed0.union(names_of(bs, created)),
        respects_bases(bs, created, pushed0),
    ensures
        ({
            let (c, r, p) = order_pass(bs, pending, k, pushed, created, remaining);
            respects_bases(bs, c, pushed0) && p == pushed0.union(names_of(bs, c))
        }),
    decreases pending.len() - k,
{
    if k < pending.len() {
        let i = pending[k];
        if base_available(bs, i, pushed) {
            let created2 = created.push(i);
            let pushed2 = pushed.insert(bs[i as int].spec_name());
            assert forall|x: Seq<char>| names_of(bs, created2).contains(x) <==> names_of(
                bs,
                created,
            ).insert(bs[i as int].spec_name()).contains(x) by {
                if names_of(bs, created2).contains(x) {
                    let t = choose|t: int|
                        0 <= t < created2.len() && bs[created2[t] as int].spec_name() == x;
                    if t < created.len() {
                        assert(created[t] == created2[t]);
                    }
                }
                if names_of(bs, created).contains(x) {
                    let t = choose|t: int|
                        0 <= t < created.len() && bs[created[t] as int].spec_name() == x;
                    assert(created2[t] == created[t]);
                }
                if x == bs[i as int].spec_name() {
                    assert(created2[created.len() as int] == i);
                }
            }
            assert(pushed2 =~= pushed0.union(names_of(bs, created2)));
            assert forall|j: int| 0 <= j < created2.len() implies #[trigger] base_before(
                bs,
                created2,
                j,
                pushed0,
            ) by {
                if j < created.len() {
                    assert(base_before(bs, created, j, pushed0));
                    if let Some(b) = bs[created[j] as int].spec_base() {
                        if !pushed0.contains(b) {
                            let t = choose|t: int|
                                0 <= t < j && #[trigger] bs[created[t] as int].spec_name() == b;
                            assert(created2[t] == created[t]);
                            assert(bs[created2[t] as int].spec_name() == b);
                        }
                    }
                } else {
                    if let Some(b) = bs[i as int].spec_base() {
                        if !pushed0.contains(b) {
                            assert(names_of(bs, created).contains(b));
                            let t = choose|t: int|
                                0 <= t < created.len() && bs[created[t] as int].spec_name() == b;
                            assert(created2[t] == created[t]);
                            assert(bs[created2[t] as int].spec_name() == b);
                        }
                    }
                }
            }
            lemma_pass_respects(bs, pending, k + 1, pushed0, pushed2, created2, remaining);
        } else {
            lemma_pass_respects(bs, pending, k + 1, pushed0, pushed, created, remaining.push(i));
        }
    }
}

/// A branch order followed by one made once its names exist still has
/// every branch after its base.
proof fn lemma_concat_respects(
    bs: Seq<RemoteBranchDescriptor>,
    c: Seq<usize>,
    rest: Seq<usize>,
    pushed: Set<Seq<char>>,
    p: Set<Seq<char>>,
)
    requires
        respects_bases(bs, c, pushed),
        respects_bases(bs, rest, p),
        p == pushed.union(names_of(bs, c)),
    ensures
        respects_bases(bs, c + rest, pushed),
{
    let o = c + rest;
    assert forall|j: int| 0 <= j < o.len() implies #[trigger] base_before(bs, o, j, pushed) by {
        if j < c.len() {
            assert(base_before(bs, c, j, pushed));
            assert(o[j] == c[j]);
            if let Some(b) = bs[c[j] as int].spec_base() {
                if !pushed.contains(b) {
                    let t = choose|t: int| 0 <= t < j && #[trigger] bs[c[t] as int].spec_name() == b;
                    assert(o[t] == c[t]);
                    assert(bs[o[t] as int].spec_name() == b);
                }
            }
        } else {
            let jr = j - c.len();
            assert(base_before(bs, rest, jr, p));
            assert(o[j] == rest[jr]);
            if let Some(b) = bs[rest[jr] as int].spec_base() {
                if !pushed.contains(b) {
                    if names_of(bs, c).contains(b) {
                        let t = choose|t: int| 0 <= t < c.len() && bs[c[t] as int].spec_name() == b;
                        assert(o[t] == c[t]);
                        assert(bs[o[t] as int].spec_name() == b);
                    } else {
                        let t = choose|t: int|
                            0 <= t < jr && #[trigger] bs[rest[t] as int].spec_name() == b;
                        assert(o[c.len() + t] == rest[t]);
                        assert(bs[o[c.len() + t] as int].spec_name() == b);
                    }
                }
            }
        }
    }
}

/// The names of a concatenation are the names of its parts.
proof fn lemma_names_concat(bs: Seq<RemoteBranchDescriptor>, c: Seq<usize>, d: Seq<usize>)
    ensures
        names_of(bs, c + d) == names_of(bs, c).union(names_of(bs, d)),
{
    let o = c + d;
    assert forall|x: Seq<char>| names_of(bs, o).contains(x) <==> names_of(bs, c).union(
        names_of(bs, d),
    ).contains(x) by {
        if names_of(bs, o).contains(x) {
            let t = choose|t: int| 0 <= t < o.len() && bs[o[t] as int].spec_name() == x;
            if t < c.len() {
                assert(o[t] == c[t]);
            } else {
                assert(o[t] == d[t - c.len()]);
            }
        }
        if names_of(bs, c).contains(x) {
            let t = choose|t: int| 0 <= t < c.len() && bs[c[t] as int].spec_name() == x;
            assert(o[t] == c[t]);
        }
        if names_of(bs, d).contains(x) {
            let t = choose|t: int| 0 <= t < d.len() && bs[d[t] as int].spec_name() == x;
            assert(o[c.len() + t] == d[t]);
        }
    }
    assert(names_of(bs, o) =~= names_of(bs, c).union(names_of(bs, d)));
}

/// A pass that creates nothing keeps the names as they were and keeps only
/// branches whose bases are missing.
proof fn lemma_pass_kept(
    bs: Seq<RemoteBranchDescriptor>,
    pending: Seq<usize>,
    k: int,
    pushed: Set<Seq<char>>,
    created: Seq<usize>,
    remaining: Seq<usize>,
)
    requires
        0 <= k <= pending.len(),
        forall|j: int| 0 <= j < remaining.len() ==> !base_available(bs, #[trigger] remaining[j], pushed),
    ensures
        ({
            let (c, r, p) = order_pass(bs, pending, k, pushed, created, remaining);
            c.len() == created.len() ==> p == pushed && forall|j: int|
                0 <= j < r.len() ==> !base_available(bs, #[trigger] r[j], pushed)
        }),
    decreases pending.len() - k,
{
    if k < pending.len() {
        let i = pending[k];
        if base_available(bs, i, pushed) {
            lemma_pass_len(
                bs,
                pending,
                k + 1,
                pushed.insert(bs[i as int].spec_name()),
                created.push(i),
                remaining,
            );
        } else {
            let r2 = remaining.push(i);
            assert forall|j: int| 0 <= j < r2.len() implies !base_available(bs, #[trigger] r2[j], pushed) by {
                if j < remaining.len() {
                    assert(r2[j] == remaining[j]);
                }
            }
            lemma_pass_kept(bs, pending, k + 1, pushed, created, r2);
        }
    }
}

proof fn lemma_order_respects(
    bs: Seq<RemoteBranchDescriptor>,
    pending: Seq<usize>,
    pushed: Set<Seq<char>>,
)
    ensures
        branch_order(bs, pending, pushed) matches Ok(o) ==> respects_bases(bs, o, pushed),
        branch_order(bs, pending, pushed) matches Err((d, e)) ==> respects_bases(bs, d, pushed)
            && forall|j: int|
            0 <= j < e.len() ==> !base_available(
                bs,
                #[trigger] e[j],
                pushed.union(names_of(bs, d)),
            ),
    decreases pending.len(),
{
    if pending.len() > 0 {
        let (c, r, p) = order_pass(bs, pending, 0, pushed, Seq::empty(), Seq::empty());
        lemma_pass_len(bs, pending, 0, pushed, Seq::empty(), Seq::empty());
        assert(names_of(bs, Seq::empty()) =~= Set::<Seq<char>>::empty());
        assert(pushed.union(names_of(bs, Seq::empty())) =~= pushed);
        lemma_pass_respects(bs, pending, 0, pushed, pushed, Seq::empty(), Seq::empty());
        if c.len() > 0 {
            lemma_order_respects(bs, r, p);
            match branch_order(bs, r, p) {
                Ok(rest) => {
                    lemma_concat_respects(bs, c, rest, pushed, p);
                },
                Err((done, e)) => {
                    lemma_concat_respects(bs, c, done, pushed, p);
                    lemma_names_concat(bs, c, done);
                    assert(p.union(names_of(bs, done)) =~= pushed.union(names_of(bs, c + done)));
                },
            }
        } else {
            lemma_pass_kept(bs, pending, 0, pushed, Seq::empty(), Seq::empty());
            assert(respects_bases(bs, Seq::<usize>::empty(), pushed));
        }
    }
}

/// Every branch of a remote is created exactly once: a successful creation
/// order is a permutation of the branch indices.
pub proof fn law_creation_order_is_permutation(remote: RemoteDescriptor)
    ensures
        branch_order(
            remote.spec_branches(),
            index_range(remote.spec_branches().len()),
            set![initial_branch_name()],
        ) matches Ok(o) ==> o.to_multiset() == index_range(
            remote.spec_branches().len(),
        ).to_multiset(),
{
    lemma_order_multiset(
        remote.spec_branches(),
        index_range(remote.spec_branches().len()),
        set![initial_branch_name()],
    );
}

/// No branch of a remote is created before the branch it is based on: its
/// base is the initial branch or a branch created earlier in the order.
pub proof fn law_creation_order_respects_bases(remote: RemoteDescriptor)
    ensures
        branch_order(
            remote.spec_branches(),
            index_range(remote.spec_branches().len()),
            set![initial_branch_name()],
        ) matches Ok(o) ==> respects_bases(
            remote.spec_branches(),
            o,
            set![initial_branch_name()],
        ),
{
    lemma_order_respects(
        remote.spec_branches(),
        index_range(remote.spec_branches().len()),
        set![initial_branch_name()],
    );
}

/// Creation fails only on branches that can never be made: when it gets
/// stuck, the branches created and the stuck ones together are every branch
/// exactly once, the created ones each come after their base, and every
/// stuck branch has a base that is neither the initial branch nor a branch
/// that was created.
pub proof fn law_creation_stuck_only_on_missing_bases(remote: RemoteDescriptor)
    ensures
        branch_order(
            remote.spec_branches(),
            index_range(remote.spec_branches().len()),
            set![initial_branch_name()],
        ) matches Err((done, stuck)) ==> {
            &&& (done + stuck).to_multiset() == index_range(remote.spec_branches().len()).to_multiset()
            &&& respects_bases(remote.spec_branches(), done, set![initial_branch_name()])
            &&& forall|j: int|
                0 <= j < stuck.len() ==> !base_available(
                    remote.spec_branches(),
                    #[trigger] stuck[j],
                    set![initial_branch_name()].union(names_of(remote.spec_branches(), done)),
                )
        },
{
    let bs = remote.spec_branches();
    let all = index_range(bs.len());
    let start = set![initial_branch_name()];
    lemma_order_multiset(bs, all, start);
    lemma_order_respects(bs, all, start);
}

} // verus!
