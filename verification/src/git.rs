//! The git engine: synchronization of a workspace's local bare mirror,
//! indexing of its tags, and resolution of commit references and paths into
//! structured object descriptions.
//!
//! The mirror's contents enter this module as a [`RepoSnapshot`]: plain values
//! for the objects and refs that a resolution may touch. The host builds the
//! snapshot from the on-disk repository and performs the network and disk
//! operations themselves; every decision about them is made here.

use vstd::prelude::*;
use crate::BackendError;
use crate::utils::{spec_octal6, spec_i64_decimal, u64_to_octal6, i64_to_decimal};
use crate::workspace::WorkspaceRecord;
use crate::workspace_sync::{
    WorkspaceSyncBackend, WorkspaceSyncRecord, WorkspaceSyncStatus, spec_status_code,
};
use crate::workspace_tag::{WorkspaceTagBackend, WorkspaceTagRecord, tag_matches, has_tag_triple};

verus! {

/// The kind of a git object, as a closed sum.
#[derive(Clone, Copy, Debug, PartialEq, Eq, Structural)]
pub enum GitObjectKind {
    Blob,
    Tree,
    Commit,
    Tag,
}

/// The conventional short name of each object kind.
pub open spec fn spec_kind_str(k: GitObjectKind) -> Seq<char> {
    match k {
        GitObjectKind::Blob => "blob"@,
        GitObjectKind::Tree => "tree"@,
        GitObjectKind::Commit => "commit"@,
        GitObjectKind::Tag => "tag"@,
    }
}

/// The conventional short name of an object kind.
pub fn kind_str(k: GitObjectKind) -> (r: &'static str)
    ensures
        r@ == spec_kind_str(k),
{
    match k {
        GitObjectKind::Blob => "blob",
        GitObjectKind::Tree => "tree",
        GitObjectKind::Commit => "commit",
        GitObjectKind::Tag => "tag",
    }
}

/// One entry of a tree object: the child's permission/type bits, kind,
/// content id and name.
#[derive(Debug)]
pub struct RepoTreeEntry {
    pub filemode: u64,
    pub kind: GitObjectKind,
    pub id: String,
    pub name: String,
}

/// A commit object: its id, author and committer identity strings, and the id
/// of its root tree.
#[derive(Debug)]
pub struct RepoCommit {
    pub id: String,
    pub author: String,
    pub committer: String,
    pub tree_id: String,
}

/// A tree object: its id and its entries in the tree's native order.
#[derive(Debug)]
pub struct RepoTree {
    pub id: String,
    pub entries: Vec<RepoTreeEntry>,
}

/// A blob object: its id and its stored bytes.
#[derive(Debug)]
pub struct RepoBlob {
    pub id: String,
    pub content: Vec<u8>,
}

/// An annotated tag object: its id and the id of the object it points at.
#[derive(Debug)]
pub struct RepoTag {
    pub id: String,
    pub target_id: String,
}

/// Any git object a resolution may reach.
#[derive(Debug)]
pub enum RepoObject {
    Commit(RepoCommit),
    Tree(RepoTree),
    Blob(RepoBlob),
    Tag(RepoTag),
}

/// A named reference (branch, tag, or symbolic ref) and the object id it
/// designates.
#[derive(Debug)]
pub struct RepoRef {
    pub name: String,
    pub target_id: String,
}

/// An in-memory snapshot of a mirror's refs and objects, as the host read
/// them from disk.
#[derive(Debug)]
pub struct RepoSnapshot {
    pub refs: Vec<RepoRef>,
    pub objects: Vec<RepoObject>,
}

/// The content id of an object.
pub open spec fn spec_object_id(o: RepoObject) -> Seq<char> {
    match o {
        RepoObject::Commit(c) => c.id@,
        RepoObject::Tree(t) => t.id@,
        RepoObject::Blob(b) => b.id@,
        RepoObject::Tag(t) => t.id@,
    }
}

/// The kind of an object.
pub open spec fn spec_object_kind(o: RepoObject) -> GitObjectKind {
    match o {
        RepoObject::Commit(_) => GitObjectKind::Commit,
        RepoObject::Tree(_) => GitObjectKind::Tree,
        RepoObject::Blob(_) => GitObjectKind::Blob,
        RepoObject::Tag(_) => GitObjectKind::Tag,
    }
}

impl RepoObject {
    /// The content id of this object.
    pub fn id_ref(&self) -> (r: &String)
        ensures
            r@ == spec_object_id(*self),
    {
        match self {
            RepoObject::Commit(c) => &c.id,
            RepoObject::Tree(t) => &t.id,
            RepoObject::Blob(b) => &b.id,
            RepoObject::Tag(t) => &t.id,
        }
    }

    /// The kind of this object.
    pub fn kind(&self) -> (r: GitObjectKind)
        ensures
            r == spec_object_kind(*self),
    {
        match self {
            RepoObject::Commit(_) => GitObjectKind::Commit,
            RepoObject::Tree(_) => GitObjectKind::Tree,
            RepoObject::Blob(_) => GitObjectKind::Blob,
            RepoObject::Tag(_) => GitObjectKind::Tag,
        }
    }
}

/// The first object of `objs` whose id is `id`.
pub open spec fn spec_find_object(objs: Seq<RepoObject>, id: Seq<char>) -> Option<RepoObject>
    decreases objs.len(),
{
    if objs.len() == 0 {
        None
    } else if spec_object_id(objs[0]) == id {
        Some(objs[0])
    } else {
        spec_find_object(objs.drop_first(), id)
    }
}

/// The first ref of `refs` whose name is `name`.
pub open spec fn spec_find_ref(refs: Seq<RepoRef>, name: Seq<char>) -> Option<RepoRef>
    decreases refs.len(),
{
    if refs.len() == 0 {
        None
    } else if refs[0].name@ == name {
        Some(refs[0])
    } else {
        spec_find_ref(refs.drop_first(), name)
    }
}

/// The first entry of `entries` whose name is `name`.
pub open spec fn spec_find_entry(entries: Seq<RepoTreeEntry>, name: Seq<char>) -> Option<
    RepoTreeEntry,
>
    decreases entries.len(),
{
    if entries.len() == 0 {
        None
    } else if entries[0].name@ == name {
        Some(entries[0])
    } else {
        spec_find_entry(entries.drop_first(), name)
    }
}

/// A found object is an element of the sequence it was found in.
pub proof fn lemma_find_object_is_elem(objs: Seq<RepoObject>, id: Seq<char>)
    requires
        spec_find_object(objs, id) is Some,
    ensures
        exists|k: int|
            0 <= k < objs.len() && objs[k] == spec_find_object(objs, id)->Some_0,
    decreases objs.len(),
{
    if objs.len() > 0 && spec_object_id(objs[0]) != id {
        lemma_find_object_is_elem(objs.drop_first(), id);
        let k = choose|k: int|
            0 <= k < objs.drop_first().len() && objs.drop_first()[k] == spec_find_object(
                objs.drop_first(),
                id,
            )->Some_0;
        assert(objs[k + 1] == objs.drop_first()[k]);
    }
}

impl RepoSnapshot {
    /// Entry `e` of some tree resolves in this snapshot to an object of the
    /// kind the entry announces.
    pub open spec fn entry_resolves(&self, e: RepoTreeEntry) -> bool {
        match spec_find_object(self.objects@, e.id@) {
            Some(o) => spec_object_kind(o) == e.kind,
            None => false,
        }
    }

    /// Object `o` only points at objects present in this snapshot: a commit's
    /// root tree is here, a tree's entries resolve, a tag's target is here.
    pub open spec fn object_closed(&self, o: RepoObject) -> bool {
        match o {
            RepoObject::Commit(c) => spec_find_object(self.objects@, c.tree_id@) matches Some(t)
                && t is Tree,
            RepoObject::Tree(t) => forall|i: int|
                0 <= i < t.entries@.len() ==> self.entry_resolves(#[trigger] t.entries@[i]),
            RepoObject::Blob(_) => true,
            RepoObject::Tag(t) => spec_find_object(self.objects@, t.target_id@) is Some,
        }
    }

    /// The snapshot is closed under reference: everything its objects point
    /// at is present, as in a well-formed repository. The host establishes
    /// this by snapshotting every object a resolution may reach.
    pub open spec fn wf(&self) -> bool {
        forall|i: int|
            0 <= i < self.objects@.len() ==> self.object_closed(#[trigger] self.objects@[i])
    }
}

/// Find an object by content id, scanning in order.
pub fn find_object<'a>(objs: &'a Vec<RepoObject>, id: &str) -> (r: Option<&'a RepoObject>)
    ensures
        match r {
            Some(o) => spec_find_object(objs@, id@) == Some(*o),
            None => spec_find_object(objs@, id@) is None,
        },
{
    let key: String = id.to_owned();
    let mut i: usize = 0;
    proof {
        assert(objs@.skip(0) =~= objs@);
    }
    while i < objs.len()
        invariant
            i <= objs.len(),
            key@ == id@,
            spec_find_object(objs@, id@) == spec_find_object(objs@.skip(i as int), id@),
        decreases objs.len() - i,
    {
        let o = &objs[i];
        if *(o.id_ref()) == key {
            proof {
                assert(objs@.skip(i as int)[0] == objs@[i as int]);
            }
            return Some(o);
        }
        proof {
            assert(objs@.skip(i as int)[0] == objs@[i as int]);
            assert(objs@.skip(i as int).drop_first() =~= objs@.skip(i + 1));
        }
        i += 1;
    }
    proof {
        assert(objs@.skip(objs@.len() as int).len() == 0);
    }
    None
}

/// Find the target id of a named ref, scanning in order.
pub fn find_ref_target<'a>(refs: &'a Vec<RepoRef>, name: &str) -> (r: Option<&'a String>)
    ensures
        match r {
            Some(t) => spec_find_ref(refs@, name@) matches Some(rf) && t@ == rf.target_id@,
            None => spec_find_ref(refs@, name@) is None,
        },
{
    let key: String = name.to_owned();
    let mut i: usize = 0;
    proof {
        assert(refs@.skip(0) =~= refs@);
    }
    while i < refs.len()
        invariant
            i <= refs.len(),
            key@ == name@,
            spec_find_ref(refs@, name@) == spec_find_ref(refs@.skip(i as int), name@),
        decreases refs.len() - i,
    {
        let rf = &refs[i];
        if rf.name == key {
            proof {
                assert(refs@.skip(i as int)[0] == refs@[i as int]);
            }
            return Some(&rf.target_id);
        }
        proof {
            assert(refs@.skip(i as int)[0] == refs@[i as int]);
            assert(refs@.skip(i as int).drop_first() =~= refs@.skip(i + 1));
        }
        i += 1;
    }
    proof {
        assert(refs@.skip(refs@.len() as int).len() == 0);
    }
    None
}

/// Find a tree entry by name, scanning in the tree's native order.
pub fn find_entry<'a>(entries: &'a Vec<RepoTreeEntry>, name: &String) -> (r: Option<
    &'a RepoTreeEntry,
>)
    ensures
        match r {
            Some(e) => spec_find_entry(entries@, name@) == Some(*e),
            None => spec_find_entry(entries@, name@) is None,
        },
{
    let mut i: usize = 0;
    proof {
        assert(entries@.skip(0) =~= entries@);
    }
    while i < entries.len()
        invariant
            i <= entries.len(),
            spec_find_entry(entries@, name@) == spec_find_entry(entries@.skip(i as int), name@),
        decreases entries.len() - i,
    {
        let e = &entries[i];
        if e.name == *name {
            proof {
                assert(entries@.skip(i as int)[0] == entries@[i as int]);
            }
            return Some(e);
        }
        proof {
            assert(entries@.skip(i as int)[0] == entries@[i as int]);
            assert(entries@.skip(i as int).drop_first() =~= entries@.skip(i + 1));
        }
        i += 1;
    }
    proof {
        assert(entries@.skip(entries@.len() as int).len() == 0);
    }
    None
}

/// The position of the first separator in `s`, or its length if there is
/// none.
pub open spec fn spec_first_sep(s: Seq<char>) -> nat
    decreases s.len(),
{
    if s.len() == 0 {
        0
    } else if s[0] == '/' {
        0
    } else {
        (1 + spec_first_sep(s.drop_first())) as nat
    }
}

/// `spec_first_sep` is pinned by a scan: if nothing before `k` is a separator
/// and `k` is one (or the end), then `k` is the first separator.
pub proof fn lemma_first_sep_at(s: Seq<char>, k: nat)
    requires
        k <= s.len(),
        forall|m: int| 0 <= m < k ==> s[m] != '/',
        k < s.len() ==> s[k as int] == '/',
    ensures
        spec_first_sep(s) == k,
    decreases k,
{
    if k > 0 {
        assert(s[0] != '/');
        assert forall|m: int| 0 <= m < k - 1 implies s.drop_first()[m] != '/' by {
            assert(s.drop_first()[m] == s[m + 1]);
        }
        if k - 1 < s.drop_first().len() {
            assert(s.drop_first()[k - 1] == s[k as int]);
        }
        lemma_first_sep_at(s.drop_first(), (k - 1) as nat);
    }
}

/// The components of a repository path: the runs of characters between
/// separators, in order, with empty segments (leading, trailing or doubled
/// separators) ignored.
pub open spec fn spec_path_components(s: Seq<char>) -> Seq<Seq<char>>
    decreases s.len(),
{
    if s.len() == 0 {
        Seq::empty()
    } else {
        let k = spec_first_sep(s);
        if k == 0 {
            spec_path_components(s.drop_first())
        } else if k >= s.len() {
            seq![s]
        } else {
            seq![s.take(k as int)] + spec_path_components(s.skip(k as int + 1))
        }
    }
}

/// Split a repository path into its components.
pub fn split_path(s: &str) -> (r: Vec<String>)
    ensures
        r.deep_view() == spec_path_components(s@),
{
    let n = s.unicode_len();
    let mut out: Vec<String> = Vec::new();
    let mut i: usize = 0;
    proof {
        assert(s@.skip(0) =~= s@);
        assert(out.deep_view() + spec_path_components(s@) =~= spec_path_components(s@));
    }
    while i < n
        invariant
            n == s@.len(),
            i <= n,
            spec_path_components(s@) == out.deep_view() + spec_path_components(
                s@.skip(i as int),
            ),
        decreases n - i,
    {
        let ghost prev = out.deep_view();
        let ghost rem = s@.skip(i as int);
        let mut j = i;
        while j < n && s.get_char(j) != '/'
            invariant
                n == s@.len(),
                i <= j <= n,
                forall|m: int| i <= m < j ==> s@[m] != '/',
            decreases n - j,
        {
            j += 1;
        }
        proof {
            assert forall|m: int| 0 <= m < (j - i) implies rem[m] != '/' by {
                assert(rem[m] == s@[m + i]);
            }
            if (j - i) < rem.len() {
                assert(rem[(j - i) as int] == s@[j as int]);
            }
            lemma_first_sep_at(rem, (j - i) as nat);
        }
        if j > i {
            let comp = s.substring_char(i, j).to_owned();
            out.push(comp);
            proof {
                assert(out.deep_view() =~= prev.push(comp@));
                if j < n {
                    assert(rem.take(j - i) =~= s@.subrange(i as int, j as int));
                    assert(rem.skip((j - i) + 1) =~= s@.skip(j + 1));
                    assert(spec_path_components(rem) == seq![rem.take(j - i)]
                        + spec_path_components(s@.skip(j + 1)));
                    assert(prev + (seq![comp@] + spec_path_components(s@.skip(j + 1))) =~= (prev
                        + seq![comp@]) + spec_path_components(s@.skip(j + 1)));
                    assert(prev.push(comp@) =~= prev + seq![comp@]);
                } else {
                    assert(rem =~= s@.subrange(i as int, n as int));
                    assert(comp@ == rem);
                    assert(spec_path_components(rem) == seq![rem]);
                    assert(prev.push(comp@) + spec_path_components(s@.skip(n as int)) =~= prev
                        + spec_path_components(rem));
                    assert(s@.skip(n as int).len() == 0);
                }
            }
        } else {
            proof {
                assert(spec_first_sep(rem) == 0 && rem.len() > 0);
                assert(spec_path_components(rem) == spec_path_components(rem.drop_first()));
                assert(rem.drop_first() =~= s@.skip(i + 1));
            }
        }
        if j < n {
            i = j + 1;
        } else {
            i = n;
        }
    }
    proof {
        assert(s@.skip(n as int).len() == 0);
        assert(out.deep_view() + spec_path_components(s@.skip(n as int)) =~= out.deep_view());
    }
    out
}

/// The on-disk location of a workspace's mirror: the mirror root, a
/// separator, and the workspace identifier in decimal.
pub open spec fn spec_mirror_path(root: Seq<char>, id: i64) -> Seq<char> {
    root + seq!['/'] + spec_i64_decimal(id)
}

/// Compute the mirror directory for a workspace under the given root.
pub fn mirror_path(git_root: &str, workspace_id: i64) -> (r: String)
    ensures
        r@ == spec_mirror_path(git_root@, workspace_id),
{
    let digits = i64_to_decimal(workspace_id);
    let r = git_root.to_owned().concat("/").concat(digits.as_str());
    proof {
        reveal_strlit("/");
        assert(r@ =~= spec_mirror_path(git_root@, workspace_id));
    }
    r
}

/// A found entry is an element of the entry sequence it was found in.
pub proof fn lemma_find_entry_is_elem(entries: Seq<RepoTreeEntry>, name: Seq<char>)
    requires
        spec_find_entry(entries, name) is Some,
    ensures
        exists|k: int|
            0 <= k < entries.len() && entries[k] == spec_find_entry(entries, name)->Some_0,
    decreases entries.len(),
{
    if entries.len() > 0 && entries[0].name@ != name {
        lemma_find_entry_is_elem(entries.drop_first(), name);
        let k = choose|k: int|
            0 <= k < entries.drop_first().len() && entries.drop_first()[k] == spec_find_entry(
                entries.drop_first(),
                name,
            )->Some_0;
        assert(entries[k + 1] == entries.drop_first()[k]);
    }
}

/// The object a revision specification designates in a snapshot: the target
/// of the ref of that name if there is one, else the object with that id.
pub open spec fn spec_revparse(repo: RepoSnapshot, revspec: Seq<char>) -> Option<RepoObject> {
    match spec_find_ref(repo.refs@, revspec) {
        Some(rf) => spec_find_object(repo.objects@, rf.target_id@),
        None => spec_find_object(repo.objects@, revspec),
    }
}

/// An object found by `spec_revparse` is an element of the snapshot's
/// objects.
pub proof fn lemma_revparse_is_elem(repo: RepoSnapshot, revspec: Seq<char>)
    requires
        spec_revparse(repo, revspec) is Some,
    ensures
        repo.objects@.contains(spec_revparse(repo, revspec)->Some_0),
{
    match spec_find_ref(repo.refs@, revspec) {
        Some(rf) => lemma_find_object_is_elem(repo.objects@, rf.target_id@),
        None => lemma_find_object_is_elem(repo.objects@, revspec),
    }
}

/// Resolve a revision specification against a snapshot.
pub fn revparse<'a>(repo: &'a RepoSnapshot, revspec: &str) -> (r: Option<&'a RepoObject>)
    ensures
        match r {
            Some(o) => spec_revparse(*repo, revspec@) == Some(*o),
            None => spec_revparse(*repo, revspec@) is None,
        },
{
    match find_ref_target(&repo.refs, revspec) {
        Some(target) => find_object(&repo.objects, target.as_str()),
        None => find_object(&repo.objects, revspec),
    }
}

/// The object reached by descending from `o` along the path components
/// `comps`, looking every step's child up in `objs`; absent when a step
/// misses or passes through a non-tree.
pub open spec fn spec_descend(
    objs: Seq<RepoObject>,
    o: RepoObject,
    comps: Seq<Seq<char>>,
) -> Option<RepoObject>
    decreases comps.len(),
{
    if comps.len() == 0 {
        Some(o)
    } else {
        match o {
            RepoObject::Tree(t) => match spec_find_entry(t.entries@, comps[0]) {
                Some(e) => match spec_find_object(objs, e.id@) {
                    Some(child) => spec_descend(objs, child, comps.drop_first()),
                    None => None,
                },
                None => None,
            },
            _ => None,
        }
    }
}

/// Failure causes of a resolution, each carrying the offending input.
#[derive(Debug, PartialEq)]
pub enum ResolveError {
    /// The revision specification matched no ref and no object.
    RefNotFound { revspec: String },
    /// The revision specification resolved to something other than a commit.
    NotACommit { revspec: String },
    /// The path does not exist under the commit's root tree.
    PathNotFound { path: String },
    /// Raw content was requested of a non-blob object.
    NotABlob,
}

/// The outcome of one resolution request: the resolved commit, the requested
/// path, and the object reached by descending the commit's tree along it.
/// Request-scoped: it borrows from the snapshot it was resolved against.
#[derive(Debug)]
pub struct GitResultSet<'a> {
    pub repo: &'a RepoSnapshot,
    pub commit: &'a RepoCommit,
    pub path: &'a str,
    pub object: &'a RepoObject,
}

/// The revision specification a resolution uses: the one given, or the
/// remote's default branch marker.
pub open spec fn spec_effective_ref(commit_id: Option<&str>) -> Seq<char> {
    match commit_id {
        Some(s) => s@,
        None => "origin/HEAD"@,
    }
}

/// The path a resolution uses: the one given, or the empty path meaning the
/// repository root.
pub open spec fn spec_effective_path(path: Option<&str>) -> Seq<char> {
    match path {
        Some(p) => p@,
        None => Seq::empty(),
    }
}

/// Resolve a commit reference and an optional path to the object they
/// designate.
///
/// The commit reference defaults to the remote's default branch marker and
/// must name a commit; the path, absent or empty meaning the root, is
/// descended from the commit's root tree. The outcome binds the commit, the
/// path and the reached object for projection.
pub fn process_pathinfo<'a>(
    repo: &'a RepoSnapshot,
    commit_id: Option<&str>,
    path: Option<&'a str>,
) -> (r: Result<GitResultSet<'a>, ResolveError>)
    requires
        repo.wf(),
    ensures
        match r {
            Ok(rs) => {
                &&& rs.repo == repo
                &&& spec_revparse(*repo, spec_effective_ref(commit_id)) == Some(
                    RepoObject::Commit(*rs.commit),
                )
                &&& rs.path@ == spec_effective_path(path)
                &&& spec_find_object(repo.objects@, rs.commit.tree_id@) matches Some(rt)
                    && spec_descend(repo.objects@, rt, spec_path_components(rs.path@)) == Some(
                    *rs.object,
                )
            },
            Err(ResolveError::RefNotFound { revspec }) => {
                &&& revspec@ == spec_effective_ref(commit_id)
                &&& spec_revparse(*repo, spec_effective_ref(commit_id)) is None
            },
            Err(ResolveError::NotACommit { revspec }) => {
                &&& revspec@ == spec_effective_ref(commit_id)
                &&& spec_revparse(*repo, spec_effective_ref(commit_id)) matches Some(o) && !(o
                    is Commit)
            },
            Err(ResolveError::PathNotFound { path: p }) => {
                &&& p@ == spec_effective_path(path)
                &&& spec_revparse(*repo, spec_effective_ref(commit_id)) matches Some(o) && o
                    matches RepoObject::Commit(c) && (spec_find_object(repo.objects@, c.tree_id@)
                    matches Some(rt) && spec_descend(
                    repo.objects@,
                    rt,
                    spec_path_components(spec_effective_path(path)),
                ) is None)
            },
            Err(ResolveError::NotABlob) => false,
        },
{
    let revspec: &str = match commit_id {
        Some(s) => s,
        None => "origin/HEAD",
    };
    let obj = match revparse(repo, revspec) {
        Some(o) => o,
        None => {
            return Err(ResolveError::RefNotFound { revspec: revspec.to_owned() });
        },
    };
    let commit: &RepoCommit = match obj {
        RepoObject::Commit(c) => c,
        _ => {
            return Err(ResolveError::NotACommit { revspec: revspec.to_owned() });
        },
    };
    proof {
        lemma_revparse_is_elem(*repo, revspec@);
    }
    let root = match find_object(&repo.objects, commit.tree_id.as_str()) {
        Some(o) => o,
        None => {
            proof {
                let j = choose|j: int|
                    0 <= j < repo.objects@.len() && repo.objects@[j] == RepoObject::Commit(
                        *commit,
                    );
                assert(repo.object_closed(repo.objects@[j]));
                assert(false);
            }
            return Err(ResolveError::RefNotFound { revspec: revspec.to_owned() });
        },
    };
    let path_str: &str = match path {
        Some(p) => p,
        None => "",
    };
    proof {
        reveal_strlit("");
        assert(path_str@ == spec_effective_path(path));
    }
    let comps = split_path(path_str);
    let ghost all = spec_path_components(path_str@);
    let mut cur: &'a RepoObject = root;
    let mut i: usize = 0;
    proof {
        assert(all.skip(0) =~= all);
        lemma_find_object_is_elem(repo.objects@, commit.tree_id@);
        assert(repo.objects@.contains(*root));
    }
    while i < comps.len()
        invariant
            repo.wf(),
            i <= comps.len(),
            comps.deep_view() == all,
            all == spec_path_components(spec_effective_path(path)),
            path_str@ == spec_effective_path(path),
            spec_revparse(*repo, spec_effective_ref(commit_id)) == Some(
                RepoObject::Commit(*commit),
            ),
            spec_find_object(repo.objects@, commit.tree_id@) is Some,
            spec_descend(
                repo.objects@,
                spec_find_object(repo.objects@, commit.tree_id@)->Some_0,
                all,
            ) == spec_descend(repo.objects@, *cur, all.skip(i as int)),
            repo.objects@.contains(*cur),
        decreases comps.len() - i,
    {
        let t: &RepoTree = match cur {
            RepoObject::Tree(t) => t,
            _ => {
                return Err(ResolveError::PathNotFound { path: path_str.to_owned() });
            },
        };
        let name: &String = &comps[i];
        proof {
            assert(all[i as int] == comps@[i as int]@);
            assert(all.skip(i as int)[0] == all[i as int]);
        }
        let e = match find_entry(&t.entries, name) {
            Some(e) => e,
            None => {
                return Err(ResolveError::PathNotFound { path: path_str.to_owned() });
            },
        };
        proof {
            lemma_find_entry_is_elem(t.entries@, name@);
            let k = choose|k: int|
                0 <= k < t.entries@.len() && t.entries@[k] == spec_find_entry(
                    t.entries@,
                    name@,
                )->Some_0;
            let j = choose|j: int| 0 <= j < repo.objects@.len() && repo.objects@[j] == *cur;
            assert(repo.object_closed(repo.objects@[j]));
            assert(repo.entry_resolves(t.entries@[k]));
            assert(spec_find_object(repo.objects@, e.id@) is Some);
        }
        let child = match find_object(&repo.objects, e.id.as_str()) {
            Some(c) => c,
            None => {
                proof {
                    assert(false);
                }
                return Err(ResolveError::PathNotFound { path: path_str.to_owned() });
            },
        };
        proof {
            lemma_find_object_is_elem(repo.objects@, e.id@);
            assert(repo.objects@.contains(*child));
            assert(all.skip(i as int).drop_first() =~= all.skip(i + 1));
        }
        cur = child;
        i += 1;
    }
    proof {
        assert(all.skip(i as int).len() == 0);
    }
    Ok(GitResultSet { repo, commit, path: path_str, object: cur })
}

/// One line of a tree listing: the entry's permission bits as a zero-padded
/// octal string, its kind's short name, its content id and its name.
#[derive(Debug, PartialEq)]
pub struct TreeEntryInfo {
    pub filemode: String,
    pub kind: String,
    pub id: String,
    pub name: String,
}

/// The structured description of a resolved object, for external
/// consumption.
#[derive(Debug, PartialEq)]
pub enum ObjectInfo {
    /// A blob: its byte count and a binary-content guess.
    FileInfo { size: u64, binary: bool },
    /// A tree: its entry count and the listing of its immediate children.
    TreeInfo { filecount: u64, entries: Vec<TreeEntryInfo> },
    /// A commit: its id and its author and committer identity strings.
    CommitInfo { commit_id: String, author: String, committer: String },
}

/// The binary-content heuristic: the bytes contain a NUL. A fast, fallible
/// proxy for "not text", not an encoding analysis.
pub open spec fn spec_is_binary(content: Seq<u8>) -> bool {
    exists|i: int| 0 <= i < content.len() && content[i] == 0
}

/// `ei` lists entry `e`: same mode (in octal), kind name, id and name.
pub open spec fn spec_entry_info_matches(ei: TreeEntryInfo, e: RepoTreeEntry) -> bool {
    &&& ei.filemode@ == spec_octal6(e.filemode)
    &&& ei.kind@ == spec_kind_str(e.kind)
    &&& ei.id@ == e.id@
    &&& ei.name@ == e.name@
}

/// `info` is the faithful description of object `o`: sizes, counts, listings
/// and identity strings all agree. Tag objects have no description.
pub open spec fn spec_info_describes(info: ObjectInfo, o: RepoObject) -> bool {
    match o {
        RepoObject::Blob(b) => info matches ObjectInfo::FileInfo { size, binary } && size
            == b.content@.len() && binary == spec_is_binary(b.content@),
        RepoObject::Tree(t) => info matches ObjectInfo::TreeInfo { filecount, entries }
            && filecount == t.entries@.len() && entries@.len() == t.entries@.len() && (forall|
            i: int,
        |
            0 <= i < t.entries@.len() ==> spec_entry_info_matches(
                #[trigger] entries@[i],
                t.entries@[i],
            )),
        RepoObject::Commit(c) => info matches ObjectInfo::CommitInfo {
            commit_id,
            author,
            committer,
        } && commit_id@ == c.id@ && author@ == c.author@ && committer@ == c.committer@,
        RepoObject::Tag(_) => false,
    }
}

/// Whether the bytes contain a NUL.
fn is_binary_content(content: &Vec<u8>) -> (r: bool)
    ensures
        r == spec_is_binary(content@),
{
    let mut i: usize = 0;
    while i < content.len()
        invariant
            i <= content.len(),
            forall|j: int| 0 <= j < i ==> content@[j] != 0,
        decreases content.len() - i,
    {
        if content[i] == 0 {
            return true;
        }
        i += 1;
    }
    false
}

/// Describe a blob: its size and the binary guess.
fn blob_to_info(blob: &RepoBlob) -> (r: ObjectInfo)
    ensures
        spec_info_describes(r, RepoObject::Blob(*blob)),
{
    ObjectInfo::FileInfo { size: blob.content.len() as u64, binary: is_binary_content(
        &blob.content,
    ) }
}

/// Describe a tree: its entry count and the listing of its children, in the
/// tree's native order.
fn tree_to_info(tree: &RepoTree) -> (r: ObjectInfo)
    ensures
        spec_info_describes(r, RepoObject::Tree(*tree)),
{
    let mut entries: Vec<TreeEntryInfo> = Vec::new();
    let mut i: usize = 0;
    while i < tree.entries.len()
        invariant
            i <= tree.entries.len(),
            entries@.len() == i,
            forall|j: int|
                0 <= j < i ==> spec_entry_info_matches(
                    #[trigger] entries@[j],
                    tree.entries@[j],
                ),
        decreases tree.entries.len() - i,
    {
        let e = &tree.entries[i];
        entries.push(
            TreeEntryInfo {
                filemode: u64_to_octal6(e.filemode),
                kind: kind_str(e.kind).to_owned(),
                id: e.id.clone(),
                name: e.name.clone(),
            },
        );
        i += 1;
    }
    ObjectInfo::TreeInfo { filecount: tree.entries.len() as u64, entries }
}

/// Describe a commit: its id and identity strings.
fn commit_to_info(commit: &RepoCommit) -> (r: ObjectInfo)
    ensures
        spec_info_describes(r, RepoObject::Commit(*commit)),
{
    ObjectInfo::CommitInfo {
        commit_id: commit.id.clone(),
        author: commit.author.clone(),
        committer: commit.committer.clone(),
    }
}

/// Describe a resolved object; tag objects (the one kind with no external
/// description) give none.
pub fn object_to_info(git_object: &RepoObject) -> (r: Option<ObjectInfo>)
    ensures
        match r {
            Some(info) => spec_info_describes(info, *git_object),
            None => git_object is Tag,
        },
{
    match git_object {
        RepoObject::Blob(b) => Some(blob_to_info(b)),
        RepoObject::Tree(t) => Some(tree_to_info(t)),
        RepoObject::Commit(c) => Some(commit_to_info(c)),
        RepoObject::Tag(_) => None,
    }
}

/// Look an object up by an arbitrary revision specification and describe it:
/// ad-hoc inspection outside the commit/path flow.
pub fn get_obj_by_spec(repo: &RepoSnapshot, revspec: &str) -> (r: Result<
    Option<ObjectInfo>,
    ResolveError,
>)
    ensures
        match r {
            Ok(info) => spec_revparse(*repo, revspec@) matches Some(o) && (match info {
                Some(i) => spec_info_describes(i, o),
                None => o is Tag,
            }),
            Err(ResolveError::RefNotFound { revspec: rv }) => {
                &&& rv@ == revspec@
                &&& spec_revparse(*repo, revspec@) is None
            },
            Err(_) => false,
        },
{
    match revparse(repo, revspec) {
        Some(o) => Ok(object_to_info(o)),
        None => Err(ResolveError::RefNotFound { revspec: revspec.to_owned() }),
    }
}

/// The raw stored bytes of a resolved blob; any other kind is refused, so a
/// caller can stream blob content and nothing else.
pub fn git_result_set_blob<'a>(git_result_set: &GitResultSet<'a>) -> (r: Result<
    &'a Vec<u8>,
    ResolveError,
>)
    ensures
        match r {
            Ok(content) => *git_result_set.object matches RepoObject::Blob(b) && content@
                == b.content@,
            Err(e) => e == (ResolveError::NotABlob) && !(*git_result_set.object is Blob),
        },
{
    match git_result_set.object {
        RepoObject::Blob(b) => Ok(&b.content),
        _ => Err(ResolveError::NotABlob),
    }
}

/// The standard set of values a git operation works on: a persistence
/// backend, the mirror root directory, and the workspace being acted on.
pub struct GitPmrAccessor<B> {
    pub backend: B,
    pub git_root: String,
    pub workspace: WorkspaceRecord,
}

impl<B> GitPmrAccessor<B> {
    /// Bundle a backend, a mirror root and a workspace record.
    pub fn new(backend: B, git_root: String, workspace: WorkspaceRecord) -> (r: GitPmrAccessor<
        B,
    >)
        ensures
            r.backend == backend,
            r.git_root == git_root,
            r.workspace == workspace,
    {
        GitPmrAccessor { backend, git_root, workspace }
    }
}

/// What probing the mirror path found: an existing bare repository, data
/// that is not a valid bare repository, or nothing.
#[derive(Clone, Copy, Debug, PartialEq, Eq, Structural)]
pub enum RepoProbe {
    Bare,
    Invalid,
    Missing,
}

/// The git operation a synchronization performs: fetch into the existing
/// mirror, or clone a new one.
#[derive(Clone, Copy, Debug, PartialEq, Eq, Structural)]
pub enum SyncAction {
    FetchExisting,
    CloneNew,
}

/// The operation each probe outcome calls for: fetch when a bare mirror is
/// already there, clone otherwise. An invalid mirror path is fatal and never
/// reaches an action, so no probe outcome ever leads to a second mirror.
pub open spec fn spec_plan_action(probe: RepoProbe) -> SyncAction {
    match probe {
        RepoProbe::Bare => SyncAction::FetchExisting,
        _ => SyncAction::CloneNew,
    }
}

/// Failure causes of a synchronization, distinguishable by the caller:
/// persistence failures, corrupt local data (never overwritten), and git
/// transport failures with the underlying reason preserved.
#[derive(Debug)]
pub enum SyncError {
    /// A ledger or tag store operation failed.
    Backend(BackendError),
    /// The mirror path holds something that is not a bare repository.
    InvalidLocalData { path: String },
    /// The fetch or clone failed; the message preserves the git reason.
    GitOperation { message: String },
}

/// The ledger message recorded when the mirror path holds invalid data.
pub open spec fn spec_invalid_msg(path: Seq<char>) -> Seq<char> {
    "Invalid data at local "@ + path + " - expected bare repo"@
}

fn invalid_msg(path: &str) -> (r: String)
    ensures
        r@ == spec_invalid_msg(path@),
{
    let r = "Invalid data at local ".to_owned().concat(path).concat(" - expected bare repo");
    proof {
        assert(r@ =~= spec_invalid_msg(path@));
    }
    r
}

/// The message a failed git operation is recorded and surfaced with: a
/// prefix naming the operation, then the git reason verbatim.
pub open spec fn spec_git_fail_message(action: SyncAction, msg: Seq<char>) -> Seq<char> {
    match action {
        SyncAction::FetchExisting => "Failed to synchronize: "@ + msg,
        SyncAction::CloneNew => "Failed to clone: "@ + msg,
    }
}

fn git_fail_message(action: SyncAction, msg: &str) -> (r: String)
    ensures
        r@ == spec_git_fail_message(action, msg@),
{
    match action {
        SyncAction::FetchExisting => "Failed to synchronize: ".to_owned().concat(msg),
        SyncAction::CloneNew => "Failed to clone: ".to_owned().concat(msg),
    }
}

/// The views of a list of (tag name, commit id) pairs.
pub open spec fn spec_tag_pairs(tags: Seq<(String, String)>) -> Seq<(Seq<char>, Seq<char>)> {
    tags.map_values(|p: (String, String)| (p.0@, p.1@))
}

/// `l1` is the tag index `l0` after one best-effort indexing run for
/// `workspace_id` over `pairs`: rows are only appended; every new row carries
/// the workspace and one of the pairs, and its triple was not yet present
/// when it was added; and when every pair was already present, nothing
/// changed at all.
pub open spec fn tags_indexed(
    l0: Seq<WorkspaceTagRecord>,
    l1: Seq<WorkspaceTagRecord>,
    workspace_id: i64,
    pairs: Seq<(Seq<char>, Seq<char>)>,
) -> bool {
    &&& l0.is_prefix_of(l1)
    &&& forall|i: int|
        l0.len() <= i < l1.len() ==> {
            &&& (#[trigger] l1[i]).workspace_id == workspace_id
            &&& pairs.contains((l1[i].name@, l1[i].commit_id@))
            &&& !has_tag_triple(l1.take(i), workspace_id, l1[i].name@, l1[i].commit_id@)
        }
    &&& (forall|j: int|
        0 <= j < pairs.len() ==> has_tag_triple(
            l0,
            workspace_id,
            (#[trigger] pairs[j]).0,
            pairs[j].1,
        )) ==> l1 == l0
}

/// Upsert every pair into the tag index, tolerating individual failures:
/// each upsert is attempted independently and a failed one changes nothing.
fn index_tag_pairs<B: WorkspaceTagBackend>(
    backend: &mut B,
    workspace_id: i64,
    tags: &Vec<(String, String)>,
)
    ensures
        tags_indexed(
            old(backend).tag_rows(),
            final(backend).tag_rows(),
            workspace_id,
            spec_tag_pairs(tags@),
        ),
{
    let ghost l0 = backend.tag_rows();
    let ghost pairs = spec_tag_pairs(tags@);
    let mut i: usize = 0;
    proof {
        assert(l0.take(l0.len() as int) =~= l0);
    }
    while i < tags.len()
        invariant
            i <= tags.len(),
            l0 == old(backend).tag_rows(),
            pairs == spec_tag_pairs(tags@),
            tags_indexed(l0, backend.tag_rows(), workspace_id, pairs),
        decreases tags.len() - i,
    {
        let ghost cur = backend.tag_rows();
        let name = &tags[i].0;
        let cid = &tags[i].1;
        let res = backend.index_workspace_tag(workspace_id, name.as_str(), cid.as_str());
        proof {
            let l1 = backend.tag_rows();
            assert(pairs[i as int] == (tags@[i as int].0@, tags@[i as int].1@));
            if res is Ok && !has_tag_triple(cur, workspace_id, name@, cid@) {
                // one row was appended; transfer every indexed fact across
                assert(l1.len() == cur.len() + 1 && l1.drop_last() == cur);
                assert forall|m: int| 0 <= m < cur.len() implies l1[m] == cur[m] by {
                    assert(l1.drop_last()[m] == l1[m]);
                }
                assert(l1.take(l0.len() as int) =~= cur.take(l0.len() as int));
                assert(l0.is_prefix_of(l1));
                assert forall|m: int| l0.len() <= m < l1.len() implies {
                    &&& (#[trigger] l1[m]).workspace_id == workspace_id
                    &&& pairs.contains((l1[m].name@, l1[m].commit_id@))
                    &&& !has_tag_triple(l1.take(m), workspace_id, l1[m].name@, l1[m].commit_id@)
                } by {
                    if m < cur.len() {
                        assert(l1[m] == cur[m]);
                        assert(l1.take(m) =~= cur.take(m));
                    } else {
                        assert(l1[m] == l1.last());
                        assert(pairs.contains((l1[m].name@, l1[m].commit_id@))) by {
                            assert(pairs[i as int] == (l1[m].name@, l1[m].commit_id@));
                        }
                        assert(l1.take(m) =~= cur);
                    }
                }
                if forall|j: int|
                    0 <= j < pairs.len() ==> has_tag_triple(
                        l0,
                        workspace_id,
                        (#[trigger] pairs[j]).0,
                        pairs[j].1,
                    ) {
                    assert(has_tag_triple(l0, workspace_id, name@, cid@));
                    assert(cur == l0);
                    assert(false);
                }
            }
        }
        i += 1;
    }
}

/// Enumerate-and-upsert the tags of a workspace's mirror into the tag index.
/// The host enumerates (tag name, commit id) pairs from the mirror; every
/// pair is upserted independently and a single failure never aborts the
/// sibling upserts or the call, which always succeeds.
pub fn index_tags<B: WorkspaceTagBackend>(
    accessor: &mut GitPmrAccessor<B>,
    tags: &Vec<(String, String)>,
) -> (r: Result<(), SyncError>)
    ensures
        r is Ok,
        final(accessor).git_root == old(accessor).git_root,
        final(accessor).workspace == old(accessor).workspace,
        tags_indexed(
            old(accessor).backend.tag_rows(),
            final(accessor).backend.tag_rows(),
            old(accessor).workspace.id,
            spec_tag_pairs(tags@),
        ),
{
    let workspace_id = accessor.workspace.id;
    index_tag_pairs(&mut accessor.backend, workspace_id, tags);
    Ok(())
}

/// `l1` is the ledger `l0` with exactly one new row for `workspace_id`
/// appended and every old row untouched; the new row carries `status_code`,
/// and `closed` tells whether its end timestamp is set.
pub open spec fn ledger_row_added(
    l0: Seq<WorkspaceSyncRecord>,
    l1: Seq<WorkspaceSyncRecord>,
    workspace_id: i64,
    status_code: int,
    closed: bool,
) -> bool {
    &&& l1.len() == l0.len() + 1
    &&& l1.take(l0.len() as int) == l0
    &&& l1.last().workspace_id == workspace_id
    &&& l1.last().status == status_code
    &&& (closed <==> l1.last().end is Some)
}

/// Synchronize a workspace's local bare mirror with its remote and then
/// index its tags.
///
/// The host probes the mirror path and passes the outcome; `run_git`
/// performs the one git operation this call decides on (a plain mirror fetch
/// into an existing bare mirror, or a bare clone of the workspace's url at
/// the mirror path) and hands back either the mirror's (tag name, commit id)
/// pairs or the git failure reason.
///
/// Every invocation appends exactly one ledger row before any git work, and
/// closes it Completed on success or Error on failure, so failures are
/// always attributable to an attempt; only a failing ledger write itself can
/// leave the row open. Invalid data at the mirror path is fatal and is never
/// overwritten by a clone. Tag indexing runs only after the attempt is
/// recorded Completed, and its per-tag failures never undo that.
///
/// Within one process the exclusive borrows serialize calls; concurrent
/// synchronization of one mirror from separate processes is not locked out,
/// an accepted race of this design that hosts wanting stronger guarantees
/// must exclude themselves.
pub fn git_sync_workspace<
    S: WorkspaceSyncBackend,
    T: WorkspaceTagBackend,
    F: Fn(SyncAction) -> Result<Vec<(String, String)>, String>,
>(
    accessor: &mut GitPmrAccessor<S>,
    tag_backend: &mut T,
    probe: RepoProbe,
    run_git: F,
) -> (r: Result<(), SyncError>)
    requires
        forall|a: SyncAction| #[trigger] call_requires(run_git, (a,)),
    ensures
        final(accessor).git_root == old(accessor).git_root,
        final(accessor).workspace == old(accessor).workspace,
        match r {
            Ok(()) => {
                &&& probe != RepoProbe::Invalid
                &&& ledger_row_added(
                    old(accessor).backend.sync_ledger(),
                    final(accessor).backend.sync_ledger(),
                    old(accessor).workspace.id,
                    spec_status_code(WorkspaceSyncStatus::Completed),
                    true,
                )
                &&& exists|tags: Vec<(String, String)>|
                    #[trigger] call_ensures(run_git, (spec_plan_action(probe),), Ok(tags))
                        && tags_indexed(
                        old(tag_backend).tag_rows(),
                        final(tag_backend).tag_rows(),
                        old(accessor).workspace.id,
                        spec_tag_pairs(tags@),
                    )
            },
            Err(SyncError::Backend(_)) => {
                &&& (final(accessor).backend.sync_ledger() == old(
                    accessor,
                ).backend.sync_ledger() || ledger_row_added(
                    old(accessor).backend.sync_ledger(),
                    final(accessor).backend.sync_ledger(),
                    old(accessor).workspace.id,
                    spec_status_code(WorkspaceSyncStatus::Running),
                    false,
                ))
                &&& final(tag_backend).tag_rows() == old(tag_backend).tag_rows()
            },
            Err(SyncError::InvalidLocalData { path }) => {
                &&& probe == RepoProbe::Invalid
                &&& path@ == spec_mirror_path(
                    old(accessor).git_root@,
                    old(accessor).workspace.id,
                )
                &&& (ledger_row_added(
                    old(accessor).backend.sync_ledger(),
                    final(accessor).backend.sync_ledger(),
                    old(accessor).workspace.id,
                    spec_status_code(WorkspaceSyncStatus::Error),
                    true,
                ) || ledger_row_added(
                    old(accessor).backend.sync_ledger(),
                    final(accessor).backend.sync_ledger(),
                    old(accessor).workspace.id,
                    spec_status_code(WorkspaceSyncStatus::Running),
                    false,
                ))
                &&& final(tag_backend).tag_rows() == old(tag_backend).tag_rows()
            },
            Err(SyncError::GitOperation { message }) => {
                &&& probe != RepoProbe::Invalid
                &&& exists|msg: String|
                    #[trigger] call_ensures(run_git, (spec_plan_action(probe),), Err(msg))
                        && message@ == spec_git_fail_message(spec_plan_action(probe), msg@)
                &&& (ledger_row_added(
                    old(accessor).backend.sync_ledger(),
                    final(accessor).backend.sync_ledger(),
                    old(accessor).workspace.id,
                    spec_status_code(WorkspaceSyncStatus::Error),
                    true,
                ) || ledger_row_added(
                    old(accessor).backend.sync_ledger(),
                    final(accessor).backend.sync_ledger(),
                    old(accessor).workspace.id,
                    spec_status_code(WorkspaceSyncStatus::Running),
                    false,
                ))
                &&& final(tag_backend).tag_rows() == old(tag_backend).tag_rows()
            },
        },
{
    let ghost l0 = accessor.backend.sync_ledger();
    let workspace_id = accessor.workspace.id;
    let sync_id = match accessor.backend.begin_sync(workspace_id) {
        Ok(id) => id,
        Err(e) => {
            return Err(SyncError::Backend(e));
        },
    };
    let ghost lb = accessor.backend.sync_ledger();
    proof {
        assert(lb.take(l0.len() as int) =~= lb.drop_last());
    }
    let action = match probe {
        RepoProbe::Invalid => {
            let mirror = mirror_path(accessor.git_root.as_str(), workspace_id);
            let msg = invalid_msg(mirror.as_str());
            let res = accessor.backend.fail_sync(sync_id, msg);
            proof {
                lemma_marked_fresh_row(lb, accessor.backend.sync_ledger(), l0, sync_id);
                if res is Ok {
                    assert(false);
                }
            }
            return Err(SyncError::InvalidLocalData { path: mirror });
        },
        RepoProbe::Bare => SyncAction::FetchExisting,
        RepoProbe::Missing => SyncAction::CloneNew,
    };
    proof {
        assert(action == spec_plan_action(probe));
    }
    match run_git(action) {
        Err(msg) => {
            let full = git_fail_message(action, msg.as_str());
            let res = accessor.backend.fail_sync(sync_id, full.clone());
            proof {
                lemma_marked_fresh_row(lb, accessor.backend.sync_ledger(), l0, sync_id);
                if res is Ok {
                    assert(false);
                }
            }
            Err(SyncError::GitOperation { message: full })
        },
        Ok(tags) => {
            match accessor.backend.complete_sync(sync_id, WorkspaceSyncStatus::Completed) {
                Ok(_) => {},
                Err(e) => {
                    return Err(SyncError::Backend(e));
                },
            }
            proof {
                lemma_marked_fresh_row(lb, accessor.backend.sync_ledger(), l0, sync_id);
            }
            index_tag_pairs(tag_backend, workspace_id, &tags);
            Ok(())
        },
    }
}

/// Two successive synchronizations of one workspace, each ending in a
/// terminal state, append exactly two ledger rows: both belong to the
/// workspace, both are closed, and every older row is untouched. And since a
/// present mirror plans a fetch, never a clone, the pair of runs makes at
/// most one mirror.
pub proof fn lemma_sync_twice(
    l0: Seq<WorkspaceSyncRecord>,
    l1: Seq<WorkspaceSyncRecord>,
    l2: Seq<WorkspaceSyncRecord>,
    workspace_id: i64,
    c1: int,
    c2: int,
)
    requires
        ledger_row_added(l0, l1, workspace_id, c1, true),
        ledger_row_added(l1, l2, workspace_id, c2, true),
    ensures
        l2.len() == l0.len() + 2,
        l2.take(l0.len() as int) == l0,
        l2[l0.len() as int].workspace_id == workspace_id,
        l2[l0.len() as int].status == c1,
        l2[l0.len() as int].end is Some,
        l2.last().workspace_id == workspace_id,
        l2.last().status == c2,
        l2.last().end is Some,
        spec_plan_action(RepoProbe::Bare) == SyncAction::FetchExisting,
{
    assert(l2[l0.len() as int] == l2.take(l1.len() as int)[l0.len() as int]);
    assert(l2[l0.len() as int] == l1.last());
    assert forall|m: int| 0 <= m < l0.len() implies l2[m] == l0[m] by {
        assert(l2.take(l1.len() as int)[m] == l2[m]);
        assert(l1.take(l0.len() as int)[m] == l1[m]);
    }
    assert(l2.take(l0.len() as int) =~= l0);
}

/// Tag indexing keeps the index's uniqueness invariant: if no two rows
/// carried the same (workspace, name, commit) triple before a run, none do
/// after it — re-indexing never duplicates a tag row.
pub proof fn lemma_tags_indexed_unique(
    l0: Seq<WorkspaceTagRecord>,
    l1: Seq<WorkspaceTagRecord>,
    workspace_id: i64,
    pairs: Seq<(Seq<char>, Seq<char>)>,
)
    requires
        crate::workspace_tag::tags_unique(l0),
        tags_indexed(l0, l1, workspace_id, pairs),
    ensures
        crate::workspace_tag::tags_unique(l1),
{
    assert forall|i: int, j: int| 0 <= i < j < l1.len() implies !tag_matches(
        l1[j],
        l1[i].workspace_id,
        l1[i].name@,
        l1[i].commit_id@,
    ) by {
        if i < l0.len() {
            assert(l1.subrange(0, l0.len() as int)[i] == l1[i]);
            assert(l0[i] == l1[i]);
        }
        if j < l0.len() {
            assert(l1.subrange(0, l0.len() as int)[j] == l1[j]);
            assert(l0[j] == l1[j]);
        } else {
            if tag_matches(l1[j], l1[i].workspace_id, l1[i].name@, l1[i].commit_id@) {
                assert(l1.take(j)[i] == l1[i]);
                assert(tag_matches(
                    l1.take(j)[i],
                    workspace_id,
                    l1[j].name@,
                    l1[j].commit_id@,
                ));
                assert(has_tag_triple(l1.take(j), workspace_id, l1[j].name@, l1[j].commit_id@));
                assert(false);
            }
        }
    }
}

/// Indexing an empty tag enumeration leaves the tag index unchanged.
pub proof fn lemma_index_no_tags(
    l0: Seq<WorkspaceTagRecord>,
    l1: Seq<WorkspaceTagRecord>,
    workspace_id: i64,
    pairs: Seq<(Seq<char>, Seq<char>)>,
)
    requires
        tags_indexed(l0, l1, workspace_id, pairs),
        pairs.len() == 0,
    ensures
        l1 == l0,
{
}

/// Resolving with an absent or empty path reaches the commit's root tree
/// itself, and every description of that outcome is a tree listing whose
/// filecount is exactly the number of the root tree's immediate entries.
pub proof fn lemma_root_resolution(repo: RepoSnapshot, commit: RepoCommit, rt: RepoObject)
    requires
        spec_find_object(repo.objects@, commit.tree_id@) == Some(rt),
        rt is Tree,
    ensures
        spec_path_components(Seq::<char>::empty()) == Seq::<Seq<char>>::empty(),
        spec_descend(repo.objects@, rt, spec_path_components(Seq::<char>::empty())) == Some(rt),
        forall|info: ObjectInfo|
            spec_info_describes(info, rt) ==> (rt matches RepoObject::Tree(t) && (info matches
            ObjectInfo::TreeInfo { filecount, entries } && filecount == t.entries@.len()
                && entries@.len() == t.entries@.len())),
{
}

/// Closing a freshly appended row touches that row alone: if `lb` is `l0`
/// plus one open row under a fresh id and `lf` is `lb` with that id closed,
/// then `lf` is `l0` plus one closed row, every old row untouched.
proof fn lemma_marked_fresh_row(
    lb: Seq<WorkspaceSyncRecord>,
    lf: Seq<WorkspaceSyncRecord>,
    l0: Seq<WorkspaceSyncRecord>,
    id: i64,
)
    requires
        lb.len() == l0.len() + 1,
        lb.drop_last() == l0,
        lb.last().id == id,
        crate::workspace_sync::sync_id_fresh(l0, id),
    ensures
        forall|code: int|
            #[trigger] crate::workspace_sync::sync_marked(lb, lf, id, code) ==> {
                &&& lf.len() == l0.len() + 1
                &&& lf.take(l0.len() as int) == l0
                &&& crate::workspace_sync::sync_row_marked(lb.last(), lf.last(), code)
            },
{
    assert forall|code: int|
        #[trigger] crate::workspace_sync::sync_marked(lb, lf, id, code) implies {
        &&& lf.len() == l0.len() + 1
        &&& lf.take(l0.len() as int) == l0
        &&& crate::workspace_sync::sync_row_marked(lb.last(), lf.last(), code)
    } by {
        assert forall|m: int| 0 <= m < l0.len() implies lf[m] == l0[m] by {
            assert(lb.drop_last()[m] == lb[m]);
            assert(lb[m].id != id);
        }
        assert(lf.take(l0.len() as int) =~= l0);
        assert(lb[lb.len() - 1].id == id);
    }
}

} // verus!
