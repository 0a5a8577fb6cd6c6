//! The tag index: a durable cache mapping (workspace, tag name) to the commit
//! the tag designates. Rows are upserted, never deleted, and the triple
//! (workspace, name, commit) is unique.

use vstd::prelude::*;
use crate::BackendError;

verus! {

/// One row of the tag index.
#[derive(Debug)]
pub struct WorkspaceTagRecord {
    pub id: i64,
    pub workspace_id: i64,
    pub name: String,
    pub commit_id: String,
}

impl Clone for WorkspaceTagRecord {
    fn clone(&self) -> (r: Self)
        ensures
            r == *self,
    {
        WorkspaceTagRecord {
            id: self.id,
            workspace_id: self.workspace_id,
            name: self.name.clone(),
            commit_id: self.commit_id.clone(),
        }
    }
}

/// The one-line rendering of a tag row: the commit id, a dash, the tag name.
pub open spec fn spec_tag_line(r: WorkspaceTagRecord) -> Seq<char> {
    r.commit_id@ + " - "@ + r.name@
}

impl WorkspaceTagRecord {
    /// Render this row as its one-line listing form.
    pub fn display_line(&self) -> (r: String)
        ensures
            r@ == spec_tag_line(*self),
    {
        let r = self.commit_id.clone().concat(" - ").concat(self.name.as_str());
        proof {
            assert(r@ =~= spec_tag_line(*self));
        }
        r
    }
}

/// Row `r` carries exactly the triple (workspace, tag name, commit).
pub open spec fn tag_matches(
    r: WorkspaceTagRecord,
    workspace_id: i64,
    name: Seq<char>,
    commit_id: Seq<char>,
) -> bool {
    &&& r.workspace_id == workspace_id
    &&& r.name@ == name
    &&& r.commit_id@ == commit_id
}

/// Some row of `l` carries the triple.
pub open spec fn has_tag_triple(
    l: Seq<WorkspaceTagRecord>,
    workspace_id: i64,
    name: Seq<char>,
    commit_id: Seq<char>,
) -> bool {
    exists|i: int| 0 <= i < l.len() && tag_matches(#[trigger] l[i], workspace_id, name, commit_id)
}

/// No two rows of `l` carry the same triple: the tag index's uniqueness
/// invariant.
pub open spec fn tags_unique(l: Seq<WorkspaceTagRecord>) -> bool {
    forall|i: int, j: int|
        0 <= i < j < l.len() ==> !tag_matches(
            #[trigger] l[j],
            (#[trigger] l[i]).workspace_id,
            l[i].name@,
            l[i].commit_id@,
        )
}

/// `l1` is the result of upserting the triple into `l0`: a no-op when the
/// triple is already present, otherwise exactly one new row carrying it.
pub open spec fn tag_upserted(
    l0: Seq<WorkspaceTagRecord>,
    l1: Seq<WorkspaceTagRecord>,
    workspace_id: i64,
    name: Seq<char>,
    commit_id: Seq<char>,
) -> bool {
    if has_tag_triple(l0, workspace_id, name, commit_id) {
        l1 == l0
    } else {
        &&& l1.len() == l0.len() + 1
        &&& l1.drop_last() == l0
        &&& tag_matches(l1.last(), workspace_id, name, commit_id)
    }
}

/// Durable tag index. The store is modelled as the sequence of its rows in
/// insertion order; every operation may fail, and a failed operation leaves
/// the index unchanged.
pub trait WorkspaceTagBackend {
    /// The rows of the tag index, oldest first.
    spec fn tag_rows(&self) -> Seq<WorkspaceTagRecord>;

    /// Upsert one (workspace, tag name, commit) triple: insert a row unless
    /// the same triple is already present, in which case nothing changes and
    /// the call still succeeds.
    fn index_workspace_tag(&mut self, workspace_id: i64, name: &str, commit_id: &str) -> (r:
        Result<i64, BackendError>)
        ensures
            match r {
                Ok(_) => tag_upserted(
                    old(self).tag_rows(),
                    final(self).tag_rows(),
                    workspace_id,
                    name@,
                    commit_id@,
                ),
                Err(_) => final(self).tag_rows() == old(self).tag_rows(),
            },
    ;

    /// All rows for `workspace_id`, oldest first.
    fn get_workspace_tags(&self, workspace_id: i64) -> (r: Result<
        Vec<WorkspaceTagRecord>,
        BackendError,
    >)
        ensures
            (r matches Ok(v) ==> v@ == self.tag_rows().filter(
                |row: WorkspaceTagRecord| row.workspace_id == workspace_id,
            )),
    ;
}

} // verus!
