//! Workspace records: the registry of remote repositories tracked by the
//! catalog, each identified by a stable integer.

use vstd::prelude::*;
use crate::BackendError;

verus! {

/// A registered workspace as the store hands it out. The store also keeps a
/// long description and a creation timestamp; those never reach the core, so
/// the record (and the model below) carries only the fields the core reads.
#[derive(Debug)]
pub struct WorkspaceRecord {
    pub id: i64,
    pub url: String,
    pub description: Option<String>,
}

impl Clone for WorkspaceRecord {
    fn clone(&self) -> (r: Self)
        ensures
            r == *self,
    {
        WorkspaceRecord {
            id: self.id,
            url: self.url.clone(),
            description: match &self.description {
                Some(d) => Some(d.clone()),
                None => None,
            },
        }
    }
}

/// The one-line rendering of a workspace record: id, url and description
/// separated by dashes, with a placeholder for an absent description.
pub open spec fn spec_workspace_line(r: WorkspaceRecord) -> Seq<char> {
    crate::utils::spec_i64_decimal(r.id) + " - "@ + r.url@ + " - "@ + (match r.description {
        Some(d) => d@,
        None => "<empty>"@,
    })
}

impl WorkspaceRecord {
    /// Render this record as its one-line listing form.
    pub fn display_line(&self) -> (r: String)
        ensures
            r@ == spec_workspace_line(*self),
    {
        let desc: &str = match &self.description {
            Some(d) => d.as_str(),
            None => "<empty>",
        };
        let r = crate::utils::i64_to_decimal(self.id).concat(" - ").concat(self.url.as_str())
            .concat(" - ").concat(desc);
        proof {
            assert(r@ =~= spec_workspace_line(*self));
        }
        r
    }
}

/// No record of `l` carries the workspace identifier `id`.
pub open spec fn workspace_id_fresh(l: Seq<WorkspaceRecord>, id: i64) -> bool {
    forall|i: int| 0 <= i < l.len() ==> l[i].id != id
}

/// Some record of `l` carries the workspace identifier `id`.
pub open spec fn has_workspace_id(l: Seq<WorkspaceRecord>, id: i64) -> bool {
    exists|i: int| 0 <= i < l.len() && l[i].id == id
}

/// `l1` extends `l0` by exactly one record with the given url and description,
/// under a previously unused workspace identifier `id`.
pub open spec fn workspace_added(
    l0: Seq<WorkspaceRecord>,
    l1: Seq<WorkspaceRecord>,
    url: Seq<char>,
    description: Seq<char>,
    id: i64,
) -> bool {
    &&& l1.len() == l0.len() + 1
    &&& l1.drop_last() == l0
    &&& l1.last().id == id
    &&& l1.last().url@ == url
    &&& l1.last().description matches Some(d) && d@ == description
    &&& workspace_id_fresh(l0, id)
}

/// `l1` is `l0` with the description of every record whose identifier is `id`
/// replaced by `description`, and all other records untouched.
pub open spec fn workspace_updated(
    l0: Seq<WorkspaceRecord>,
    l1: Seq<WorkspaceRecord>,
    id: i64,
    description: Seq<char>,
) -> bool {
    &&& l1.len() == l0.len()
    &&& forall|i: int| 0 <= i < l0.len() && l0[i].id != id ==> l1[i] == l0[i]
    &&& forall|i: int|
        0 <= i < l0.len() && l0[i].id == id ==> {
            &&& (#[trigger] l1[i]).id == l0[i].id
            &&& l1[i].url == l0[i].url
            &&& l1[i].description matches Some(d) && d@ == description
        }
}

/// Durable registry of workspaces. The store is modelled as the sequence of
/// its records in order of registration (identifiers ascend with it); every
/// operation may fail, and a failed operation leaves the registry unchanged.
pub trait WorkspaceBackend {
    /// The registered workspaces, oldest first.
    spec fn workspaces(&self) -> Seq<WorkspaceRecord>;

    /// Register a workspace under a fresh identifier and return it. The long
    /// description is stored alongside but is not part of the model.
    fn add_workspace(&mut self, url: &str, description: &str, long_description: &str) -> (r:
        Result<i64, BackendError>)
        ensures
            match r {
                Ok(id) => workspace_added(
                    old(self).workspaces(),
                    final(self).workspaces(),
                    url@,
                    description@,
                    id,
                ),
                Err(_) => final(self).workspaces() == old(self).workspaces(),
            },
    ;

    /// Replace the descriptions of workspace `id`; the result tells whether
    /// any record carried that identifier.
    fn update_workspace(&mut self, id: i64, description: &str, long_description: &str) -> (r:
        Result<bool, BackendError>)
        ensures
            match r {
                Ok(b) => workspace_updated(
                    old(self).workspaces(),
                    final(self).workspaces(),
                    id,
                    description@,
                ) && (b <==> has_workspace_id(old(self).workspaces(), id)),
                Err(_) => final(self).workspaces() == old(self).workspaces(),
            },
    ;

    /// All registered workspaces, oldest first.
    fn list_workspaces(&self) -> (r: Result<Vec<WorkspaceRecord>, BackendError>)
        ensures
            (r matches Ok(v) ==> v@ == self.workspaces()),
    ;

    /// The record registered under `id`. Success is not owed (the store is
    /// remote and `id` may be unregistered), but a returned record is one of
    /// the registry's rows for `id`.
    fn get_workspace_by_id(&self, id: i64) -> (r: Result<WorkspaceRecord, BackendError>)
        ensures
            (r matches Ok(rec) ==> {
                &&& rec.id == id
                &&& exists|i: int|
                    0 <= i < self.workspaces().len() && #[trigger] self.workspaces()[i] == rec
            }),
    ;
}

} // verus!
