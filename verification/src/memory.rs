//! An in-memory implementation of the three persistence capabilities. It
//! backs the tests and any host that does not need durable storage, and it
//! shows that the capability contracts can be met.

use vstd::prelude::*;
use crate::BackendError;
use crate::utils::timestamp;
use crate::workspace::{WorkspaceBackend, WorkspaceRecord, workspace_id_fresh};
use crate::workspace_sync::{
    WorkspaceSyncBackend, WorkspaceSyncRecord, WorkspaceSyncStatus, sync_id_fresh, sync_row_marked,
};
use crate::workspace_tag::{WorkspaceTagBackend, WorkspaceTagRecord, tag_matches};

verus! {

/// The wall clock as an `i64` epoch-second stamp, clamped into range; rows
/// only ever carry it, so no caller depends on its value.
fn now_secs() -> i64 {
    match timestamp() {
        Ok(t) => if t > i64::MAX as u64 {
            i64::MAX
        } else {
            t as i64
        },
        Err(_) => 0,
    }
}

/// Stores for all three capabilities, kept in plain vectors.
pub struct MemoryBackend {
    ws: Vec<WorkspaceRecord>,
    syncs: Vec<WorkspaceSyncRecord>,
    tags: Vec<WorkspaceTagRecord>,
}

impl MemoryBackend {
    /// An empty backend: no workspaces, no ledger rows, no tags.
    pub fn new() -> (r: MemoryBackend)
        ensures
            r.workspaces() == Seq::<WorkspaceRecord>::empty(),
            r.sync_ledger() == Seq::<WorkspaceSyncRecord>::empty(),
            r.tag_rows() == Seq::<WorkspaceTagRecord>::empty(),
    {
        let r = MemoryBackend { ws: Vec::new(), syncs: Vec::new(), tags: Vec::new() };
        proof {
            assert(r.ws@ =~= Seq::<WorkspaceRecord>::empty());
            assert(r.syncs@ =~= Seq::<WorkspaceSyncRecord>::empty());
            assert(r.tags@ =~= Seq::<WorkspaceTagRecord>::empty());
        }
        r
    }

    /// An identifier strictly above every workspace id, or none at the type's
    /// ceiling.
    fn fresh_ws_id(&self) -> (r: Option<i64>)
        ensures
            (r matches Some(id) ==> workspace_id_fresh(self.workspaces(), id)),
    {
        let mut m: i64 = 0;
        let mut i: usize = 0;
        while i < self.ws.len()
            invariant
                i <= self.ws.len(),
                m >= 0,
                forall|j: int| 0 <= j < i ==> self.ws@[j].id <= m,
            decreases self.ws.len() - i,
        {
            if self.ws[i].id > m {
                m = self.ws[i].id;
            }
            i += 1;
        }
        if m == i64::MAX {
            None
        } else {
            Some(m + 1)
        }
    }

    /// An identifier strictly above every ledger row id, or none at the
    /// type's ceiling.
    fn fresh_sync_id(&self) -> (r: Option<i64>)
        ensures
            (r matches Some(id) ==> sync_id_fresh(self.sync_ledger(), id)),
    {
        let mut m: i64 = 0;
        let mut i: usize = 0;
        while i < self.syncs.len()
            invariant
                i <= self.syncs.len(),
                m >= 0,
                forall|j: int| 0 <= j < i ==> self.syncs@[j].id <= m,
            decreases self.syncs.len() - i,
        {
            if self.syncs[i].id > m {
                m = self.syncs[i].id;
            }
            i += 1;
        }
        if m == i64::MAX {
            None
        } else {
            Some(m + 1)
        }
    }

    /// An identifier strictly above every tag row id, or none at the type's
    /// ceiling.
    fn fresh_tag_id(&self) -> (r: Option<i64>)
        ensures
            (r matches Some(id) ==> forall|j: int|
                0 <= j < self.tag_rows().len() ==> (#[trigger] self.tag_rows()[j]).id != id),
    {
        let mut m: i64 = 0;
        let mut i: usize = 0;
        while i < self.tags.len()
            invariant
                i <= self.tags.len(),
                m >= 0,
                forall|j: int| 0 <= j < i ==> self.tags@[j].id <= m,
            decreases self.tags.len() - i,
        {
            if self.tags[i].id > m {
                m = self.tags[i].id;
            }
            i += 1;
        }
        if m == i64::MAX {
            None
        } else {
            Some(m + 1)
        }
    }
}

impl WorkspaceBackend for MemoryBackend {
    closed spec fn workspaces(&self) -> Seq<WorkspaceRecord> {
        self.ws@
    }

    fn add_workspace(&mut self, url: &str, description: &str, long_description: &str) -> (r:
        Result<i64, BackendError>) {
        let id = match self.fresh_ws_id() {
            Some(id) => id,
            None => {
                return Err(BackendError { message: "workspace ids exhausted".to_owned() });
            },
        };
        let rec = WorkspaceRecord { id, url: url.to_owned(), description: Some(
            description.to_owned(),
        ) };
        self.ws.push(rec);
        proof {
            assert(self.ws@.drop_last() =~= old(self).ws@);
        }
        Ok(id)
    }

    fn update_workspace(&mut self, id: i64, description: &str, long_description: &str) -> (r:
        Result<bool, BackendError>) {
        let mut out: Vec<WorkspaceRecord> = Vec::new();
        let mut found = false;
        let mut i: usize = 0;
        while i < self.ws.len()
            invariant
                self == old(self),
                i <= self.ws.len(),
                out@.len() == i,
                found <==> exists|j: int| 0 <= j < i && (#[trigger] self.ws@[j]).id == id,
                forall|j: int|
                    0 <= j < i && (#[trigger] self.ws@[j]).id != id ==> out@[j] == self.ws@[j],
                forall|j: int|
                    0 <= j < i && (#[trigger] self.ws@[j]).id == id ==> {
                        &&& out@[j].id == self.ws@[j].id
                        &&& out@[j].url == self.ws@[j].url
                        &&& out@[j].description matches Some(d) && d@ == description@
                    },
            decreases self.ws.len() - i,
        {
            let rec = &self.ws[i];
            if rec.id == id {
                found = true;
                out.push(
                    WorkspaceRecord {
                        id: rec.id,
                        url: rec.url.clone(),
                        description: Some(description.to_owned()),
                    },
                );
            } else {
                out.push(rec.clone());
            }
            i += 1;
        }
        self.ws = out;
        Ok(found)
    }

    fn list_workspaces(&self) -> (r: Result<Vec<WorkspaceRecord>, BackendError>) {
        let mut out: Vec<WorkspaceRecord> = Vec::new();
        let mut i: usize = 0;
        while i < self.ws.len()
            invariant
                i <= self.ws.len(),
                out@.len() == i,
                forall|j: int| 0 <= j < i ==> out@[j] == self.ws@[j],
            decreases self.ws.len() - i,
        {
            out.push(self.ws[i].clone());
            i += 1;
        }
        proof {
            assert(out@ =~= self.ws@);
        }
        Ok(out)
    }

    fn get_workspace_by_id(&self, id: i64) -> (r: Result<WorkspaceRecord, BackendError>) {
        let mut i: usize = 0;
        while i < self.ws.len()
            invariant
                i <= self.ws.len(),
            decreases self.ws.len() - i,
        {
            if self.ws[i].id == id {
                let rec = self.ws[i].clone();
                proof {
                    assert(self.workspaces()[i as int] == rec);
                }
                return Ok(rec);
            }
            i += 1;
        }
        Err(BackendError { message: "workspace not found".to_owned() })
    }
}

impl WorkspaceSyncBackend for MemoryBackend {
    closed spec fn sync_ledger(&self) -> Seq<WorkspaceSyncRecord> {
        self.syncs@
    }

    fn begin_sync(&mut self, workspace_id: i64) -> (r: Result<i64, BackendError>) {
        let id = match self.fresh_sync_id() {
            Some(id) => id,
            None => {
                return Err(BackendError { message: "sync ids exhausted".to_owned() });
            },
        };
        let row = WorkspaceSyncRecord {
            id,
            workspace_id,
            start: now_secs(),
            end: None,
            status: WorkspaceSyncStatus::Running.code(),
        };
        self.syncs.push(row);
        proof {
            assert(self.syncs@.drop_last() =~= old(self).syncs@);
        }
        Ok(id)
    }

    fn complete_sync(&mut self, id: i64, status: WorkspaceSyncStatus) -> (r: Result<
        bool,
        BackendError,
    >) {
        let code = status.code();
        let ts = now_secs();
        let mut out: Vec<WorkspaceSyncRecord> = Vec::new();
        let mut found = false;
        let mut i: usize = 0;
        while i < self.syncs.len()
            invariant
                self == old(self),
                i <= self.syncs.len(),
                out@.len() == i,
                code == crate::workspace_sync::spec_status_code(status),
                found <==> exists|j: int| 0 <= j < i && (#[trigger] self.syncs@[j]).id == id,
                forall|j: int|
                    0 <= j < i && (#[trigger] self.syncs@[j]).id != id ==> out@[j]
                        == self.syncs@[j],
                forall|j: int|
                    0 <= j < i && (#[trigger] self.syncs@[j]).id == id ==> sync_row_marked(
                        self.syncs@[j],
                        out@[j],
                        code as int,
                    ),
            decreases self.syncs.len() - i,
        {
            let row = self.syncs[i];
            if row.id == id {
                found = true;
                out.push(
                    WorkspaceSyncRecord {
                        id: row.id,
                        workspace_id: row.workspace_id,
                        start: row.start,
                        end: Some(ts),
                        status: code,
                    },
                );
            } else {
                out.push(row);
            }
            i += 1;
        }
        self.syncs = out;
        Ok(found)
    }

    fn fail_sync(&mut self, id: i64, msg: String) -> (r: Result<(), BackendError>) {
        match self.complete_sync(id, WorkspaceSyncStatus::Error) {
            Ok(_) => Err(BackendError { message: msg }),
            Err(e) => Err(e),
        }
    }

    fn get_workspaces_sync_records(&self, workspace_id: i64) -> (r: Result<
        Vec<WorkspaceSyncRecord>,
        BackendError,
    >) {
        let ghost pred = |row: WorkspaceSyncRecord| row.workspace_id == workspace_id;
        let mut out: Vec<WorkspaceSyncRecord> = Vec::new();
        let mut i: usize = 0;
        proof {
            reveal(Seq::filter);
            assert(self.syncs@.take(0).filter(pred) =~= out@);
        }
        while i < self.syncs.len()
            invariant
                i <= self.syncs.len(),
                out@ == self.syncs@.take(i as int).filter(pred),
                pred == (|row: WorkspaceSyncRecord| row.workspace_id == workspace_id),
            decreases self.syncs.len() - i,
        {
            let row = self.syncs[i];
            if row.workspace_id == workspace_id {
                out.push(row);
            }
            proof {
                reveal(Seq::filter);
                assert(self.syncs@.take(i + 1).drop_last() =~= self.syncs@.take(i as int));
                assert(self.syncs@.take(i + 1).last() == self.syncs@[i as int]);
                assert(out@ == self.syncs@.take(i + 1).filter(pred));
            }
            i += 1;
        }
        proof {
            assert(self.syncs@.take(self.syncs@.len() as int) =~= self.syncs@);
        }
        Ok(out)
    }
}

impl WorkspaceTagBackend for MemoryBackend {
    closed spec fn tag_rows(&self) -> Seq<WorkspaceTagRecord> {
        self.tags@
    }

    fn index_workspace_tag(&mut self, workspace_id: i64, name: &str, commit_id: &str) -> (r:
        Result<i64, BackendError>) {
        let name_key = name.to_owned();
        let commit_key = commit_id.to_owned();
        let mut i: usize = 0;
        while i < self.tags.len()
            invariant
                self == old(self),
                i <= self.tags.len(),
                name_key@ == name@,
                commit_key@ == commit_id@,
                forall|j: int|
                    0 <= j < i ==> !tag_matches(
                        #[trigger] self.tags@[j],
                        workspace_id,
                        name@,
                        commit_id@,
                    ),
            decreases self.tags.len() - i,
        {
            let row = &self.tags[i];
            if row.workspace_id == workspace_id && row.name == name_key && row.commit_id
                == commit_key {
                return Ok(row.id);
            }
            i += 1;
        }
        let id = match self.fresh_tag_id() {
            Some(id) => id,
            None => {
                return Err(BackendError { message: "tag ids exhausted".to_owned() });
            },
        };
        let row = WorkspaceTagRecord { id, workspace_id, name: name_key, commit_id: commit_key };
        self.tags.push(row);
        proof {
            assert(self.tags@.drop_last() =~= old(self).tags@);
        }
        Ok(id)
    }

    fn get_workspace_tags(&self, workspace_id: i64) -> (r: Result<
        Vec<WorkspaceTagRecord>,
        BackendError,
    >) {
        let ghost pred = |row: WorkspaceTagRecord| row.workspace_id == workspace_id;
        let mut out: Vec<WorkspaceTagRecord> = Vec::new();
        let mut i: usize = 0;
        proof {
            reveal(Seq::filter);
            assert(self.tags@.take(0).filter(pred) =~= out@);
        }
        while i < self.tags.len()
            invariant
                i <= self.tags.len(),
                out@ == self.tags@.take(i as int).filter(pred),
                pred == (|row: WorkspaceTagRecord| row.workspace_id == workspace_id),
            decreases self.tags.len() - i,
        {
            let row = self.tags[i].clone();
            if row.workspace_id == workspace_id {
                out.push(row);
            }
            proof {
                reveal(Seq::filter);
                assert(self.tags@.take(i + 1).drop_last() =~= self.tags@.take(i as int));
                assert(self.tags@.take(i + 1).last() == self.tags@[i as int]);
                assert(out@ == self.tags@.take(i + 1).filter(pred));
            }
            i += 1;
        }
        proof {
            assert(self.tags@.take(self.tags@.len() as int) =~= self.tags@);
        }
        Ok(out)
    }
}

} // verus!
