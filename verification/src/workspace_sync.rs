//! The sync status ledger: one row per synchronization attempt, driven through
//! Running / Completed / Error states.

use vstd::prelude::*;
use crate::BackendError;

verus! {

/// Lifecycle state of a synchronization attempt. `Unknown` stands for status
/// codes outside the known range: a defensive decode fallback, never written.
#[derive(Clone, Copy, Debug, PartialEq, Eq, Structural)]
pub enum WorkspaceSyncStatus {
    Completed,
    Running,
    Error,
    Unknown,
}

/// Numeric code stored in a ledger row for each status; `Unknown` is kept out
/// of the writable range.
pub open spec fn spec_status_code(s: WorkspaceSyncStatus) -> int {
    match s {
        WorkspaceSyncStatus::Completed => 0,
        WorkspaceSyncStatus::Running => 1,
        WorkspaceSyncStatus::Error => 2,
        WorkspaceSyncStatus::Unknown => -1,
    }
}

/// The status a stored code decodes to: the inverse of `spec_status_code` on
/// the three writable states, `Unknown` elsewhere.
pub open spec fn spec_status_of_code(code: i64) -> WorkspaceSyncStatus {
    if code == 0 {
        WorkspaceSyncStatus::Completed
    } else if code == 1 {
        WorkspaceSyncStatus::Running
    } else if code == 2 {
        WorkspaceSyncStatus::Error
    } else {
        WorkspaceSyncStatus::Unknown
    }
}

impl WorkspaceSyncStatus {
    /// Numeric code under which this status is stored.
    pub fn code(self) -> (r: i64)
        ensures
            r == spec_status_code(self),
    {
        match self {
            WorkspaceSyncStatus::Completed => 0,
            WorkspaceSyncStatus::Running => 1,
            WorkspaceSyncStatus::Error => 2,
            WorkspaceSyncStatus::Unknown => -1,
        }
    }

    /// Decode a stored status code; codes outside the known range give
    /// `Unknown`.
    pub fn from_code(code: i64) -> (r: WorkspaceSyncStatus)
        ensures
            r == spec_status_of_code(code),
    {
        if code == 0 {
            WorkspaceSyncStatus::Completed
        } else if code == 1 {
            WorkspaceSyncStatus::Running
        } else if code == 2 {
            WorkspaceSyncStatus::Error
        } else {
            WorkspaceSyncStatus::Unknown
        }
    }
}

/// The display name of a status, as it appears in listings.
pub open spec fn spec_status_name(s: WorkspaceSyncStatus) -> Seq<char> {
    match s {
        WorkspaceSyncStatus::Completed => "Completed"@,
        WorkspaceSyncStatus::Running => "Running"@,
        WorkspaceSyncStatus::Error => "Error"@,
        WorkspaceSyncStatus::Unknown => "Unknown"@,
    }
}

impl WorkspaceSyncStatus {
    /// The display name of this status.
    pub fn name_str(self) -> (r: &'static str)
        ensures
            r@ == spec_status_name(self),
    {
        match self {
            WorkspaceSyncStatus::Completed => "Completed",
            WorkspaceSyncStatus::Running => "Running",
            WorkspaceSyncStatus::Error => "Error",
            WorkspaceSyncStatus::Unknown => "Unknown",
        }
    }
}

/// The RFC 3339 text of a Unix timestamp in UTC: a function of the seconds
/// alone, named rather than written out.
pub uninterp spec fn rfc3339_of(ts: i64) -> Seq<char>;

/// Relies on chrono's `TimeZone::timestamp_opt` and `DateTime::to_rfc3339`:
/// the RFC 3339 rendering of a Unix timestamp in UTC, which depends on the
/// seconds alone (empty for values outside chrono's representable range).
#[verifier::external_body]
fn rfc3339(ts: i64) -> (r: String)
    ensures
        r@ == rfc3339_of(ts),
{
    match chrono::TimeZone::timestamp_opt(&chrono::Utc, ts, 0).single() {
        Some(dt) => dt.to_rfc3339(),
        None => String::new(),
    }
}

/// One row of the sync status ledger.
#[derive(Clone, Copy, Debug, PartialEq, Eq, Structural)]
pub struct WorkspaceSyncRecord {
    pub id: i64,
    pub workspace_id: i64,
    pub start: i64,
    pub end: Option<i64>,
    pub status: i64,
}

/// The one-line rendering of a ledger row: start and end times in RFC 3339
/// (a placeholder for an open end), then the status's display name.
pub open spec fn spec_sync_line(r: WorkspaceSyncRecord) -> Seq<char> {
    rfc3339_of(r.start) + " - "@ + (match r.end {
        Some(e) => rfc3339_of(e),
        None => "<nil>"@,
    }) + " - "@ + spec_status_name(spec_status_of_code(r.status))
}

impl WorkspaceSyncRecord {
    /// Render this row as its one-line listing form.
    pub fn display_line(&self) -> (r: String)
        ensures
            r@ == spec_sync_line(*self),
    {
        let end_text: String = match self.end {
            Some(e) => rfc3339(e),
            None => "<nil>".to_owned(),
        };
        let r = rfc3339(self.start).concat(" - ").concat(end_text.as_str()).concat(" - ").concat(
            WorkspaceSyncStatus::from_code(self.status).name_str(),
        );
        proof {
            assert(r@ =~= spec_sync_line(*self));
        }
        r
    }
}

/// No row of `l` carries the attempt identifier `id`.
pub open spec fn sync_id_fresh(l: Seq<WorkspaceSyncRecord>, id: i64) -> bool {
    forall|i: int| 0 <= i < l.len() ==> l[i].id != id
}

/// Some row of `l` carries the attempt identifier `id`.
pub open spec fn has_sync_id(l: Seq<WorkspaceSyncRecord>, id: i64) -> bool {
    exists|i: int| 0 <= i < l.len() && l[i].id == id
}

/// `l1` extends `l0` by exactly one open (Running, no end) row for
/// `workspace_id`, under a previously unused attempt identifier `id`.
pub open spec fn sync_begun(
    l0: Seq<WorkspaceSyncRecord>,
    l1: Seq<WorkspaceSyncRecord>,
    workspace_id: i64,
    id: i64,
) -> bool {
    &&& l1.len() == l0.len() + 1
    &&& l1.drop_last() == l0
    &&& l1.last().id == id
    &&& l1.last().workspace_id == workspace_id
    &&& l1.last().status == spec_status_code(WorkspaceSyncStatus::Running)
    &&& l1.last().end is None
    &&& sync_id_fresh(l0, id)
}

/// Row `r1` is row `r0` closed with status `code`: identity, owner and start
/// are kept, the end timestamp is now set.
pub open spec fn sync_row_marked(
    r0: WorkspaceSyncRecord,
    r1: WorkspaceSyncRecord,
    code: int,
) -> bool {
    &&& r1.id == r0.id
    &&& r1.workspace_id == r0.workspace_id
    &&& r1.start == r0.start
    &&& r1.status == code
    &&& r1.end is Some
}

/// `l1` is `l0` with every row whose attempt identifier is `id` closed with
/// status `code`, and all other rows untouched.
pub open spec fn sync_marked(
    l0: Seq<WorkspaceSyncRecord>,
    l1: Seq<WorkspaceSyncRecord>,
    id: i64,
    code: int,
) -> bool {
    &&& l1.len() == l0.len()
    &&& forall|i: int| 0 <= i < l0.len() && l0[i].id != id ==> l1[i] == l0[i]
    &&& forall|i: int|
        0 <= i < l0.len() && l0[i].id == id ==> sync_row_marked(l0[i], #[trigger] l1[i], code)
}

/// Durable store of synchronization attempts. The ledger is modelled as the
/// sequence of its rows in insertion order; every operation may fail (the
/// store is remote), and a failed operation leaves the ledger unchanged.
pub trait WorkspaceSyncBackend {
    /// The rows of the ledger, oldest first.
    spec fn sync_ledger(&self) -> Seq<WorkspaceSyncRecord>;

    /// Open a new attempt for `workspace_id`: append a Running row with no end
    /// timestamp under a fresh attempt identifier, and return that identifier.
    fn begin_sync(&mut self, workspace_id: i64) -> (r: Result<i64, BackendError>)
        ensures
            match r {
                Ok(id) => sync_begun(
                    old(self).sync_ledger(),
                    final(self).sync_ledger(),
                    workspace_id,
                    id,
                ),
                Err(_) => final(self).sync_ledger() == old(self).sync_ledger(),
            },
    ;

    /// Close attempt `id` with `status`, setting its end timestamp; the result
    /// tells whether any row carried that identifier.
    fn complete_sync(&mut self, id: i64, status: WorkspaceSyncStatus) -> (r: Result<
        bool,
        BackendError,
    >)
        ensures
            match r {
                Ok(b) => sync_marked(
                    old(self).sync_ledger(),
                    final(self).sync_ledger(),
                    id,
                    spec_status_code(status),
                ) && (b <==> has_sync_id(old(self).sync_ledger(), id)),
                Err(_) => final(self).sync_ledger() == old(self).sync_ledger(),
            },
    ;

    /// Close attempt `id` with the Error status and surface `msg` as the
    /// call's failure: the result is always an error, carrying `msg` when the
    /// closing write went through.
    fn fail_sync(&mut self, id: i64, msg: String) -> (r: Result<(), BackendError>)
        ensures
            r is Err,
            ({
                ||| sync_marked(
                    old(self).sync_ledger(),
                    final(self).sync_ledger(),
                    id,
                    spec_status_code(WorkspaceSyncStatus::Error),
                ) && (r matches Err(e) && e.message@ == msg@)
                ||| final(self).sync_ledger() == old(self).sync_ledger()
            }),
    ;

    /// All rows for `workspace_id`, oldest first.
    fn get_workspaces_sync_records(&self, workspace_id: i64) -> (r: Result<
        Vec<WorkspaceSyncRecord>,
        BackendError,
    >)
        ensures
            (r matches Ok(v) ==> v@ == self.sync_ledger().filter(
                |row: WorkspaceSyncRecord| row.workspace_id == workspace_id,
            )),
    ;
}

} // verus!
