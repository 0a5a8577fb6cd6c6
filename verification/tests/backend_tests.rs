use pmrmodel::memory::MemoryBackend;
use pmrmodel::workspace::{WorkspaceBackend, WorkspaceRecord};
use pmrmodel::workspace_sync::{WorkspaceSyncBackend, WorkspaceSyncStatus};
use pmrmodel::workspace_tag::WorkspaceTagBackend;
use pmrmodel::utils::{i64_to_decimal, u64_to_decimal, u64_to_octal6, timestamp};

#[test]
fn add_and_get_workspace() {
    let mut b = MemoryBackend::new();
    let id = b
        .add_workspace("https://models.example.test/demo", "demo", "a demo workspace")
        .unwrap();
    let rec = b.get_workspace_by_id(id).unwrap();
    assert_eq!(rec.id, id);
    assert_eq!(rec.url, "https://models.example.test/demo");
    assert_eq!(rec.description.as_deref(), Some("demo"));
}

#[test]
fn get_missing_workspace_fails() {
    let b = MemoryBackend::new();
    let err = b.get_workspace_by_id(41).unwrap_err();
    assert_eq!(err.message, "workspace not found");
}

#[test]
fn update_workspace_changes_description() {
    let mut b = MemoryBackend::new();
    let id = b.add_workspace("u", "old", "").unwrap();
    assert!(b.update_workspace(id, "new", "").unwrap());
    assert_eq!(b.get_workspace_by_id(id).unwrap().description.as_deref(), Some("new"));
    assert!(!b.update_workspace(id + 1, "x", "").unwrap());
}

#[test]
fn list_workspaces_in_order() {
    let mut b = MemoryBackend::new();
    let a = b.add_workspace("first", "", "").unwrap();
    let c = b.add_workspace("second", "", "").unwrap();
    assert!(a < c);
    let all = b.list_workspaces().unwrap();
    assert_eq!(all.len(), 2);
    assert_eq!(all[0].url, "first");
    assert_eq!(all[1].url, "second");
}

#[test]
fn begin_and_complete_sync() {
    let mut b = MemoryBackend::new();
    let sid = b.begin_sync(9).unwrap();
    let rows = b.get_workspaces_sync_records(9).unwrap();
    assert_eq!(rows.len(), 1);
    assert_eq!(rows[0].id, sid);
    assert_eq!(rows[0].status, WorkspaceSyncStatus::Running.code());
    assert!(rows[0].end.is_none());
    assert!(b.complete_sync(sid, WorkspaceSyncStatus::Completed).unwrap());
    let rows = b.get_workspaces_sync_records(9).unwrap();
    assert_eq!(rows[0].status, WorkspaceSyncStatus::Completed.code());
    assert!(rows[0].end.is_some());
}

#[test]
fn complete_unknown_sync_reports_false() {
    let mut b = MemoryBackend::new();
    assert!(!b.complete_sync(5, WorkspaceSyncStatus::Completed).unwrap());
}

#[test]
fn fail_sync_marks_error_and_surfaces_message() {
    let mut b = MemoryBackend::new();
    let sid = b.begin_sync(3).unwrap();
    let err = b.fail_sync(sid, "boom".to_string()).unwrap_err();
    assert_eq!(err.message, "boom");
    let rows = b.get_workspaces_sync_records(3).unwrap();
    assert_eq!(rows[0].status, WorkspaceSyncStatus::Error.code());
    assert!(rows[0].end.is_some());
}

#[test]
fn tag_upsert_is_conflict_tolerant() {
    let mut b = MemoryBackend::new();
    b.index_workspace_tag(1, "v1.0", "abc").unwrap();
    b.index_workspace_tag(1, "v1.0", "abc").unwrap();
    b.index_workspace_tag(1, "v1.1", "def").unwrap();
    b.index_workspace_tag(2, "v1.0", "abc").unwrap();
    let ws1 = b.get_workspace_tags(1).unwrap();
    assert_eq!(ws1.len(), 2);
    assert_eq!(ws1[0].name, "v1.0");
    assert_eq!(ws1[0].commit_id, "abc");
    assert_eq!(ws1[1].name, "v1.1");
    let ws2 = b.get_workspace_tags(2).unwrap();
    assert_eq!(ws2.len(), 1);
}

#[test]
fn status_codes_round_trip() {
    assert_eq!(WorkspaceSyncStatus::Completed.code(), 0);
    assert_eq!(WorkspaceSyncStatus::Running.code(), 1);
    assert_eq!(WorkspaceSyncStatus::Error.code(), 2);
    assert_eq!(WorkspaceSyncStatus::Unknown.code(), -1);
    assert_eq!(WorkspaceSyncStatus::from_code(0), WorkspaceSyncStatus::Completed);
    assert_eq!(WorkspaceSyncStatus::from_code(1), WorkspaceSyncStatus::Running);
    assert_eq!(WorkspaceSyncStatus::from_code(2), WorkspaceSyncStatus::Error);
    assert_eq!(WorkspaceSyncStatus::from_code(-1), WorkspaceSyncStatus::Unknown);
    assert_eq!(WorkspaceSyncStatus::from_code(99), WorkspaceSyncStatus::Unknown);
}

#[test]
fn workspace_display_line() {
    let rec = WorkspaceRecord {
        id: 7,
        url: "https://models.example.test/demo".to_string(),
        description: Some("demo".to_string()),
    };
    assert_eq!(rec.display_line(), "7 - https://models.example.test/demo - demo");
    let bare = WorkspaceRecord { id: -3, url: "u".to_string(), description: None };
    assert_eq!(bare.display_line(), "-3 - u - <empty>");
}

#[test]
fn sync_record_display_line_renders_rfc3339() {
    let mut b = MemoryBackend::new();
    let sid = b.begin_sync(1).unwrap();
    b.complete_sync(sid, WorkspaceSyncStatus::Completed).unwrap();
    let row = &b.get_workspaces_sync_records(1).unwrap()[0];
    let line = row.display_line();
    // start and end stamps in RFC 3339, then the status name
    assert!(line.ends_with(" - Completed"));
    assert!(line.contains("T"));
    assert!(line.contains("+00:00"));
    let open = pmrmodel::workspace_sync::WorkspaceSyncRecord {
        id: 1,
        workspace_id: 1,
        start: 0,
        end: None,
        status: WorkspaceSyncStatus::Running.code(),
    };
    assert_eq!(open.display_line(), "1970-01-01T00:00:00+00:00 - <nil> - Running");
}

#[test]
fn tag_record_display_line() {
    let mut b = MemoryBackend::new();
    b.index_workspace_tag(1, "v2.0", "abcd1234").unwrap();
    let rows = b.get_workspace_tags(1).unwrap();
    assert_eq!(rows[0].display_line(), "abcd1234 - v2.0");
}

#[test]
fn decimal_and_octal_rendering() {
    assert_eq!(u64_to_decimal(0), "0");
    assert_eq!(u64_to_decimal(90210), "90210");
    assert_eq!(i64_to_decimal(0), "0");
    assert_eq!(i64_to_decimal(42), "42");
    assert_eq!(i64_to_decimal(-5), "-5");
    assert_eq!(i64_to_decimal(i64::MIN), "-9223372036854775808");
    assert_eq!(u64_to_octal6(0), "000000");
    assert_eq!(u64_to_octal6(0o100644), "100644");
    assert_eq!(u64_to_octal6(0o40000), "040000");
    assert_eq!(u64_to_octal6(0o777777777), "777777777");
}

#[test]
fn timestamp_is_after_epoch() {
    let t = timestamp().unwrap();
    assert!(t > 1_500_000_000);
}
