use pmrmodel::git::{
    GitPmrAccessor, RepoProbe, SyncAction, SyncError, git_sync_workspace, index_tags, mirror_path,
};
use pmrmodel::memory::MemoryBackend;
use pmrmodel::workspace::WorkspaceRecord;
use pmrmodel::workspace_sync::{WorkspaceSyncBackend, WorkspaceSyncStatus};
use pmrmodel::workspace_tag::WorkspaceTagBackend;

fn demo_workspace(id: i64) -> WorkspaceRecord {
    WorkspaceRecord {
        id,
        url: "https://models.example.test/demo".to_string(),
        description: None,
    }
}

#[test]
fn first_sync_clones_and_records_one_completed_row() {
    let mut acc = GitPmrAccessor::new(
        MemoryBackend::new(),
        "var/mirrors".to_string(),
        demo_workspace(1),
    );
    let mut tag_store = MemoryBackend::new();
    let r = git_sync_workspace(&mut acc, &mut tag_store, RepoProbe::Missing, |action| {
        // a never-before-seen workspace gets a fresh bare clone
        assert_eq!(action, SyncAction::CloneNew);
        Ok(vec![("v1.0".to_string(), "abc123".to_string())])
    });
    assert!(r.is_ok());
    let rows = acc.backend.get_workspaces_sync_records(1).unwrap();
    assert_eq!(rows.len(), 1);
    assert_eq!(rows[0].status, WorkspaceSyncStatus::Completed.code());
    assert!(rows[0].end.is_some());
    let tags = tag_store.get_workspace_tags(1).unwrap();
    assert_eq!(tags.len(), 1);
    assert_eq!(tags[0].name, "v1.0");
    assert_eq!(tags[0].commit_id, "abc123");
}

#[test]
fn second_sync_fetches_and_adds_second_row() {
    let mut acc = GitPmrAccessor::new(
        MemoryBackend::new(),
        "var/mirrors".to_string(),
        demo_workspace(1),
    );
    let mut tag_store = MemoryBackend::new();
    git_sync_workspace(&mut acc, &mut tag_store, RepoProbe::Missing, |action| {
        assert_eq!(action, SyncAction::CloneNew);
        Ok(vec![])
    })
    .unwrap();
    // the mirror now exists: the second run fetches, it never clones again
    git_sync_workspace(&mut acc, &mut tag_store, RepoProbe::Bare, |action| {
        assert_eq!(action, SyncAction::FetchExisting);
        Ok(vec![])
    })
    .unwrap();
    let rows = acc.backend.get_workspaces_sync_records(1).unwrap();
    assert_eq!(rows.len(), 2);
    for row in &rows {
        assert_eq!(row.status, WorkspaceSyncStatus::Completed.code());
        assert!(row.end.is_some());
    }
}

#[test]
fn invalid_mirror_data_fails_and_closes_the_attempt() {
    let mut acc = GitPmrAccessor::new(
        MemoryBackend::new(),
        "var/mirrors".to_string(),
        demo_workspace(7),
    );
    let mut tag_store = MemoryBackend::new();
    let r = git_sync_workspace(&mut acc, &mut tag_store, RepoProbe::Invalid, |_action| {
        panic!("no git operation may run against invalid local data");
    });
    match r.unwrap_err() {
        SyncError::InvalidLocalData { path } => assert_eq!(path, "var/mirrors/7"),
        other => panic!("wrong cause: {:?}", other),
    }
    let rows = acc.backend.get_workspaces_sync_records(7).unwrap();
    assert_eq!(rows.len(), 1);
    assert_eq!(rows[0].status, WorkspaceSyncStatus::Error.code());
    assert!(rows[0].end.is_some());
    assert!(tag_store.get_workspace_tags(7).unwrap().is_empty());
}

#[test]
fn git_failure_is_recorded_and_preserved() {
    let mut acc = GitPmrAccessor::new(
        MemoryBackend::new(),
        "var/mirrors".to_string(),
        demo_workspace(2),
    );
    let mut tag_store = MemoryBackend::new();
    let r = git_sync_workspace(&mut acc, &mut tag_store, RepoProbe::Bare, |_action| {
        Err("remote hung up".to_string())
    });
    match r.unwrap_err() {
        SyncError::GitOperation { message } => {
            assert_eq!(message, "Failed to synchronize: remote hung up")
        },
        other => panic!("wrong cause: {:?}", other),
    }
    let rows = acc.backend.get_workspaces_sync_records(2).unwrap();
    assert_eq!(rows.len(), 1);
    assert_eq!(rows[0].status, WorkspaceSyncStatus::Error.code());
    assert!(rows[0].end.is_some());
    assert!(tag_store.get_workspace_tags(2).unwrap().is_empty());
}

#[test]
fn clone_failure_uses_clone_prefix() {
    let mut acc = GitPmrAccessor::new(
        MemoryBackend::new(),
        "var/mirrors".to_string(),
        demo_workspace(2),
    );
    let mut tag_store = MemoryBackend::new();
    let r = git_sync_workspace(&mut acc, &mut tag_store, RepoProbe::Missing, |_action| {
        Err("no route to host".to_string())
    });
    match r.unwrap_err() {
        SyncError::GitOperation { message } => {
            assert_eq!(message, "Failed to clone: no route to host")
        },
        other => panic!("wrong cause: {:?}", other),
    }
}

#[test]
fn indexing_twice_adds_no_duplicate_rows() {
    let mut acc = GitPmrAccessor::new(
        MemoryBackend::new(),
        "var/mirrors".to_string(),
        demo_workspace(1),
    );
    let tags = vec![
        ("v1.0".to_string(), "abc".to_string()),
        ("v1.1".to_string(), "def".to_string()),
    ];
    index_tags(&mut acc, &tags).unwrap();
    index_tags(&mut acc, &tags).unwrap();
    let rows = acc.backend.get_workspace_tags(1).unwrap();
    assert_eq!(rows.len(), 2);
    assert_eq!(rows[0].name, "v1.0");
    assert_eq!(rows[1].name, "v1.1");
}

#[test]
fn indexing_no_tags_leaves_store_unchanged() {
    let mut acc = GitPmrAccessor::new(
        MemoryBackend::new(),
        "var/mirrors".to_string(),
        demo_workspace(1),
    );
    index_tags(&mut acc, &vec![("v1.0".to_string(), "abc".to_string())]).unwrap();
    index_tags(&mut acc, &vec![]).unwrap();
    assert_eq!(acc.backend.get_workspace_tags(1).unwrap().len(), 1);
}

#[test]
fn mirror_path_joins_root_and_id() {
    assert_eq!(mirror_path("var/mirrors", 42), "var/mirrors/42");
    assert_eq!(mirror_path("", 0), "/0");
    assert_eq!(mirror_path("m", -9), "m/-9");
}
