use pmrmodel::git::{
    GitObjectKind, ObjectInfo, RepoBlob, RepoCommit, RepoObject, RepoRef, RepoSnapshot, RepoTag,
    RepoTree, RepoTreeEntry, ResolveError, get_obj_by_spec, git_result_set_blob, object_to_info,
    process_pathinfo, split_path,
};

fn entry(name: &str, kind: GitObjectKind, id: &str, filemode: u64) -> RepoTreeEntry {
    RepoTreeEntry { filemode, kind, id: id.to_string(), name: name.to_string() }
}

/// A small well-formed snapshot:
///   commit c1 -> tree t1 {
///       dir/      -> tree t2 { file.txt -> blob b1 }
///       README    -> blob b1 ("hello world")
///       image.bin -> blob b2 (bytes with a NUL)
///       subm      -> commit c1 (a gitlink entry)
///   }
/// refs: origin/HEAD -> c1, v1.0 -> annotated tag tg1 -> c1
fn demo_snapshot() -> RepoSnapshot {
    RepoSnapshot {
        refs: vec![
            RepoRef { name: "origin/HEAD".to_string(), target_id: "c1".to_string() },
            RepoRef { name: "v1.0".to_string(), target_id: "tg1".to_string() },
        ],
        objects: vec![
            RepoObject::Commit(RepoCommit {
                id: "c1".to_string(),
                author: "Alice <alice@example.test>".to_string(),
                committer: "Bob <bob@example.test>".to_string(),
                tree_id: "t1".to_string(),
            }),
            RepoObject::Tree(RepoTree {
                id: "t1".to_string(),
                entries: vec![
                    entry("dir", GitObjectKind::Tree, "t2", 0o40000),
                    entry("README", GitObjectKind::Blob, "b1", 0o100644),
                    entry("image.bin", GitObjectKind::Blob, "b2", 0o100644),
                    entry("subm", GitObjectKind::Commit, "c1", 0o160000),
                ],
            }),
            RepoObject::Tree(RepoTree {
                id: "t2".to_string(),
                entries: vec![entry("file.txt", GitObjectKind::Blob, "b1", 0o100644)],
            }),
            RepoObject::Blob(RepoBlob { id: "b1".to_string(), content: b"hello world".to_vec() }),
            RepoObject::Blob(RepoBlob { id: "b2".to_string(), content: vec![1, 0, 255] }),
            RepoObject::Tag(RepoTag { id: "tg1".to_string(), target_id: "c1".to_string() }),
        ],
    }
}

#[test]
fn root_resolution_lists_the_root_tree() {
    let repo = demo_snapshot();
    let rs = process_pathinfo(&repo, None, None).unwrap();
    assert_eq!(rs.commit.id, "c1");
    assert_eq!(rs.path, "");
    match object_to_info(rs.object).unwrap() {
        ObjectInfo::TreeInfo { filecount, entries } => {
            // filecount equals the number of immediate entries of the root tree
            assert_eq!(filecount, 4);
            assert_eq!(entries.len(), 4);
            assert_eq!(entries[0].name, "dir");
            assert_eq!(entries[0].kind, "tree");
            assert_eq!(entries[0].filemode, "040000");
            assert_eq!(entries[0].id, "t2");
            assert_eq!(entries[1].name, "README");
            assert_eq!(entries[1].kind, "blob");
            assert_eq!(entries[1].filemode, "100644");
            assert_eq!(entries[3].kind, "commit");
            assert_eq!(entries[3].filemode, "160000");
        },
        other => panic!("expected a tree listing, got {:?}", other),
    }
}

#[test]
fn empty_path_means_the_root_tree() {
    let repo = demo_snapshot();
    let rs = process_pathinfo(&repo, Some("origin/HEAD"), Some("")).unwrap();
    match object_to_info(rs.object).unwrap() {
        ObjectInfo::TreeInfo { filecount, .. } => assert_eq!(filecount, 4),
        other => panic!("expected a tree listing, got {:?}", other),
    }
}

#[test]
fn blob_resolution_reports_size_and_text() {
    let repo = demo_snapshot();
    let rs = process_pathinfo(&repo, None, Some("README")).unwrap();
    match object_to_info(rs.object).unwrap() {
        ObjectInfo::FileInfo { size, binary } => {
            assert_eq!(size, 11);
            assert!(!binary);
        },
        other => panic!("expected a file description, got {:?}", other),
    }
}

#[test]
fn nul_bytes_look_binary() {
    let repo = demo_snapshot();
    let rs = process_pathinfo(&repo, None, Some("image.bin")).unwrap();
    match object_to_info(rs.object).unwrap() {
        ObjectInfo::FileInfo { size, binary } => {
            assert_eq!(size, 3);
            assert!(binary);
        },
        other => panic!("expected a file description, got {:?}", other),
    }
}

#[test]
fn nested_path_descends_trees() {
    let repo = demo_snapshot();
    let rs = process_pathinfo(&repo, Some("c1"), Some("dir/file.txt")).unwrap();
    let content = git_result_set_blob(&rs).unwrap();
    assert_eq!(content.as_slice(), b"hello world");
}

#[test]
fn trailing_separators_are_ignored() {
    let repo = demo_snapshot();
    let rs = process_pathinfo(&repo, None, Some("dir/")).unwrap();
    match object_to_info(rs.object).unwrap() {
        ObjectInfo::TreeInfo { filecount, .. } => assert_eq!(filecount, 1),
        other => panic!("expected a tree listing, got {:?}", other),
    }
}

#[test]
fn missing_path_is_a_not_found_failure() {
    let repo = demo_snapshot();
    let err = process_pathinfo(&repo, Some("c1"), Some("no/such/file")).unwrap_err();
    assert_eq!(err, ResolveError::PathNotFound { path: "no/such/file".to_string() });
}

#[test]
fn descending_through_a_blob_is_not_found() {
    let repo = demo_snapshot();
    let err = process_pathinfo(&repo, None, Some("README/extra")).unwrap_err();
    assert_eq!(err, ResolveError::PathNotFound { path: "README/extra".to_string() });
}

#[test]
fn a_tag_object_is_not_a_commit() {
    let repo = demo_snapshot();
    let err = process_pathinfo(&repo, Some("v1.0"), None).unwrap_err();
    assert_eq!(err, ResolveError::NotACommit { revspec: "v1.0".to_string() });
}

#[test]
fn an_unknown_revspec_is_not_found() {
    let repo = demo_snapshot();
    let err = process_pathinfo(&repo, Some("nope"), None).unwrap_err();
    assert_eq!(err, ResolveError::RefNotFound { revspec: "nope".to_string() });
}

#[test]
fn raw_content_of_non_blobs_is_refused() {
    let repo = demo_snapshot();
    let tree = process_pathinfo(&repo, None, None).unwrap();
    assert_eq!(git_result_set_blob(&tree).unwrap_err(), ResolveError::NotABlob);
    let gitlink = process_pathinfo(&repo, None, Some("subm")).unwrap();
    assert_eq!(git_result_set_blob(&gitlink).unwrap_err(), ResolveError::NotABlob);
}

#[test]
fn raw_content_of_a_blob_is_its_exact_bytes() {
    let repo = demo_snapshot();
    let rs = process_pathinfo(&repo, None, Some("image.bin")).unwrap();
    assert_eq!(git_result_set_blob(&rs).unwrap().as_slice(), &[1, 0, 255]);
}

#[test]
fn obj_by_spec_describes_commits_and_blobs() {
    let repo = demo_snapshot();
    match get_obj_by_spec(&repo, "origin/HEAD").unwrap().unwrap() {
        ObjectInfo::CommitInfo { commit_id, author, committer } => {
            assert_eq!(commit_id, "c1");
            assert_eq!(author, "Alice <alice@example.test>");
            assert_eq!(committer, "Bob <bob@example.test>");
        },
        other => panic!("expected a commit description, got {:?}", other),
    }
    match get_obj_by_spec(&repo, "b1").unwrap().unwrap() {
        ObjectInfo::FileInfo { size, binary } => {
            assert_eq!(size, 11);
            assert!(!binary);
        },
        other => panic!("expected a file description, got {:?}", other),
    }
}

#[test]
fn obj_by_spec_gives_no_description_for_tags() {
    let repo = demo_snapshot();
    assert_eq!(get_obj_by_spec(&repo, "v1.0").unwrap(), None);
    let err = get_obj_by_spec(&repo, "missing").unwrap_err();
    assert_eq!(err, ResolveError::RefNotFound { revspec: "missing".to_string() });
}

#[test]
fn non_ascii_names_resolve() {
    let repo = RepoSnapshot {
        refs: vec![RepoRef { name: "origin/HEAD".to_string(), target_id: "c9".to_string() }],
        objects: vec![
            RepoObject::Commit(RepoCommit {
                id: "c9".to_string(),
                author: "Ümit <u@example.test>".to_string(),
                committer: "Ümit <u@example.test>".to_string(),
                tree_id: "t9".to_string(),
            }),
            RepoObject::Tree(RepoTree {
                id: "t9".to_string(),
                entries: vec![entry("müller.txt", GitObjectKind::Blob, "b9", 0o100644)],
            }),
            RepoObject::Blob(RepoBlob { id: "b9".to_string(), content: b"ok".to_vec() }),
        ],
    };
    let rs = process_pathinfo(&repo, None, Some("müller.txt")).unwrap();
    assert_eq!(git_result_set_blob(&rs).unwrap().as_slice(), b"ok");
}

#[test]
fn path_splitting_drops_empty_segments() {
    assert_eq!(split_path(""), Vec::<String>::new());
    assert_eq!(split_path("a"), vec!["a"]);
    assert_eq!(split_path("a/b/c"), vec!["a", "b", "c"]);
    assert_eq!(split_path("/a//b/"), vec!["a", "b"]);
    assert_eq!(split_path("///"), Vec::<String>::new());
}
