//! The source-store flows: project and package listings, histories,
//! commits, branches and deletions, driven through the registry as the
//! HTTP layer would drive them.

use obs_mock::codes::MockBlockMode;
use obs_mock::codes::MockRebuildMode;
use obs_mock::codes::MockRepositoryCode;
use obs_mock::digest::random_md5;
use obs_mock::ops::BranchParams;
use obs_mock::ops::CommitEntry;
use obs_mock::ops::CommitOutcome;
use obs_mock::registry::ObsMock;
use obs_mock::types::MockBranchOptions;
use obs_mock::types::MockEntry;
use obs_mock::types::MockPackageDisabledBuild;
use obs_mock::types::MockPackageOptions;
use obs_mock::types::MockRevisionEntry;
use obs_mock::types::MockRevisionOptions;
use obs_mock::types::MockLinkResolution;
use obs_mock::types::MockSourceFile;

const DEFAULT_USERNAME: &str = "user";
const TEST_PROJECT: &str = "test_project";
const TEST_REPO: &str = "test_repo";
const TEST_ARCH_1: &str = "aarch64";
const TEST_PACKAGE_1: &str = "test_package_1";
const TEST_PACKAGE_2: &str = "test_package_2";

fn s(x: &str) -> String {
    x.to_string()
}

fn default_package_options() -> MockPackageOptions {
    MockPackageOptions {
        meta_srcmd5: random_md5(),
        time: 0,
        user: s("Admin"),
        disabled: Vec::new(),
    }
}

#[test]
fn test_project_list() {
    let mut mock = ObsMock::new();
    mock.add_project(s(TEST_PROJECT));

    let names = mock.project_packages(&s(TEST_PROJECT)).unwrap();
    assert_eq!(names.len(), 0);

    mock.add_new_package(&s(TEST_PROJECT), s(TEST_PACKAGE_1), default_package_options());
    mock.add_new_package(&s(TEST_PROJECT), s(TEST_PACKAGE_2), default_package_options());

    let mut names = mock.project_packages(&s(TEST_PROJECT)).unwrap();
    assert_eq!(names.len(), 2);
    names.sort();
    assert_eq!(names[0], TEST_PACKAGE_1);
    assert_eq!(names[1], TEST_PACKAGE_2);
}

#[test]
fn test_project_meta() {
    let mut mock = ObsMock::new();
    mock.add_project(s(TEST_PROJECT));

    let meta = mock.project_meta(&s(TEST_PROJECT)).unwrap();
    assert_eq!(meta.name, TEST_PROJECT);
    assert_eq!(meta.repos.len(), 0);

    mock.set_project_modes(&s(TEST_PROJECT), MockRebuildMode::Direct, MockBlockMode::Never);
    mock.add_or_update_repository(
        &s(TEST_PROJECT),
        s(TEST_REPO),
        s(TEST_ARCH_1),
        MockRepositoryCode::Unknown,
    );

    let meta = mock.project_meta(&s(TEST_PROJECT)).unwrap();
    assert_eq!(meta.name, TEST_PROJECT);
    assert_eq!(meta.rebuild, MockRebuildMode::Direct);
    assert_eq!(meta.block, MockBlockMode::Never);
    assert_eq!(meta.repos.len(), 1);
    assert_eq!(meta.repos[0].name, TEST_REPO);
    assert_eq!(meta.repos[0].arches.len(), 1);
    assert_eq!(meta.repos[0].arches[0], TEST_ARCH_1);
}

#[test]
fn test_project_package_delete() {
    let mut mock = ObsMock::new();
    mock.add_project(s(TEST_PROJECT));
    mock.add_new_package(&s(TEST_PROJECT), s(TEST_PACKAGE_1), default_package_options());

    mock.package_listing(&s(TEST_PROJECT), &s(TEST_PACKAGE_1), &None, &None).unwrap();

    mock.delete_package(&s(TEST_PROJECT), &s(TEST_PACKAGE_1)).unwrap();

    let err = mock.package_listing(&s(TEST_PROJECT), &s(TEST_PACKAGE_1), &None, &None).unwrap_err();
    assert_eq!(err.code(), "unknown_package");

    mock.project_meta(&s(TEST_PROJECT)).unwrap();

    mock.project_delete(&s(TEST_PROJECT)).unwrap();

    let err = mock.project_meta(&s(TEST_PROJECT)).unwrap_err();
    assert_eq!(err.code(), "unknown_project");
}

#[test]
fn test_source_history() {
    let srcmd5 = random_md5();

    let mut mock = ObsMock::new();
    mock.add_project(s(TEST_PROJECT));
    mock.add_new_package(&s(TEST_PROJECT), s(TEST_PACKAGE_1), default_package_options());

    let revisions = mock.package_history(&s(TEST_PROJECT), &s(TEST_PACKAGE_1)).unwrap();
    assert_eq!(revisions.len(), 0);

    mock.add_package_revision(
        &s(TEST_PROJECT),
        &s(TEST_PACKAGE_1),
        MockRevisionOptions {
            comment: None,
            srcmd5: srcmd5.clone(),
            time: 10,
            user: s("Admin"),
            version: Some(s("version")),
        },
        Vec::new(),
    )
    .unwrap();

    let revisions = mock.package_history(&s(TEST_PROJECT), &s(TEST_PACKAGE_1)).unwrap();
    assert_eq!(revisions.len(), 1);

    let rev = &revisions[0];
    assert_eq!(rev.comment, None);
    assert_eq!(rev.rev, 1);
    assert_eq!(rev.vrev, 1);
    assert_eq!(rev.version.as_deref(), Some("version"));
    assert_eq!(rev.srcmd5, srcmd5);
    assert_eq!(rev.time, 10);
    assert_eq!(rev.user, "Admin");
}

#[test]
fn test_source_list() {
    let mut mock = ObsMock::new();
    mock.add_project(s(TEST_PROJECT));
    mock.add_new_package(&s(TEST_PROJECT), s(TEST_PACKAGE_1), default_package_options());

    let dir = mock.package_listing(&s(TEST_PROJECT), &s(TEST_PACKAGE_1), &None, &None).unwrap();
    assert_eq!(dir.name, TEST_PACKAGE_1);
    assert_eq!(dir.rev, 0);
    assert!(dir.vrev.is_none());

    let meta_dir = mock
        .package_listing(&s(TEST_PROJECT), &s(TEST_PACKAGE_1), &None, &Some(s("1")))
        .unwrap();
    assert_eq!(meta_dir.name, TEST_PACKAGE_1);
    assert_eq!(meta_dir.rev, 1);
    assert!(meta_dir.vrev.is_none());
    assert_eq!(meta_dir.entries.len(), 1);
    assert_eq!(meta_dir.linkinfo.len(), 0);
    assert_eq!(meta_dir.entries[0].name, "_meta");

    let srcmd5 = random_md5();
    mock.add_package_revision(
        &s(TEST_PROJECT),
        &s(TEST_PACKAGE_1),
        MockRevisionOptions {
            time: 10,
            srcmd5: srcmd5.clone(),
            version: None,
            user: s("Admin"),
            comment: None,
        },
        Vec::new(),
    )
    .unwrap();

    let dir = mock.package_listing(&s(TEST_PROJECT), &s(TEST_PACKAGE_1), &None, &None).unwrap();
    assert_eq!(dir.name, TEST_PACKAGE_1);
    assert_eq!(dir.rev, 1);
    assert_eq!(dir.vrev, Some(1));
    assert_eq!(dir.srcmd5, srcmd5);
    assert_eq!(dir.entries.len(), 0);
    assert_eq!(dir.linkinfo.len(), 0);

    let test_data = b"abc";
    let test_key = mock.add_package_files(
        &s(TEST_PROJECT),
        &s(TEST_PACKAGE_1),
        MockSourceFile { path: s("test"), contents: test_data.to_vec() },
    );

    let srcmd5 = random_md5();
    mock.add_package_revision(
        &s(TEST_PROJECT),
        &s(TEST_PACKAGE_1),
        MockRevisionOptions {
            srcmd5: srcmd5.clone(),
            version: None,
            time: 0,
            user: s("Admin"),
            comment: None,
        },
        vec![MockRevisionEntry { path: s("test"), entry: MockEntry::from_key(&test_key, 20) }],
    )
    .unwrap();

    let dir = mock.package_listing(&s(TEST_PROJECT), &s(TEST_PACKAGE_1), &None, &None).unwrap();
    assert_eq!(dir.name, TEST_PACKAGE_1);
    assert_eq!(dir.rev, 2);
    assert_eq!(dir.vrev, Some(2));
    assert_eq!(dir.srcmd5, srcmd5);
    assert_eq!(dir.entries.len(), 1);
    assert_eq!(dir.entries[0].size, test_data.len() as u64);

    let dir = mock
        .package_listing(&s(TEST_PROJECT), &s(TEST_PACKAGE_1), &Some(s("1")), &None)
        .unwrap();
    assert_eq!(dir.rev, 1);
    assert_eq!(dir.entries.len(), 0);

    let branch_srcmd5 = random_md5();
    let branch_xsrcmd5 = random_md5();
    mock.branch(
        s(TEST_PROJECT),
        s(TEST_PACKAGE_1),
        &s(TEST_PROJECT),
        s(TEST_PACKAGE_2),
        MockBranchOptions {
            srcmd5: branch_srcmd5.clone(),
            xsrcmd5: branch_xsrcmd5.clone(),
            user: s("Admin"),
            time: 0,
            comment: None,
            missingok: false,
        },
    );

    let dir = mock.package_listing(&s(TEST_PROJECT), &s(TEST_PACKAGE_2), &None, &None).unwrap();
    assert_eq!(dir.rev, 1);
    assert_eq!(dir.vrev, Some(1));
    assert_eq!(dir.srcmd5, branch_srcmd5);
    // The branched revision carries the origin's entry plus the fresh
    // metadata blob.
    assert_eq!(dir.entries.len(), 2);
    assert!(dir.entries.iter().any(|e| e.name == "test"));
    assert!(dir.entries.iter().any(|e| e.name == "_meta"));
    assert_eq!(dir.linkinfo.len(), 1);

    let linkinfo = &dir.linkinfo[0];
    assert_eq!(linkinfo.project, TEST_PROJECT);
    assert_eq!(linkinfo.package, TEST_PACKAGE_1);
    assert_eq!(linkinfo.srcmd5, srcmd5);
    assert_eq!(linkinfo.baserev, srcmd5);
    assert_eq!(linkinfo.lsrcmd5, branch_srcmd5);
    match &linkinfo.link_resolution {
        MockLinkResolution::Available { xsrcmd5 } => assert_eq!(*xsrcmd5, branch_xsrcmd5),
        MockLinkResolution::Error { .. } => panic!("link should have resolved"),
    }
}

#[test]
fn test_source_meta() {
    let mut mock = ObsMock::new();
    mock.add_project(s(TEST_PROJECT));
    mock.add_new_package(&s(TEST_PROJECT), s(TEST_PACKAGE_1), default_package_options());

    let served = mock
        .package_source_file(&s(TEST_PROJECT), &s(TEST_PACKAGE_1), &s("_meta"))
        .unwrap();
    let expected =
        MockSourceFile::new_metadata(&s(TEST_PROJECT), &s(TEST_PACKAGE_1), &Vec::new());
    assert_eq!(served, expected.contents);

    let disabled = vec![
        MockPackageDisabledBuild { repository: None, arch: Some(s(TEST_ARCH_1)) },
        MockPackageDisabledBuild { repository: Some(s(TEST_REPO)), arch: Some(s("x86_64")) },
    ];
    mock.set_package_metadata(
        &s(TEST_PROJECT),
        &s(TEST_PACKAGE_1),
        MockPackageOptions {
            meta_srcmd5: random_md5(),
            time: 0,
            user: s("Admin"),
            disabled: disabled.clone(),
        },
    );

    let served = mock
        .package_source_file(&s(TEST_PROJECT), &s(TEST_PACKAGE_1), &s("_meta"))
        .unwrap();
    let expected = MockSourceFile::new_metadata(&s(TEST_PROJECT), &s(TEST_PACKAGE_1), &disabled);
    assert_eq!(served, expected.contents);
    let text = String::from_utf8(served).unwrap();
    assert!(text.contains("<disable arch=\"aarch64\"/>"));
    assert!(text.contains("<disable repository=\"test_repo\" arch=\"x86_64\"/>"));
}

#[test]
fn test_source_get() {
    let test_file = "test";
    let test_contents = b"some file contents here";

    let mut mock = ObsMock::new();
    mock.add_project(s(TEST_PROJECT));
    mock.add_new_package(&s(TEST_PROJECT), s(TEST_PACKAGE_1), default_package_options());

    let test_key = mock.add_package_files(
        &s(TEST_PROJECT),
        &s(TEST_PACKAGE_1),
        MockSourceFile { path: s(test_file), contents: test_contents.to_vec() },
    );

    mock.add_package_revision(
        &s(TEST_PROJECT),
        &s(TEST_PACKAGE_1),
        MockRevisionOptions {
            srcmd5: random_md5(),
            version: None,
            time: 0,
            user: s("Admin"),
            comment: None,
        },
        vec![MockRevisionEntry { path: s(test_file), entry: MockEntry::from_key(&test_key, 0) }],
    )
    .unwrap();

    let data = mock
        .package_source_file(&s(TEST_PROJECT), &s(TEST_PACKAGE_1), &s(test_file))
        .unwrap();
    assert_eq!(&data[..], test_contents);
}

#[test]
fn test_commits() {
    let test_file = "test";
    let test_contents = b"some file contents here";
    let test_entry = CommitEntry::from_contents(s(test_file), test_contents);

    let mut mock = ObsMock::new();
    mock.add_project(s(TEST_PROJECT));

    // Creating the package the way a PUT of its `_meta` does.
    mock.place_source_file(
        &s(TEST_PROJECT),
        &s(TEST_PACKAGE_1),
        &s("_meta"),
        b"<package/>".to_vec(),
        &None,
        random_md5(),
        s(DEFAULT_USERNAME),
        0,
    )
    .unwrap();

    let claimed = vec![test_entry.clone()];
    let outcome = mock
        .commit(
            &s(TEST_PROJECT),
            &s(TEST_PACKAGE_1),
            claimed.clone(),
            random_md5(),
            s(DEFAULT_USERNAME),
            0,
            None,
        )
        .unwrap();
    match outcome {
        CommitOutcome::MissingEntries(missing) => {
            assert_eq!(missing.len(), 1);
            assert_eq!(missing[0].name, test_entry.name);
            assert_eq!(missing[0].md5, test_entry.md5);
        },
        CommitOutcome::Committed(_) => panic!("expected missing entries"),
    }

    mock.place_source_file(
        &s(TEST_PROJECT),
        &s(TEST_PACKAGE_1),
        &s(test_file),
        test_contents.to_vec(),
        &Some(s("repository")),
        random_md5(),
        s(DEFAULT_USERNAME),
        0,
    )
    .unwrap();

    let outcome = mock
        .commit(
            &s(TEST_PROJECT),
            &s(TEST_PACKAGE_1),
            claimed,
            random_md5(),
            s(DEFAULT_USERNAME),
            0,
            Some(s("test comment")),
        )
        .unwrap();
    match outcome {
        CommitOutcome::Committed(directory) => {
            assert_eq!(directory.entries.len(), 1);
            assert_eq!(directory.entries[0].name, test_entry.name);
            assert_eq!(directory.entries[0].md5, test_entry.md5);
        },
        CommitOutcome::MissingEntries(_) => panic!("expected a committed revision"),
    }

    let directory = mock.package_listing(&s(TEST_PROJECT), &s(TEST_PACKAGE_1), &None, &None)
        .unwrap();
    assert_eq!(directory.entries.len(), 1);
    assert_eq!(directory.entries[0].name, test_entry.name);
    assert_eq!(directory.entries[0].md5, test_entry.md5);

    let revisions = mock.package_history(&s(TEST_PROJECT), &s(TEST_PACKAGE_1)).unwrap();
    assert_eq!(revisions.last().unwrap().comment.as_deref(), Some("test comment"));
}

fn branch_params(user: &str) -> BranchParams {
    BranchParams {
        target_project: None,
        target_package: None,
        force: false,
        missingok: false,
        add_repositories_rebuild: None,
        add_repositories_block: None,
        comment: None,
        user: s(user),
        time: 0,
        srcmd5: random_md5(),
        xsrcmd5: random_md5(),
    }
}

#[test]
fn test_branch() {
    let test_file = "test";
    let test_contents = b"some file contents here";

    let test_project_branched_1 = format!("home:{}:branches:{}", DEFAULT_USERNAME, TEST_PROJECT);
    let test_project_branched_2 = format!("{}:branch", TEST_PROJECT);

    let mut mock = ObsMock::new();
    mock.add_project(s(TEST_PROJECT));
    mock.set_project_modes(&s(TEST_PROJECT), MockRebuildMode::Transitive, MockBlockMode::All);
    mock.add_or_update_repository(
        &s(TEST_PROJECT),
        s(TEST_REPO),
        s(TEST_ARCH_1),
        MockRepositoryCode::Finished,
    );
    mock.add_new_package(&s(TEST_PROJECT), s(TEST_PACKAGE_1), default_package_options());

    let test_key = mock.add_package_files(
        &s(TEST_PROJECT),
        &s(TEST_PACKAGE_1),
        MockSourceFile { path: s(test_file), contents: test_contents.to_vec() },
    );
    mock.add_package_revision(
        &s(TEST_PROJECT),
        &s(TEST_PACKAGE_1),
        MockRevisionOptions {
            srcmd5: random_md5(),
            version: None,
            time: 0,
            user: s("Admin"),
            comment: None,
        },
        vec![MockRevisionEntry { path: s(test_file), entry: MockEntry::from_key(&test_key, 0) }],
    )
    .unwrap();

    let status = mock
        .do_branch(&s(TEST_PROJECT), &s(TEST_PACKAGE_1), branch_params(DEFAULT_USERNAME))
        .unwrap();
    assert_eq!(status.source_project, TEST_PROJECT);
    assert_eq!(status.source_package, TEST_PACKAGE_1);
    assert_eq!(status.target_project, test_project_branched_1);
    assert_eq!(status.target_package, TEST_PACKAGE_1);

    let dir = mock
        .package_listing(&test_project_branched_1, &s(TEST_PACKAGE_1), &None, &None)
        .unwrap();
    assert_eq!(dir.linkinfo.len(), 1);
    assert_eq!(dir.linkinfo[0].project, TEST_PROJECT);
    assert_eq!(dir.linkinfo[0].package, TEST_PACKAGE_1);
    assert!(!dir.linkinfo[0].missingok);

    let meta = mock.project_meta(&test_project_branched_1).unwrap();
    assert_eq!(meta.repos.len(), 1);
    assert_eq!(meta.repos[0].name, TEST_REPO);
    assert_eq!(meta.rebuild, MockRebuildMode::Transitive);
    assert_eq!(meta.block, MockBlockMode::All);

    let err = mock
        .do_branch(&s(TEST_PROJECT), &s(TEST_PACKAGE_1), branch_params(DEFAULT_USERNAME))
        .unwrap_err();
    assert_eq!(err.code(), "double_branch_package");

    let mut forced = branch_params(DEFAULT_USERNAME);
    forced.force = true;
    let status = mock.do_branch(&s(TEST_PROJECT), &s(TEST_PACKAGE_1), forced).unwrap();
    assert_eq!(status.source_project, TEST_PROJECT);
    assert_eq!(status.source_package, TEST_PACKAGE_1);
    assert_eq!(status.target_project, test_project_branched_1);
    assert_eq!(status.target_package, TEST_PACKAGE_1);

    let mut into_2 = branch_params(DEFAULT_USERNAME);
    into_2.target_project = Some(test_project_branched_2.clone());
    into_2.add_repositories_rebuild = Some(MockRebuildMode::Local);
    into_2.add_repositories_block = Some(MockBlockMode::Never);
    let status = mock.do_branch(&s(TEST_PROJECT), &s(TEST_PACKAGE_1), into_2).unwrap();
    assert_eq!(status.source_project, TEST_PROJECT);
    assert_eq!(status.source_package, TEST_PACKAGE_1);
    assert_eq!(status.target_project, test_project_branched_2);
    assert_eq!(status.target_package, TEST_PACKAGE_1);

    let dir = mock
        .package_listing(&test_project_branched_2, &s(TEST_PACKAGE_1), &None, &None)
        .unwrap();
    assert_eq!(dir.linkinfo.len(), 1);
    assert_eq!(dir.linkinfo[0].project, TEST_PROJECT);
    assert_eq!(dir.linkinfo[0].package, TEST_PACKAGE_1);
    assert!(!dir.linkinfo[0].missingok);

    let meta = mock.project_meta(&test_project_branched_2).unwrap();
    assert_eq!(meta.repos.len(), 1);
    assert_eq!(meta.repos[0].name, TEST_REPO);
    assert_eq!(meta.rebuild, MockRebuildMode::Local);
    assert_eq!(meta.block, MockBlockMode::Never);

    let mut missing_ok = branch_params(DEFAULT_USERNAME);
    missing_ok.missingok = true;
    let status = mock.do_branch(&s(TEST_PROJECT), &s(TEST_PACKAGE_2), missing_ok).unwrap();
    assert_eq!(status.source_project, TEST_PROJECT);
    assert_eq!(status.source_package, TEST_PACKAGE_2);
    assert_eq!(status.target_project, test_project_branched_1);
    assert_eq!(status.target_package, TEST_PACKAGE_2);

    let dir = mock
        .package_listing(&test_project_branched_1, &s(TEST_PACKAGE_2), &None, &None)
        .unwrap();
    assert_eq!(dir.linkinfo.len(), 1);
    assert_eq!(dir.linkinfo[0].project, TEST_PROJECT);
    assert_eq!(dir.linkinfo[0].package, TEST_PACKAGE_2);
    assert!(dir.linkinfo[0].missingok);
}
