//! The store's laws exercised on concrete values: content addressing,
//! commit counters, the missing-then-retry flow, the zero revision, branch
//! provenance and the double-branch guard, and one input for each error.

use obs_mock::digest::random_md5;
use obs_mock::digest::zero_rev_srcmd5;
use obs_mock::ops::BranchParams;
use obs_mock::ops::CommitEntry;
use obs_mock::ops::CommitOutcome;
use obs_mock::ops::PlacementOutcome;
use obs_mock::registry::ObsMock;
use obs_mock::types::MockPackageOptions;
use obs_mock::types::MockSourceFile;

fn s(x: &str) -> String {
    x.to_string()
}

fn fresh_package(mock: &mut ObsMock, project: &str, package: &str) {
    mock.add_project(s(project));
    mock.add_new_package(
        &s(project),
        s(package),
        MockPackageOptions {
            meta_srcmd5: random_md5(),
            time: 0,
            user: s("Admin"),
            disabled: Vec::new(),
        },
    );
}

fn plain_branch_params(user: &str) -> BranchParams {
    BranchParams {
        target_project: None,
        target_package: None,
        force: false,
        missingok: false,
        add_repositories_rebuild: None,
        add_repositories_block: None,
        comment: None,
        user: s(user),
        time: 0,
        srcmd5: random_md5(),
        xsrcmd5: random_md5(),
    }
}

#[test]
fn content_addressing_is_idempotent() {
    let mut mock = ObsMock::new();
    fresh_package(&mut mock, "p", "pkg");

    let key1 = mock.add_package_files(
        &s("p"),
        &s("pkg"),
        MockSourceFile { path: s("f"), contents: b"same bytes".to_vec() },
    );
    let key2 = mock.add_package_files(
        &s("p"),
        &s("pkg"),
        MockSourceFile { path: s("f"), contents: b"same bytes".to_vec() },
    );
    assert_eq!(key1.path, key2.path);
    assert_eq!(key1.md5, key2.md5);

    let claimed = vec![CommitEntry { name: s("f"), md5: key1.md5.clone() }];
    let outcome = mock
        .commit(&s("p"), &s("pkg"), claimed, random_md5(), s("Admin"), 0, None)
        .unwrap();
    assert!(matches!(outcome, CommitOutcome::Committed(_)));
}

#[test]
fn commit_steps_rev_and_vrev_by_one() {
    let mut mock = ObsMock::new();
    fresh_package(&mut mock, "p", "pkg");

    for expected in 1..4u64 {
        let outcome = mock
            .commit(&s("p"), &s("pkg"), Vec::new(), random_md5(), s("Admin"), 0, None)
            .unwrap();
        match outcome {
            CommitOutcome::Committed(listing) => {
                assert_eq!(listing.rev, expected);
                assert_eq!(listing.vrev, Some(expected));
            },
            CommitOutcome::MissingEntries(_) => panic!("nothing was claimed, nothing can miss"),
        }
    }
}

#[test]
fn missing_then_retry_converges() {
    let mut mock = ObsMock::new();
    fresh_package(&mut mock, "p", "pkg");

    let claimed = vec![
        CommitEntry::from_contents(s("a"), b"alpha"),
        CommitEntry::from_contents(s("b"), b"beta"),
        CommitEntry::from_contents(s("c"), b"gamma"),
    ];

    let outcome = mock
        .commit(&s("p"), &s("pkg"), claimed.clone(), random_md5(), s("Admin"), 0, None)
        .unwrap();
    let missing = match outcome {
        CommitOutcome::MissingEntries(m) => m,
        CommitOutcome::Committed(_) => panic!("all three blobs should have been missing"),
    };
    assert_eq!(missing.len(), 3);

    // Upload exactly what was reported missing, nothing else.
    let bodies: [(&str, &[u8]); 3] = [("a", b"alpha"), ("b", b"beta"), ("c", b"gamma")];
    for entry in &missing {
        let contents = bodies
            .iter()
            .find(|(n, _)| *n == entry.name)
            .map(|(_, c)| c.to_vec())
            .unwrap();
        let outcome = mock
            .place_source_file(
                &s("p"),
                &s("pkg"),
                &entry.name,
                contents,
                &Some(s("repository")),
                random_md5(),
                s("Admin"),
                0,
            )
            .unwrap();
        assert!(matches!(outcome, PlacementOutcome::Stored(_)));
    }

    let outcome = mock
        .commit(&s("p"), &s("pkg"), claimed, random_md5(), s("Admin"), 0, None)
        .unwrap();
    match outcome {
        CommitOutcome::Committed(listing) => assert_eq!(listing.entries.len(), 3),
        CommitOutcome::MissingEntries(_) => panic!("retry after uploading must not miss again"),
    }
}

#[test]
fn zero_revision_reported_before_any_commit() {
    let mut mock = ObsMock::new();
    fresh_package(&mut mock, "p", "pkg");

    let listing = mock.package_listing(&s("p"), &s("pkg"), &None, &None).unwrap();
    assert_eq!(listing.rev, 0);
    assert!(listing.vrev.is_none());
    assert_eq!(listing.srcmd5, zero_rev_srcmd5());
    assert_eq!(listing.srcmd5, "d41d8cd98f00b204e9800998ecf8427e");
    assert_eq!(listing.entries.len(), 0);
    assert_eq!(listing.linkinfo.len(), 0);

    // An explicit index of zero selects the same sentinel.
    let listing = mock.package_listing(&s("p"), &s("pkg"), &Some(s("0")), &None).unwrap();
    assert_eq!(listing.rev, 0);
    assert_eq!(listing.srcmd5, "d41d8cd98f00b204e9800998ecf8427e");
}

#[test]
fn branch_copies_entries_and_links_base_revision() {
    let mut mock = ObsMock::new();
    fresh_package(&mut mock, "p1", "pkg");

    let commit_srcmd5 = random_md5();
    let claimed = vec![CommitEntry::from_contents(s("test"), b"abc")];
    mock.place_source_file(
        &s("p1"),
        &s("pkg"),
        &s("test"),
        b"abc".to_vec(),
        &Some(s("repository")),
        random_md5(),
        s("Admin"),
        0,
    )
    .unwrap();
    mock.commit(&s("p1"), &s("pkg"), claimed, commit_srcmd5.clone(), s("Admin"), 0, None)
        .unwrap();

    let mut params = plain_branch_params("user");
    params.target_project = Some(s("p2"));
    mock.do_branch(&s("p1"), &s("pkg"), params).unwrap();

    let listing = mock.package_listing(&s("p2"), &s("pkg"), &None, &None).unwrap();
    // The first revision holds the origin's entries plus the fresh `_meta`.
    assert_eq!(listing.entries.len(), 2);
    let test_entry = listing.entries.iter().find(|e| e.name == "test").unwrap();
    assert_eq!(test_entry.size, 3);
    assert!(listing.entries.iter().any(|e| e.name == "_meta"));
    assert_eq!(listing.linkinfo.len(), 1);
    assert_eq!(listing.linkinfo[0].baserev, commit_srcmd5);
}

#[test]
fn double_branch_guard() {
    let mut mock = ObsMock::new();
    fresh_package(&mut mock, "p1", "pkg");
    mock.commit(&s("p1"), &s("pkg"), Vec::new(), random_md5(), s("Admin"), 0, None).unwrap();

    mock.do_branch(&s("p1"), &s("pkg"), plain_branch_params("user")).unwrap();

    let err = mock.do_branch(&s("p1"), &s("pkg"), plain_branch_params("user")).unwrap_err();
    assert_eq!(err.code(), "double_branch_package");
    assert_eq!(err.http_status(), 400);

    // With force, the target is replaced by a fresh branch of the origin.
    let replacement_srcmd5 = random_md5();
    let mut forced = plain_branch_params("user");
    forced.force = true;
    forced.srcmd5 = replacement_srcmd5.clone();
    mock.do_branch(&s("p1"), &s("pkg"), forced).unwrap();

    let target_project = format!("home:user:branches:p1");
    let listing = mock.package_listing(&target_project, &s("pkg"), &None, &None).unwrap();
    assert_eq!(listing.rev, 1);
    assert_eq!(listing.srcmd5, replacement_srcmd5);
}

#[test]
fn commit_after_one_revision_lists_assigned_hash_and_entry() {
    let mut mock = ObsMock::new();
    fresh_package(&mut mock, "p1", "pkg");

    mock.place_source_file(
        &s("p1"),
        &s("pkg"),
        &s("test"),
        b"abc".to_vec(),
        &Some(s("repository")),
        random_md5(),
        s("Admin"),
        0,
    )
    .unwrap();
    let assigned = random_md5();
    let claimed = vec![CommitEntry::from_contents(s("test"), b"abc")];
    mock.commit(&s("p1"), &s("pkg"), claimed, assigned.clone(), s("Admin"), 0, None).unwrap();

    let listing = mock.package_listing(&s("p1"), &s("pkg"), &None, &None).unwrap();
    assert_eq!(listing.srcmd5, assigned);
    assert_eq!(listing.entries.len(), 1);
    assert_eq!(listing.entries[0].name, "test");
    assert_eq!(listing.entries[0].size, 3);
    assert_eq!(listing.entries[0].md5, "900150983cd24fb0d6963f7d28e17f72");
}

#[test]
fn branch_missingok_records_link_and_guards_again() {
    let mut mock = ObsMock::new();
    // `p1` does not exist at all.
    let mut params = plain_branch_params("user");
    params.missingok = true;
    params.target_project = Some(s("area"));
    params.target_package = Some(s("p2"));
    let status = mock.do_branch(&s("p1"), &s("pkg"), params).unwrap();
    assert_eq!(status.target_project, "area");
    assert_eq!(status.target_package, "p2");

    let listing = mock.package_listing(&s("area"), &s("p2"), &None, &None).unwrap();
    assert_eq!(listing.linkinfo.len(), 1);
    assert!(listing.linkinfo[0].missingok);

    // Branching onto the existing target without force is refused.
    let mut again = plain_branch_params("user");
    again.missingok = true;
    again.target_project = Some(s("area"));
    again.target_package = Some(s("p2"));
    let err = mock.do_branch(&s("p1"), &s("pkg"), again).unwrap_err();
    assert_eq!(err.code(), "double_branch_package");
}

#[test]
fn every_error_has_an_input() {
    let mut mock = ObsMock::new();

    // unknown_project
    let err = mock.package_listing(&s("nope"), &s("pkg"), &None, &None).unwrap_err();
    assert_eq!(err.code(), "unknown_project");
    assert_eq!(err.http_status(), 404);

    fresh_package(&mut mock, "p", "pkg");

    // unknown_package
    let err = mock.package_listing(&s("p"), &s("nope"), &None, &None).unwrap_err();
    assert_eq!(err.code(), "unknown_package");

    // bad revision: not a number
    let err = mock.package_listing(&s("p"), &s("pkg"), &Some(s("abc")), &None).unwrap_err();
    assert_eq!(err.code(), "400");
    assert_eq!(err.http_status(), 400);

    // no such revision: out of range
    let err = mock.package_listing(&s("p"), &s("pkg"), &Some(s("5")), &None).unwrap_err();
    assert_eq!(err.code(), "400");

    // not boolean: a meta flag that is neither 0 nor 1
    let err = mock.package_listing(&s("p"), &s("pkg"), &None, &Some(s("2"))).unwrap_err();
    assert_eq!(err.code(), "400");

    // duplicate paths in a commit list
    let claimed = vec![
        CommitEntry { name: s("f"), md5: random_md5() },
        CommitEntry { name: s("f"), md5: random_md5() },
    ];
    let err = mock
        .commit(&s("p"), &s("pkg"), claimed, random_md5(), s("Admin"), 0, None)
        .unwrap_err();
    assert_eq!(err.code(), "400");

    // not_missing: missingok asserted on an existing package
    let mut params = plain_branch_params("user");
    params.missingok = true;
    let err = mock.do_branch(&s("p"), &s("pkg"), params).unwrap_err();
    assert_eq!(err.code(), "not_missing");

    // unknown_package from branching a missing package without missingok
    let err = mock.do_branch(&s("p"), &s("ghost"), plain_branch_params("user")).unwrap_err();
    assert_eq!(err.code(), "unknown_package");

    // unsupported: a file PUT without rev=repository
    let err = mock
        .place_source_file(&s("p"), &s("pkg"), &s("f"), b"x".to_vec(), &None, random_md5(), s("u"), 0)
        .unwrap_err();
    assert_eq!(err.code(), "unsupported");
    assert_eq!(err.http_status(), 421);

    // 404: a source file the latest revision does not carry
    let err = mock.package_source_file(&s("p"), &s("pkg"), &s("absent")).unwrap_err();
    assert_eq!(err.code(), "404");
}
