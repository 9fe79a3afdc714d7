//! The build-side state: registering cells, recording statuses, binaries,
//! logs and history, and the cascade that removes a deleted package's
//! build results from every cell.

use obs_mock::builds::MockBinary;
use obs_mock::builds::MockBuildHistoryEntry;
use obs_mock::builds::MockBuildLog;
use obs_mock::builds::MockBuildStatus;
use obs_mock::builds::MockNamedBinary;
use obs_mock::codes::MockPackageCode;
use obs_mock::codes::MockRepositoryCode;
use obs_mock::digest::random_md5;
use obs_mock::registry::ObsMock;
use obs_mock::types::MockPackageOptions;

fn s(x: &str) -> String {
    x.to_string()
}

fn seeded() -> ObsMock {
    let mut mock = ObsMock::new();
    mock.add_project(s("p"));
    mock.add_new_package(
        &s("p"),
        s("pkg"),
        MockPackageOptions {
            meta_srcmd5: random_md5(),
            time: 0,
            user: s("Admin"),
            disabled: Vec::new(),
        },
    );
    mock.add_or_update_repository(&s("p"), s("repo"), s("x86_64"), MockRepositoryCode::Building);
    mock
}

#[test]
fn build_status_set_and_read() {
    let mut mock = seeded();

    // A package never built reports a clean unknown status.
    let st = mock.package_build_status(&s("p"), &s("repo"), &s("x86_64"), &s("pkg")).unwrap();
    assert_eq!(st.code, MockPackageCode::Unknown);
    assert!(!st.dirty);

    mock.set_package_build_status(
        &s("p"),
        &s("repo"),
        &s("x86_64"),
        s("pkg"),
        MockBuildStatus { code: MockPackageCode::Building, dirty: true },
    );
    let st = mock.package_build_status(&s("p"), &s("repo"), &s("x86_64"), &s("pkg")).unwrap();
    assert_eq!(st.code, MockPackageCode::Building);
    assert!(st.dirty);

    mock.set_package_build_status(
        &s("p"),
        &s("repo"),
        &s("x86_64"),
        s("pkg"),
        MockBuildStatus::new(MockPackageCode::Succeeded),
    );
    let st = mock.package_build_status(&s("p"), &s("repo"), &s("x86_64"), &s("pkg")).unwrap();
    assert_eq!(st.code, MockPackageCode::Succeeded);
    assert!(!st.dirty);

    // The errors of the status lookup.
    let err = mock.package_build_status(&s("q"), &s("repo"), &s("x86_64"), &s("pkg")).unwrap_err();
    assert_eq!(err.code(), "unknown_project");
    let err = mock.package_build_status(&s("p"), &s("repo"), &s("x86_64"), &s("ghost")).unwrap_err();
    assert_eq!(err.code(), "unknown_package");
    let err = mock.package_build_status(&s("p"), &s("other"), &s("x86_64"), &s("pkg")).unwrap_err();
    assert_eq!(err.code(), "404");
    let err = mock.package_build_status(&s("p"), &s("repo"), &s("s390x"), &s("pkg")).unwrap_err();
    assert_eq!(err.code(), "404");
}

#[test]
fn build_results_recorded_per_cell() {
    let mut mock = seeded();

    mock.set_package_binaries(
        &s("p"),
        &s("repo"),
        &s("x86_64"),
        s("pkg"),
        vec![MockNamedBinary {
            name: s("hello.rpm"),
            binary: MockBinary { contents: b"rpm bytes".to_vec(), mtime: 7 },
        }],
    );
    mock.add_completed_build_log(
        &s("p"),
        &s("repo"),
        &s("x86_64"),
        s("pkg"),
        MockBuildLog { contents: s("some log text"), mtime: 8, chunk_size: None },
        true,
    );
    mock.add_build_history(
        &s("p"),
        &s("repo"),
        &s("x86_64"),
        s("pkg"),
        MockBuildHistoryEntry {
            rev: s("1"),
            srcmd5: random_md5(),
            versrel: s("0.0.1-1"),
            bcnt: 1,
            time: 10,
            duration: 15,
        },
    );

    let project = &mock.projects.iter().find(|p| p.name == "p").unwrap().project;
    let repo = project.repos.iter().find(|r| r.name == "repo").unwrap();
    let cell = &repo.arches.iter().find(|c| c.arch == "x86_64").unwrap().repo;
    let record = cell.packages.iter().find(|r| r.name == "pkg").unwrap();
    assert_eq!(record.binaries.len(), 1);
    assert_eq!(record.binaries[0].name, "hello.rpm");
    assert_eq!(record.latest_log.as_ref().unwrap().contents, "some log text");
    assert_eq!(record.latest_successful_log.as_ref().unwrap().contents, "some log text");
    assert_eq!(record.history.len(), 1);
    assert_eq!(record.history[0].versrel, "0.0.1-1");

    // A failed build's log does not become the latest successful one.
    mock.add_completed_build_log(
        &s("p"),
        &s("repo"),
        &s("x86_64"),
        s("pkg"),
        MockBuildLog { contents: s("a broken run"), mtime: 9, chunk_size: None },
        false,
    );
    let project = &mock.projects.iter().find(|p| p.name == "p").unwrap().project;
    let repo = project.repos.iter().find(|r| r.name == "repo").unwrap();
    let cell = &repo.arches.iter().find(|c| c.arch == "x86_64").unwrap().repo;
    let record = cell.packages.iter().find(|r| r.name == "pkg").unwrap();
    assert_eq!(record.latest_log.as_ref().unwrap().contents, "a broken run");
    assert_eq!(record.latest_successful_log.as_ref().unwrap().contents, "some log text");
}

#[test]
fn deleting_a_package_purges_its_build_results() {
    let mut mock = seeded();
    mock.set_package_build_status(
        &s("p"),
        &s("repo"),
        &s("x86_64"),
        s("pkg"),
        MockBuildStatus::new(MockPackageCode::Succeeded),
    );

    mock.delete_package(&s("p"), &s("pkg")).unwrap();

    let project = &mock.projects.iter().find(|p| p.name == "p").unwrap().project;
    let repo = project.repos.iter().find(|r| r.name == "repo").unwrap();
    let cell = &repo.arches.iter().find(|c| c.arch == "x86_64").unwrap().repo;
    assert_eq!(cell.code, MockRepositoryCode::Building);
    assert!(cell.packages.iter().all(|r| r.name != "pkg"));
}
