//! The small pieces on their own: digests, wire names, parsers, metadata
//! rendering, credentials and the monitor's decisions.

use obs_mock::auth::check_credentials;
use obs_mock::auth::BasicAuth;
use obs_mock::codes::MockBlockMode;
use obs_mock::codes::MockPackageCode;
use obs_mock::codes::MockRebuildMode;
use obs_mock::codes::MockRepositoryCode;
use obs_mock::digest::content_md5;
use obs_mock::digest::random_md5;
use obs_mock::digest::zero_rev_srcmd5;
use obs_mock::monitor::monitor_done;
use obs_mock::monitor::monitor_update;
use obs_mock::monitor::monitor_verdict;
use obs_mock::monitor::BuildStatusInfo;
use obs_mock::monitor::MonitorData;
use obs_mock::monitor::MonitorVerdict;
use obs_mock::monitor::PackageCode;
use obs_mock::monitor::ResultListResult;
use obs_mock::oscrc::plan_credentials;
use obs_mock::oscrc::CredentialsPlan;
use obs_mock::oscrc::CredentialsPlanError;
use obs_mock::ops::parse_block_param;
use obs_mock::ops::parse_meta_flag;
use obs_mock::ops::parse_rebuild_param;
use obs_mock::ops::parse_rev;
use obs_mock::ops::CommitEntry;
use obs_mock::registry::ObsMock;
use obs_mock::types::MockPackageDisabledBuild;
use obs_mock::types::MockPackageOptions;
use obs_mock::types::MockRevisionOptions;
use obs_mock::types::MockSourceFile;
use obs_mock::types::MockSourceFileKey;

fn s(x: &str) -> String {
    x.to_string()
}

#[test]
fn digest_of_known_bytes() {
    // The well-known digests of the empty message and of "abc".
    assert_eq!(content_md5(b""), "d41d8cd98f00b204e9800998ecf8427e");
    assert_eq!(content_md5(b"abc"), "900150983cd24fb0d6963f7d28e17f72");
    assert_eq!(zero_rev_srcmd5(), content_md5(b""));
}

#[test]
fn random_digests_have_digest_shape() {
    for _ in 0..8 {
        let r = random_md5();
        assert_eq!(r.len(), 32);
        assert!(r.chars().all(|c| c.is_ascii_hexdigit() && !c.is_ascii_uppercase()));
    }
}

#[test]
fn commit_entry_hashes_its_contents() {
    let e = CommitEntry::from_contents(s("f"), b"abc");
    assert_eq!(e.name, "f");
    assert_eq!(e.md5, "900150983cd24fb0d6963f7d28e17f72");
}

#[test]
fn source_file_key_round_trip() {
    let file = MockSourceFile { path: s("f"), contents: b"abc".to_vec() };
    assert_eq!(file.md5(), "900150983cd24fb0d6963f7d28e17f72");
    let (key, contents) = file.into_key_and_contents();
    assert_eq!(key.path, "f");
    assert_eq!(key.md5, "900150983cd24fb0d6963f7d28e17f72");
    assert_eq!(contents, b"abc".to_vec());
    let key2 = MockSourceFileKey::borrowed(&key.path, &key.md5).into_owned();
    assert_eq!(key2.path, key.path);
    assert_eq!(key2.md5, key.md5);
}

#[test]
fn metadata_blob_is_rendered_deterministically() {
    let plain = MockSourceFile::new_metadata(&s("prj"), &s("pkg"), &Vec::new());
    assert_eq!(plain.path, "_meta");
    assert_eq!(
        String::from_utf8(plain.contents).unwrap(),
        "<package project=\"prj\" name=\"pkg\"><title/><description/></package>",
    );

    let disabled = vec![MockPackageDisabledBuild { repository: Some(s("r")), arch: None }];
    let with_build = MockSourceFile::new_metadata(&s("prj"), &s("pkg"), &disabled);
    assert_eq!(
        String::from_utf8(with_build.contents).unwrap(),
        "<package project=\"prj\" name=\"pkg\"><title/><description/>\
         <build><disable repository=\"r\"/></build></package>",
    );
}

#[test]
fn wire_names_of_codes_and_modes() {
    assert_eq!(MockRepositoryCode::Publishing.as_str(), "publishing");
    assert_eq!(MockPackageCode::Unresolvable.as_str(), "unresolvable");
    assert_eq!(MockRebuildMode::Transitive.as_str(), "transitive");
    assert_eq!(MockBlockMode::Never.as_str(), "never");
    assert_eq!(MockRebuildMode::from_name(&s("direct")), Some(MockRebuildMode::Direct));
    assert_eq!(MockRebuildMode::from_name(&s("bogus")), None);
    assert_eq!(MockBlockMode::from_name(&s("local")), Some(MockBlockMode::Local));
    assert_eq!(MockPackageCode::default(), MockPackageCode::Unknown);
    assert_eq!(MockRebuildMode::default(), MockRebuildMode::Transitive);
    assert_eq!(MockBlockMode::default(), MockBlockMode::All);
}

#[test]
fn query_parameter_parsers() {
    assert_eq!(parse_rev(&s("10")), Some(10));
    assert_eq!(parse_rev(&s("0")), Some(0));
    assert_eq!(parse_rev(&s("")), None);
    assert_eq!(parse_rev(&s("1a")), None);
    assert_eq!(parse_rev(&s("99999999999999999999999999")), None);

    assert_eq!(parse_meta_flag(&None).unwrap(), false);
    assert_eq!(parse_meta_flag(&Some(s("0"))).unwrap(), false);
    assert_eq!(parse_meta_flag(&Some(s("1"))).unwrap(), true);
    assert!(parse_meta_flag(&Some(s("yes"))).is_err());

    assert_eq!(parse_rebuild_param(&None).unwrap(), None);
    assert_eq!(
        parse_rebuild_param(&Some(s("local"))).unwrap(),
        Some(MockRebuildMode::Local),
    );
    let err = parse_rebuild_param(&Some(s("bogus"))).unwrap_err();
    assert_eq!(err.code(), "invalid_argument");
    let err = parse_block_param(&Some(s("bogus"))).unwrap_err();
    assert_eq!(err.code(), "invalid_argument");
}

#[test]
fn credentials_decode_and_check() {
    // "user:pass" in Base64.
    let auth = BasicAuth::from_credentials(b"dXNlcjpwYXNz").unwrap();
    assert_eq!(auth.username(), "user");
    assert_eq!(auth.password(), "pass");

    // A password holding further colons splits at the first one.
    let auth = BasicAuth::from_credentials(b"dTpwOnE=").unwrap();
    assert_eq!(auth.username(), "u");
    assert_eq!(auth.password(), "p:q");

    // No colon at all is refused, as is text that is no Base64.
    assert!(BasicAuth::from_credentials(b"dXNlcnBhc3M=").is_err());
    assert!(BasicAuth::from_credentials(b"!!!").is_err());

    let expected = BasicAuth::new(&s("user"), &s("pass"));
    assert!(check_credentials(&expected, &BasicAuth::new(&s("user"), &s("wrong"))));
    assert!(check_credentials(&expected, &BasicAuth::new(&s("other"), &s("pass"))));
    assert!(!check_credentials(&expected, &BasicAuth::new(&s("other"), &s("wrong"))));
}

#[test]
fn monitor_folds_results_and_judges() {
    let result = ResultListResult {
        repository: s("repo"),
        arch: s("x86_64"),
        dirty: false,
        statuses: vec![
            BuildStatusInfo { package: s("other"), code: PackageCode::Building },
            BuildStatusInfo { package: s("mine"), code: PackageCode::Succeeded },
        ],
    };
    let data = MonitorData::from_result(&result, &s("mine"));
    assert_eq!(data.code, PackageCode::Succeeded);

    let dirty = ResultListResult {
        repository: s("repo"),
        arch: s("x86_64"),
        dirty: true,
        statuses: Vec::new(),
    };
    assert_eq!(MonitorData::from_result(&dirty, &s("mine")).code, PackageCode::Unknown);

    let mut last: Vec<MonitorData> = Vec::new();
    assert!(monitor_update(
        &mut last,
        MonitorData { repository: s("repo"), arch: s("x86_64"), code: PackageCode::Building },
    ));
    assert!(!monitor_done(&last));
    // An unknown code never overwrites a known one.
    assert!(!monitor_update(
        &mut last,
        MonitorData { repository: s("repo"), arch: s("x86_64"), code: PackageCode::Unknown },
    ));
    assert_eq!(last[0].code, PackageCode::Building);
    assert!(monitor_update(
        &mut last,
        MonitorData { repository: s("repo"), arch: s("x86_64"), code: PackageCode::Failed },
    ));
    assert!(monitor_done(&last));
    assert_eq!(monitor_verdict(&last), MonitorVerdict::BuildFailure);

    assert!(monitor_update(
        &mut last,
        MonitorData { repository: s("repo"), arch: s("aarch64"), code: PackageCode::Excluded },
    ));
    assert_eq!(last.len(), 2);
    assert_eq!(monitor_verdict(&last), MonitorVerdict::BuildFailure);

    let calm = vec![
        MonitorData { repository: s("repo"), arch: s("x86_64"), code: PackageCode::Excluded },
        MonitorData { repository: s("repo"), arch: s("aarch64"), code: PackageCode::Disabled },
    ];
    assert_eq!(monitor_verdict(&calm), MonitorVerdict::AllExcludedDisabled);

    let good = vec![
        MonitorData { repository: s("repo"), arch: s("x86_64"), code: PackageCode::Succeeded },
        MonitorData { repository: s("repo"), arch: s("aarch64"), code: PackageCode::Excluded },
    ];
    assert_eq!(monitor_verdict(&good), MonitorVerdict::Success);
    assert!(PackageCode::Succeeded.is_final());
    assert!(!PackageCode::Scheduled.is_final());
}

#[test]
fn vrev_counters_run_per_version_label() {
    let mut mock = ObsMock::new();
    mock.add_project(s("p"));
    mock.add_new_package(
        &s("p"),
        s("pkg"),
        MockPackageOptions {
            meta_srcmd5: random_md5(),
            time: 0,
            user: s("Admin"),
            disabled: Vec::new(),
        },
    );

    let mut seed = |version: Option<String>| {
        mock.add_package_revision(
            &s("p"),
            &s("pkg"),
            MockRevisionOptions {
                srcmd5: random_md5(),
                version,
                time: 0,
                user: s("Admin"),
                comment: None,
            },
            Vec::new(),
        )
        .unwrap();
    };
    seed(Some(s("1.0")));
    seed(Some(s("1.0")));
    seed(Some(s("2.0")));
    seed(None);
    seed(Some(s("1.0")));

    let history = mock.package_history(&s("p"), &s("pkg")).unwrap();
    let vrevs: Vec<u64> = history.iter().map(|h| h.vrev).collect();
    // Each label counts its own appends: 1.0 three times, 2.0 once, the
    // absent label once.
    assert_eq!(vrevs, vec![1, 2, 1, 1, 3]);
    let revs: Vec<u64> = history.iter().map(|h| h.rev).collect();
    assert_eq!(revs, vec![1, 2, 3, 4, 5]);
}

#[test]
fn credentials_plan_chooses_a_source() {
    let keyring =
        "osc.credentials.KeyringCredentialsManager:keyring.backends.SecretService.Keyring";
    match plan_credentials(&Some(s("hunter")), &None).unwrap() {
        CredentialsPlan::Plain(p) => assert_eq!(p, "hunter"),
        CredentialsPlan::QuerySecretService => panic!("a carried password wins"),
    }
    // A carried password wins even over a named manager.
    match plan_credentials(&Some(s("hunter")), &Some(s(keyring))).unwrap() {
        CredentialsPlan::Plain(p) => assert_eq!(p, "hunter"),
        CredentialsPlan::QuerySecretService => panic!("a carried password wins"),
    }
    assert!(matches!(
        plan_credentials(&None, &Some(s(keyring))).unwrap(),
        CredentialsPlan::QuerySecretService
    ));
    assert!(matches!(
        plan_credentials(&None, &Some(s("keyring.backends.chain"))).unwrap_err(),
        CredentialsPlanError::UnknownCredMgr(_)
    ));
    assert!(matches!(
        plan_credentials(&None, &None).unwrap_err(),
        CredentialsPlanError::MissingPass
    ));
}
