use crates_io_smoke_test::registry::{check_version_response, crate_info_url, version_info_url, CheckError};
use crates_io_smoke_test::version::Version;

fn v(major: u64, minor: u64, patch: u64) -> Version {
    Version { major, minor, patch }
}

#[test]
fn crate_info_url_is_exact() {
    assert_eq!(
        crate_info_url("crates-staging-test-tb"),
        "https://staging.crates.io/api/v1/crates/crates-staging-test-tb?include=versions"
    );
}

#[test]
fn version_info_url_is_exact() {
    assert_eq!(
        version_info_url("crates-staging-test-tb", &v(1, 2, 4)),
        "https://staging.crates.io/api/v1/crates/crates-staging-test-tb/1.2.4"
    );
}

#[test]
fn matching_response_is_accepted() {
    let r = check_version_response("foo", &v(1, 2, 4), "foo", &v(1, 2, 4));
    assert!(r.is_ok());
}

#[test]
fn name_mismatch_is_reported_with_both_values() {
    let r = check_version_response("foo", &v(1, 2, 4), "bar", &v(1, 2, 4));
    match r {
        Err(CheckError::NameMismatch { expected, found }) => {
            assert_eq!(expected, "foo");
            assert_eq!(found, "bar");
        }
        _ => panic!("expected a name mismatch"),
    }
    let message = check_version_response("foo", &v(1, 2, 4), "bar", &v(1, 2, 4))
        .unwrap_err()
        .message();
    assert_eq!(
        message,
        "API returned an unexpected crate name; expected `foo` found `bar`"
    );
}

#[test]
fn version_mismatch_is_reported_with_both_values() {
    let r = check_version_response("foo", &v(1, 2, 4), "foo", &v(1, 2, 3));
    match r {
        Err(CheckError::VersionMismatch { expected, found }) => {
            assert_eq!(expected, v(1, 2, 4));
            assert_eq!(found, v(1, 2, 3));
        }
        _ => panic!("expected a version mismatch"),
    }
    let message = check_version_response("foo", &v(1, 2, 4), "foo", &v(1, 2, 3))
        .unwrap_err()
        .message();
    assert_eq!(
        message,
        "API returned an unexpected version number; expected `1.2.4` found `1.2.3`"
    );
}

#[test]
fn name_mismatch_wins_over_version_mismatch() {
    let r = check_version_response("foo", &v(1, 2, 4), "bar", &v(1, 2, 3));
    assert!(matches!(r, Err(CheckError::NameMismatch { .. })));
}
