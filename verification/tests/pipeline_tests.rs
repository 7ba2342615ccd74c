use crates_io_smoke_test::pipeline::{Action, Event, FetchError, FlowError, Phase, Pipeline};
use crates_io_smoke_test::registry::CheckError;
use crates_io_smoke_test::version::Version;

fn v(major: u64, minor: u64, patch: u64) -> Version {
    Version { major, minor, patch }
}

fn name() -> String {
    "crates-staging-test-tb".to_string()
}

#[test]
fn run_starts_with_the_crate_info_query() {
    let (pipeline, action) = Pipeline::new(name(), false);
    assert!(matches!(pipeline.phase, Phase::AwaitingCrateInfo));
    match action {
        Action::FetchCrateInfo { url } => assert_eq!(
            url,
            "https://staging.crates.io/api/v1/crates/crates-staging-test-tb?include=versions"
        ),
        _ => panic!("expected the crate info query"),
    }
}

#[test]
fn skipped_publish_checks_the_old_version() {
    let (mut pipeline, _) = Pipeline::new(name(), true);
    let action = pipeline.handle(Event::CrateInfo {
        result: Ok(v(1, 2, 3)),
    });
    match action {
        Action::FetchVersionInfo { url } => assert_eq!(
            url,
            "https://staging.crates.io/api/v1/crates/crates-staging-test-tb/1.2.3"
        ),
        _ => panic!("expected the version info query"),
    }
    let action = pipeline.handle(Event::VersionInfo {
        result: Ok((name(), v(1, 2, 3))),
    });
    assert!(matches!(action, Action::Succeed));
    assert!(matches!(pipeline.phase, Phase::Finished { ok: true }));
}

#[test]
fn full_publish_run_targets_the_bumped_version() {
    let (mut pipeline, _) = Pipeline::new(name(), false);
    let action = pipeline.handle(Event::CrateInfo {
        result: Ok(v(0, 1, 0)),
    });
    match action {
        Action::CreateProject { name: project } => {
            assert_eq!(project, "crates-staging-test-tb")
        }
        _ => panic!("expected the scaffolding step"),
    }
    let action = pipeline.handle(Event::ScaffoldDone { success: true });
    match action {
        Action::WriteProjectFiles { manifest, readme } => {
            assert!(manifest.contains("version = \"0.1.1\""));
            assert!(readme.contains("# crates-staging-test-tb v0.1.1"));
        }
        _ => panic!("expected the file writes"),
    }
    let action = pipeline.handle(Event::ProjectFilesDone { success: true });
    assert!(matches!(action, Action::RunPublish));
    let action = pipeline.handle(Event::PublishDone { success: true });
    match action {
        Action::FetchVersionInfo { url } => assert_eq!(
            url,
            "https://staging.crates.io/api/v1/crates/crates-staging-test-tb/0.1.1"
        ),
        _ => panic!("expected the version info query"),
    }
    let action = pipeline.handle(Event::VersionInfo {
        result: Ok((name(), v(0, 1, 1))),
    });
    assert!(matches!(action, Action::Succeed));
    assert!(matches!(pipeline.phase, Phase::Finished { ok: true }));
}

#[test]
fn failed_publish_stops_the_run_before_the_version_query() {
    let (mut pipeline, _) = Pipeline::new(name(), false);
    pipeline.handle(Event::CrateInfo {
        result: Ok(v(1, 2, 3)),
    });
    pipeline.handle(Event::ScaffoldDone { success: true });
    pipeline.handle(Event::ProjectFilesDone { success: true });
    let action = pipeline.handle(Event::PublishDone { success: false });
    match action {
        Action::Fail { error } => {
            assert!(matches!(error, FlowError::PublishFailed));
            assert_eq!(error.message(), "Failed to run `cargo publish`");
        }
        _ => panic!("a failed publish must fail the run"),
    }
    assert!(matches!(pipeline.phase, Phase::Finished { ok: false }));
}

#[test]
fn failed_scaffold_stops_the_run() {
    let (mut pipeline, _) = Pipeline::new(name(), false);
    pipeline.handle(Event::CrateInfo {
        result: Ok(v(1, 2, 3)),
    });
    let action = pipeline.handle(Event::ScaffoldDone { success: false });
    match action {
        Action::Fail { error } => {
            assert_eq!(error.message(), "Failed to run `cargo new`");
        }
        _ => panic!("a failed scaffold must fail the run"),
    }
}

#[test]
fn unavailable_crate_info_fails_the_run() {
    let (mut pipeline, _) = Pipeline::new(name(), false);
    let action = pipeline.handle(Event::CrateInfo { result: Err(FetchError::Request) });
    match action {
        Action::Fail { error } => {
            assert_eq!(
                error.message(),
                "Failed to load crate information from staging.crates.io"
            );
        }
        _ => panic!("a failed crate info query must fail the run"),
    }
}

#[test]
fn unavailable_version_info_fails_the_run() {
    let (mut pipeline, _) = Pipeline::new(name(), true);
    pipeline.handle(Event::CrateInfo {
        result: Ok(v(1, 2, 3)),
    });
    let action = pipeline.handle(Event::VersionInfo { result: Err(FetchError::Request) });
    match action {
        Action::Fail { error } => {
            assert_eq!(
                error.message(),
                "Failed to load version information from staging.crates.io"
            );
        }
        _ => panic!("a failed version info query must fail the run"),
    }
}

#[test]
fn unexpected_crate_name_fails_with_both_values() {
    let (mut pipeline, _) = Pipeline::new("foo".to_string(), true);
    pipeline.handle(Event::CrateInfo {
        result: Ok(v(1, 2, 3)),
    });
    let action = pipeline.handle(Event::VersionInfo {
        result: Ok(("bar".to_string(), v(1, 2, 3))),
    });
    match action {
        Action::Fail {
            error: FlowError::Check { error: CheckError::NameMismatch { expected, found } },
        } => {
            assert_eq!(expected, "foo");
            assert_eq!(found, "bar");
        }
        _ => panic!("an unexpected crate name must fail the run"),
    }
    assert!(matches!(pipeline.phase, Phase::Finished { ok: false }));
}

#[test]
fn unexpected_version_fails_with_both_values() {
    let (mut pipeline, _) = Pipeline::new(name(), false);
    pipeline.handle(Event::CrateInfo {
        result: Ok(v(1, 2, 3)),
    });
    pipeline.handle(Event::ScaffoldDone { success: true });
    pipeline.handle(Event::ProjectFilesDone { success: true });
    pipeline.handle(Event::PublishDone { success: true });
    let action = pipeline.handle(Event::VersionInfo {
        result: Ok((name(), v(1, 2, 3))),
    });
    match action {
        Action::Fail { error } => {
            assert_eq!(
                error.message(),
                "API returned an unexpected version number; expected `1.2.4` found `1.2.3`"
            );
        }
        _ => panic!("an unexpected version must fail the run"),
    }
}

#[test]
fn patch_overflow_fails_instead_of_wrapping() {
    let (mut pipeline, _) = Pipeline::new(name(), false);
    let action = pipeline.handle(Event::CrateInfo {
        result: Ok(v(1, 2, u64::MAX)),
    });
    match action {
        Action::Fail { error } => {
            assert_eq!(
                error.message(),
                "The patch number cannot be incremented any further"
            );
        }
        _ => panic!("an overflowing patch must fail the run"),
    }
}

#[test]
fn undecodable_crate_info_fails_the_run() {
    let (mut pipeline, _) = Pipeline::new(name(), false);
    let action = pipeline.handle(Event::CrateInfo { result: Err(FetchError::Decode) });
    match action {
        Action::Fail { error } => {
            assert_eq!(error.message(), "Failed to deserialize crate information");
        }
        _ => panic!("an undecodable crate info body must fail the run"),
    }
}

#[test]
fn undecodable_version_info_fails_the_run() {
    let (mut pipeline, _) = Pipeline::new(name(), true);
    pipeline.handle(Event::CrateInfo {
        result: Ok(v(1, 2, 3)),
    });
    let action = pipeline.handle(Event::VersionInfo { result: Err(FetchError::Decode) });
    match action {
        Action::Fail { error } => {
            assert_eq!(error.message(), "Failed to deserialize version information");
        }
        _ => panic!("an undecodable version info body must fail the run"),
    }
}

#[test]
fn failed_file_writes_stop_the_run() {
    let (mut pipeline, _) = Pipeline::new(name(), false);
    pipeline.handle(Event::CrateInfo {
        result: Ok(v(1, 2, 3)),
    });
    pipeline.handle(Event::ScaffoldDone { success: true });
    let action = pipeline.handle(Event::ProjectFilesDone { success: false });
    match action {
        Action::Fail { error } => {
            assert_eq!(error.message(), "Failed to write the generated project files");
        }
        _ => panic!("failed file writes must fail the run"),
    }
    assert!(matches!(pipeline.phase, Phase::Finished { ok: false }));
}
