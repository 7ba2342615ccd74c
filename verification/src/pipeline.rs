//! The run as a step-by-step pipeline.
//!
//! The pipeline owns every decision of the smoke test; the surrounding
//! program only performs the returned `Action` (an HTTP query, a child
//! process, two file writes) and hands the outcome back as an `Event`.
//! The transition of the phase is the spec function `next_phase`, and
//! the returned action is pinned down by `action_fits`; the laws at the
//! end are proved of those spec functions.

use crate::registry::CheckError;
use crate::registry::check_version_response;
use crate::registry::crate_info_url;
use crate::registry::crate_info_url_seq;
use crate::registry::version_info_url;
use crate::registry::version_info_url_seq;
use crate::scaffold::manifest_content;
use crate::scaffold::manifest_seq;
use crate::scaffold::readme_content;
use crate::scaffold::readme_seq;
use crate::version::Version;
use vstd::pervasive::unreached;
use vstd::prelude::*;

verus! {

/// Where the run stands: each waiting phase names the outside step whose
/// outcome the pipeline expects next.
#[derive(Clone, Copy, Debug, PartialEq, Eq, Structural)]
pub enum Phase {
    AwaitingCrateInfo,
    AwaitingScaffold { new_version: Version },
    AwaitingProjectFiles { new_version: Version },
    AwaitingPublish { new_version: Version },
    AwaitingVersionInfo { expected: Version },
    Finished { ok: bool },
}

/// How an HTTP query against the registry failed: the request itself
/// (the network, or a non-success status), or the reading of its body.
#[derive(Clone, Copy, Debug, PartialEq, Eq, Structural)]
pub enum FetchError {
    Request,
    Decode,
}

/// The outcome of an outside step, handed back to the pipeline.
pub enum Event {
    /// The pre-publish query: the highest published version, or how the
    /// query failed.
    CrateInfo { result: Result<Version, FetchError> },
    /// Whether the scaffolding command exited successfully.
    ScaffoldDone { success: bool },
    /// Whether the two generated files were written.
    ProjectFilesDone { success: bool },
    /// Whether the publish command exited successfully.
    PublishDone { success: bool },
    /// The post-publish query: the package name and version number the
    /// registry reports, or how the query failed.
    VersionInfo { result: Result<(String, Version), FetchError> },
}

/// Why the run failed.
pub enum FlowError {
    CrateInfoRequestFailed,
    CrateInfoDecodeFailed,
    PatchOverflow,
    ScaffoldFailed,
    ProjectFilesFailed,
    PublishFailed,
    VersionInfoRequestFailed,
    VersionInfoDecodeFailed,
    Check { error: CheckError },
}

impl FlowError {
    /// The message of the error.
    pub open spec fn message_seq(self) -> Seq<char> {
        match self {
            FlowError::CrateInfoRequestFailed => {
                "Failed to load crate information from staging.crates.io"@
            },
            FlowError::CrateInfoDecodeFailed => "Failed to deserialize crate information"@,
            FlowError::PatchOverflow => "The patch number cannot be incremented any further"@,
            FlowError::ScaffoldFailed => "Failed to run `cargo new`"@,
            FlowError::ProjectFilesFailed => "Failed to write the generated project files"@,
            FlowError::PublishFailed => "Failed to run `cargo publish`"@,
            FlowError::VersionInfoRequestFailed => {
                "Failed to load version information from staging.crates.io"@
            },
            FlowError::VersionInfoDecodeFailed => "Failed to deserialize version information"@,
            FlowError::Check { error } => error.message_seq(),
        }
    }

    pub fn message(&self) -> (m: String)
        ensures
            m@ == self.message_seq(),
    {
        match self {
            FlowError::CrateInfoRequestFailed => {
                "Failed to load crate information from staging.crates.io".to_owned()
            },
            FlowError::CrateInfoDecodeFailed => {
                "Failed to deserialize crate information".to_owned()
            },
            FlowError::PatchOverflow => {
                "The patch number cannot be incremented any further".to_owned()
            },
            FlowError::ScaffoldFailed => "Failed to run `cargo new`".to_owned(),
            FlowError::ProjectFilesFailed => {
                "Failed to write the generated project files".to_owned()
            },
            FlowError::PublishFailed => "Failed to run `cargo publish`".to_owned(),
            FlowError::VersionInfoRequestFailed => {
                "Failed to load version information from staging.crates.io".to_owned()
            },
            FlowError::VersionInfoDecodeFailed => {
                "Failed to deserialize version information".to_owned()
            },
            FlowError::Check { error } => error.message(),
        }
    }
}

/// What the surrounding program must do next.
pub enum Action {
    /// Issue an HTTP GET against the given URL and hand back
    /// `Event::CrateInfo`.
    FetchCrateInfo { url: String },
    /// Run the scaffolding command for the named project in a fresh
    /// temporary directory and hand back `Event::ScaffoldDone`.
    CreateProject { name: String },
    /// Write the two generated files over the scaffolded ones and hand
    /// back `Event::ProjectFilesDone`.
    WriteProjectFiles { manifest: String, readme: String },
    /// Run the publish command in the project directory and hand back
    /// `Event::PublishDone`.
    RunPublish,
    /// Issue an HTTP GET against the given URL and hand back
    /// `Event::VersionInfo`.
    FetchVersionInfo { url: String },
    /// The run succeeded; exit cleanly.
    Succeed,
    /// The run failed; report the error and exit with a failure status.
    Fail { error: FlowError },
}

/// The pipeline: the configuration and the current phase.
pub struct Pipeline {
    pub crate_name: String,
    pub skip_publish: bool,
    pub phase: Phase,
}

/// Whether an event is the one the current phase waits for.
pub open spec fn event_fits(p: Pipeline, e: Event) -> bool {
    match p.phase {
        Phase::AwaitingCrateInfo => e is CrateInfo,
        Phase::AwaitingScaffold { .. } => e is ScaffoldDone,
        Phase::AwaitingProjectFiles { .. } => e is ProjectFilesDone,
        Phase::AwaitingPublish { .. } => e is PublishDone,
        Phase::AwaitingVersionInfo { .. } => e is VersionInfo,
        Phase::Finished { .. } => false,
    }
}

/// The new version a successful run publishes: the old one with the
/// patch component bumped, or the old one itself when publishing is
/// skipped.
pub open spec fn bumped(v: Version) -> Version {
    Version { major: v.major, minor: v.minor, patch: (v.patch + 1) as u64 }
}

/// The phase after handling an event.
pub open spec fn next_phase(p: Pipeline, e: Event) -> Phase
    recommends
        event_fits(p, e),
{
    match e {
        Event::CrateInfo { result } => match result {
            Err(_) => Phase::Finished { ok: false },
            Ok(old_version) => {
                if p.skip_publish {
                    Phase::AwaitingVersionInfo { expected: old_version }
                } else if old_version.patch == u64::MAX {
                    Phase::Finished { ok: false }
                } else {
                    Phase::AwaitingScaffold { new_version: bumped(old_version) }
                }
            },
        },
        Event::ScaffoldDone { success } => {
            if success {
                Phase::AwaitingProjectFiles { new_version: p.phase->AwaitingScaffold_new_version }
            } else {
                Phase::Finished { ok: false }
            }
        },
        Event::ProjectFilesDone { success } => {
            if success {
                Phase::AwaitingPublish { new_version: p.phase->AwaitingProjectFiles_new_version }
            } else {
                Phase::Finished { ok: false }
            }
        },
        Event::PublishDone { success } => {
            if success {
                Phase::AwaitingVersionInfo { expected: p.phase->AwaitingPublish_new_version }
            } else {
                Phase::Finished { ok: false }
            }
        },
        Event::VersionInfo { result } => match result {
            Err(_) => Phase::Finished { ok: false },
            Ok(r) => {
                Phase::Finished {
                    ok: r.0@ == p.crate_name@ && r.1 == p.phase->AwaitingVersionInfo_expected,
                }
            },
        },
    }
}

/// The action returned for an event, pinned down value by value.
pub open spec fn action_fits(p: Pipeline, e: Event, a: Action) -> bool
    recommends
        event_fits(p, e),
{
    match e {
        Event::CrateInfo { result } => match result {
            Err(FetchError::Request) => a == Action::Fail {
                error: FlowError::CrateInfoRequestFailed,
            },
            Err(FetchError::Decode) => a == Action::Fail {
                error: FlowError::CrateInfoDecodeFailed,
            },
            Ok(old_version) => {
                if p.skip_publish {
                    &&& a is FetchVersionInfo
                    &&& a->FetchVersionInfo_url@ == version_info_url_seq(
                        p.crate_name@,
                        old_version,
                    )
                } else if old_version.patch == u64::MAX {
                    a == Action::Fail { error: FlowError::PatchOverflow }
                } else {
                    &&& a is CreateProject
                    &&& a->CreateProject_name@ == p.crate_name@
                }
            },
        },
        Event::ScaffoldDone { success } => {
            if success {
                &&& a is WriteProjectFiles
                &&& a->WriteProjectFiles_manifest@ == manifest_seq(
                    p.crate_name@,
                    p.phase->AwaitingScaffold_new_version,
                )
                &&& a->WriteProjectFiles_readme@ == readme_seq(
                    p.crate_name@,
                    p.phase->AwaitingScaffold_new_version,
                )
            } else {
                a == Action::Fail { error: FlowError::ScaffoldFailed }
            }
        },
        Event::ProjectFilesDone { success } => {
            if success {
                a is RunPublish
            } else {
                a == Action::Fail { error: FlowError::ProjectFilesFailed }
            }
        },
        Event::PublishDone { success } => {
            if success {
                &&& a is FetchVersionInfo
                &&& a->FetchVersionInfo_url@ == version_info_url_seq(
                    p.crate_name@,
                    p.phase->AwaitingPublish_new_version,
                )
            } else {
                a == Action::Fail { error: FlowError::PublishFailed }
            }
        },
        Event::VersionInfo { result } => match result {
            Err(FetchError::Request) => a == Action::Fail {
                error: FlowError::VersionInfoRequestFailed,
            },
            Err(FetchError::Decode) => a == Action::Fail {
                error: FlowError::VersionInfoDecodeFailed,
            },
            Ok(r) => {
                let expected = p.phase->AwaitingVersionInfo_expected;
                if r.0@ != p.crate_name@ {
                    &&& a matches Action::Fail {
                        error: FlowError::Check {
                            error: CheckError::NameMismatch { expected: en, found: fo },
                        },
                    }
                    &&& en@ == p.crate_name@
                    &&& fo@ == r.0@
                } else if r.1 != expected {
                    a == Action::Fail {
                        error: FlowError::Check {
                            error: CheckError::VersionMismatch { expected, found: r.1 },
                        },
                    }
                } else {
                    a is Succeed
                }
            },
        },
    }
}

impl Pipeline {
    /// Start a run: the first action is the pre-publish query.
    pub fn new(crate_name: String, skip_publish: bool) -> (r: (Pipeline, Action))
        ensures
            r.0.crate_name@ == crate_name@,
            r.0.skip_publish == skip_publish,
            r.0.phase == Phase::AwaitingCrateInfo,
            r.1 is FetchCrateInfo,
            r.1->FetchCrateInfo_url@ == crate_info_url_seq(crate_name@),
    {
        let url = crate_info_url(crate_name.as_str());
        let p = Pipeline { crate_name, skip_publish, phase: Phase::AwaitingCrateInfo };
        (p, Action::FetchCrateInfo { url })
    }

    /// Handle the outcome of the last outside step and say what to do
    /// next. The configuration never changes; the phase moves as
    /// `next_phase` says, and the returned action is the one
    /// `action_fits` pins down.
    pub fn handle(&mut self, event: Event) -> (a: Action)
        requires
            event_fits(*old(self), event),
        ensures
            final(self).crate_name@ == old(self).crate_name@,
            final(self).skip_publish == old(self).skip_publish,
            final(self).phase == next_phase(*old(self), event),
            action_fits(*old(self), event, a),
    {
        match event {
            Event::CrateInfo { result } => match result {
                Err(FetchError::Request) => {
                    self.phase = Phase::Finished { ok: false };
                    Action::Fail { error: FlowError::CrateInfoRequestFailed }
                },
                Err(FetchError::Decode) => {
                    self.phase = Phase::Finished { ok: false };
                    Action::Fail { error: FlowError::CrateInfoDecodeFailed }
                },
                Ok(old_version) => {
                    if self.skip_publish {
                        let url = version_info_url(self.crate_name.as_str(), &old_version);
                        self.phase = Phase::AwaitingVersionInfo { expected: old_version };
                        Action::FetchVersionInfo { url }
                    } else if old_version.patch == u64::MAX {
                        self.phase = Phase::Finished { ok: false };
                        Action::Fail { error: FlowError::PatchOverflow }
                    } else {
                        let new_version = old_version.increment_patch();
                        self.phase = Phase::AwaitingScaffold { new_version };
                        Action::CreateProject { name: self.crate_name.clone() }
                    }
                },
            },
            Event::ScaffoldDone { success } => {
                let new_version = match self.phase {
                    Phase::AwaitingScaffold { new_version } => new_version,
                    _ => unreached(),
                };
                if success {
                    let manifest = manifest_content(self.crate_name.as_str(), &new_version);
                    let readme = readme_content(self.crate_name.as_str(), &new_version);
                    self.phase = Phase::AwaitingProjectFiles { new_version };
                    Action::WriteProjectFiles { manifest, readme }
                } else {
                    self.phase = Phase::Finished { ok: false };
                    Action::Fail { error: FlowError::ScaffoldFailed }
                }
            },
            Event::ProjectFilesDone { success } => {
                let new_version = match self.phase {
                    Phase::AwaitingProjectFiles { new_version } => new_version,
                    _ => unreached(),
                };
                if success {
                    self.phase = Phase::AwaitingPublish { new_version };
                    Action::RunPublish
                } else {
                    self.phase = Phase::Finished { ok: false };
                    Action::Fail { error: FlowError::ProjectFilesFailed }
                }
            },
            Event::PublishDone { success } => {
                let new_version = match self.phase {
                    Phase::AwaitingPublish { new_version } => new_version,
                    _ => unreached(),
                };
                if success {
                    let url = version_info_url(self.crate_name.as_str(), &new_version);
                    self.phase = Phase::AwaitingVersionInfo { expected: new_version };
                    Action::FetchVersionInfo { url }
                } else {
                    self.phase = Phase::Finished { ok: false };
                    Action::Fail { error: FlowError::PublishFailed }
                }
            },
            Event::VersionInfo { result } => {
                let expected = match self.phase {
                    Phase::AwaitingVersionInfo { expected } => expected,
                    _ => unreached(),
                };
                match result {
                    Err(FetchError::Request) => {
                        self.phase = Phase::Finished { ok: false };
                        Action::Fail { error: FlowError::VersionInfoRequestFailed }
                    },
                    Err(FetchError::Decode) => {
                        self.phase = Phase::Finished { ok: false };
                        Action::Fail { error: FlowError::VersionInfoDecodeFailed }
                    },
                    Ok(r) => {
                        let (found_name, found_num) = r;
                        let checked = check_version_response(
                            self.crate_name.as_str(),
                            &expected,
                            found_name.as_str(),
                            &found_num,
                        );
                        match checked {
                            Ok(()) => {
                                self.phase = Phase::Finished { ok: true };
                                Action::Succeed
                            },
                            Err(error) => {
                                self.phase = Phase::Finished { ok: false };
                                Action::Fail { error: FlowError::Check { error } }
                            },
                        }
                    },
                }
            },
        }
    }
}

/// Law: when publishing is skipped, the version the post-publish check
/// expects, and the one its query URL renders, is exactly the one the
/// pre-publish query returned.
pub proof fn lemma_skip_publish_checks_old_version(p: Pipeline, old_version: Version, a: Action)
    requires
        p.phase == Phase::AwaitingCrateInfo,
        p.skip_publish,
        action_fits(p, (Event::CrateInfo { result: Ok(old_version) }), a),
    ensures
        next_phase(p, (Event::CrateInfo { result: Ok(old_version) }))
            == (Phase::AwaitingVersionInfo { expected: old_version }),
        a is FetchVersionInfo,
        a->FetchVersionInfo_url@ == version_info_url_seq(p.crate_name@, old_version),
{
}

/// Law: when publishing is not skipped, the pipeline scaffolds, writes
/// and checks exactly the old version with its patch component bumped;
/// major and minor are unchanged and the new version is strictly greater.
pub proof fn lemma_publish_targets_bumped_version(p: Pipeline, old_version: Version)
    requires
        p.phase == Phase::AwaitingCrateInfo,
        !p.skip_publish,
        old_version.patch < u64::MAX,
    ensures
        next_phase(p, Event::CrateInfo { result: Ok(old_version) })
            == (Phase::AwaitingScaffold { new_version: bumped(old_version) }),
        bumped(old_version).major == old_version.major,
        bumped(old_version).minor == old_version.minor,
        bumped(old_version).patch == old_version.patch + 1,
        crate::version::version_lt(old_version, bumped(old_version)),
{
}

/// Law: the generated manifest and readme embed exactly the bumped
/// version: scaffolding succeeds for the bumped version, and the files
/// the pipeline then hands out are the templates for it.
pub proof fn lemma_manifest_embeds_bumped_version(p: Pipeline, old_version: Version, a: Action)
    requires
        p.phase == Phase::AwaitingCrateInfo,
        !p.skip_publish,
        old_version.patch < u64::MAX,
        action_fits(
            (Pipeline {
                crate_name: p.crate_name,
                skip_publish: p.skip_publish,
                phase: next_phase(p, (Event::CrateInfo { result: Ok(old_version) })),
            }),
            (Event::ScaffoldDone { success: true }),
            a,
        ),
    ensures
        a is WriteProjectFiles,
        a->WriteProjectFiles_manifest@ == manifest_seq(p.crate_name@, bumped(old_version)),
        a->WriteProjectFiles_readme@ == readme_seq(p.crate_name@, bumped(old_version)),
{
}

/// Law: the new version is carried unchanged from the scaffolding step
/// through the file writes and the publish step to the post-publish
/// check.
pub proof fn lemma_new_version_is_threaded(p: Pipeline, nv: Version)
    ensures
        p.phase == (Phase::AwaitingScaffold { new_version: nv }) ==> next_phase(
            p,
            (Event::ScaffoldDone { success: true }),
        ) == (Phase::AwaitingProjectFiles { new_version: nv }),
        p.phase == (Phase::AwaitingProjectFiles { new_version: nv }) ==> next_phase(
            p,
            (Event::ProjectFilesDone { success: true }),
        ) == (Phase::AwaitingPublish { new_version: nv }),
        p.phase == (Phase::AwaitingPublish { new_version: nv }) ==> next_phase(
            p,
            (Event::PublishDone { success: true }),
        ) == (Phase::AwaitingVersionInfo { expected: nv }),
{
}

/// Law: a failed publish command finishes the run as failed, with the
/// publish error; in particular the action is not the post-publish
/// query.
pub proof fn lemma_publish_failure_stops_run(p: Pipeline, a: Action)
    requires
        p.phase is AwaitingPublish,
        action_fits(p, (Event::PublishDone { success: false }), a),
    ensures
        next_phase(p, (Event::PublishDone { success: false })) == (Phase::Finished { ok: false }),
        a == (Action::Fail { error: FlowError::PublishFailed }),
        !(a is FetchVersionInfo),
{
}

/// Law: the pipeline asks for the post-publish query only straight after
/// a successful publish, or straight after the pre-publish query when
/// publishing is skipped; and a finished pipeline accepts no further
/// event. So once any step fails, the post-publish query is never
/// issued.
pub proof fn lemma_version_check_only_after_publish_or_skip(p: Pipeline, e: Event, a: Action)
    requires
        event_fits(p, e),
        action_fits(p, e, a),
        a is FetchVersionInfo,
    ensures
        (p.phase is AwaitingPublish && e == (Event::PublishDone { success: true })) || (p.phase
            is AwaitingCrateInfo && p.skip_publish && e matches Event::CrateInfo {
            result: Ok(_),
        }),
{
    match e {
        Event::CrateInfo { result } => {
            match result {
                Err(_) => {
                    assert(false);
                },
                Ok(old_version) => {
                    if !p.skip_publish {
                        assert(false);
                    }
                },
            }
        },
        Event::ScaffoldDone { success } => {
            assert(false);
        },
        Event::ProjectFilesDone { success } => {
            assert(false);
        },
        Event::PublishDone { success } => {
            assert(success);
        },
        Event::VersionInfo { result } => {
            match result {
                Err(_) => {
                    assert(false);
                },
                Ok(r) => {
                    assert(false);
                },
            }
        },
    }
}

/// Law: no event fits a finished pipeline: the run takes no further step
/// after it has succeeded or failed.
pub proof fn lemma_finished_is_terminal(p: Pipeline, e: Event)
    requires
        p.phase is Finished,
    ensures
        !event_fits(p, e),
{
}

} // verus!
