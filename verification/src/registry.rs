//! The read side of the registry API and the post-publish check.
//!
//! The two query URLs are built here, and the registry's answer to the
//! version query is held against the expected package name and version.
//! A mismatch yields an error that carries, and prints, both values.

use crate::version::Version;
use crate::version::version_seq;
use vstd::prelude::*;
use vstd::string::StrSliceExecFns;
use vstd::string::StringExecFns;

verus! {

/// Compare two strings character for character.
pub fn str_eq(a: &str, b: &str) -> (r: bool)
    ensures
        r == (a@ == b@),
{
    let la: usize = a.unicode_len();
    let lb: usize = b.unicode_len();
    if la != lb {
        return false;
    }
    let mut i: usize = 0;
    while i < la
        invariant
            i <= la,
            la == a@.len(),
            lb == b@.len(),
            la == lb,
            forall|j: int| 0 <= j < i ==> a@[j] == b@[j],
        decreases la - i,
    {
        let ca = a.get_char(i);
        let cb = b.get_char(i);
        if ca != cb {
            return false;
        }
        i = i + 1;
    }
    proof {
        assert(a@ =~= b@);
    }
    true
}

/// The URL that returns the summary of a package, carrying its highest
/// published version.
pub open spec fn crate_info_url_seq(name: Seq<char>) -> Seq<char> {
    "https://staging.crates.io/api/v1/crates/"@ + name + "?include=versions"@
}

pub fn crate_info_url(name: &str) -> (r: String)
    ensures
        r@ == crate_info_url_seq(name@),
{
    let mut s = "https://staging.crates.io/api/v1/crates/".to_owned();
    s.append(name);
    s.append("?include=versions");
    proof {
        assert(s@ =~= crate_info_url_seq(name@));
    }
    s
}

/// The URL that returns the detail record of one published version.
pub open spec fn version_info_url_seq(name: Seq<char>, v: Version) -> Seq<char> {
    "https://staging.crates.io/api/v1/crates/"@ + name + "/"@ + version_seq(v)
}

pub fn version_info_url(name: &str, v: &Version) -> (r: String)
    ensures
        r@ == version_info_url_seq(name@, *v),
{
    let mut s = "https://staging.crates.io/api/v1/crates/".to_owned();
    s.append(name);
    s.append("/");
    let vs = v.to_text();
    s.append(vs.as_str());
    proof {
        assert(s@ =~= version_info_url_seq(name@, *v));
    }
    s
}

/// Why the registry's answer to the version query was rejected.
pub enum CheckError {
    /// The answer names another package than the one queried.
    NameMismatch { expected: String, found: String },
    /// The answer carries another version number than the expected one.
    VersionMismatch { expected: Version, found: Version },
}

impl CheckError {
    /// The message of the error, naming both the expected and the found
    /// value.
    pub open spec fn message_seq(self) -> Seq<char> {
        match self {
            CheckError::NameMismatch { expected, found } => {
                "API returned an unexpected crate name; expected `"@ + expected@ + "` found `"@
                    + found@ + "`"@
            },
            CheckError::VersionMismatch { expected, found } => {
                "API returned an unexpected version number; expected `"@ + version_seq(expected)
                    + "` found `"@ + version_seq(found) + "`"@
            },
        }
    }

    pub fn message(&self) -> (m: String)
        ensures
            m@ == self.message_seq(),
    {
        match self {
            CheckError::NameMismatch { expected, found } => {
                let mut s = "API returned an unexpected crate name; expected `".to_owned();
                s.append(expected.as_str());
                s.append("` found `");
                s.append(found.as_str());
                s.append("`");
                proof {
                    assert(s@ =~= self.message_seq());
                }
                s
            },
            CheckError::VersionMismatch { expected, found } => {
                let mut s = "API returned an unexpected version number; expected `".to_owned();
                let ev = expected.to_text();
                s.append(ev.as_str());
                s.append("` found `");
                let fv = found.to_text();
                s.append(fv.as_str());
                s.append("`");
                proof {
                    assert(s@ =~= self.message_seq());
                }
                s
            },
        }
    }
}

/// Hold the registry's answer to the version query against the expected
/// package name and version: accepted exactly when both match, and a
/// mismatch reports the expected and the found value.
pub fn check_version_response(
    expected_name: &str,
    expected_num: &Version,
    found_name: &str,
    found_num: &Version,
) -> (r: Result<(), CheckError>)
    ensures
        r is Ok <==> (expected_name@ == found_name@ && expected_num == found_num),
        expected_name@ != found_name@ ==> (r matches Err(
            CheckError::NameMismatch { expected, found },
        ) && expected@ == expected_name@ && found@ == found_name@),
        (expected_name@ == found_name@ && expected_num != found_num) ==> r == Err::<
            (),
            CheckError,
        >(CheckError::VersionMismatch { expected: *expected_num, found: *found_num }),
{
    if !str_eq(found_name, expected_name) {
        return Err(
            CheckError::NameMismatch {
                expected: expected_name.to_owned(),
                found: found_name.to_owned(),
            },
        );
    }
    if found_num.major != expected_num.major || found_num.minor != expected_num.minor
        || found_num.patch != expected_num.patch {
        return Err(CheckError::VersionMismatch { expected: *expected_num, found: *found_num });
    }
    Ok(())
}

} // verus!
