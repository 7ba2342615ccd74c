//! Semantic versions as plain `major.minor.patch` triples.
//!
//! A version's canonical text is the dotted decimal rendering of its
//! three components. Rendering and parsing are proved exact: parsing a
//! string succeeds precisely when it is the canonical text of some
//! version, and then returns that version.

use crate::decimal::dec_seq;
use crate::decimal::is_digit;
use crate::decimal::lemma_component_unique;
use crate::decimal::lemma_dec_seq_props;
use crate::decimal::parse_decimal;
use crate::decimal::u64_to_string;
use vstd::prelude::*;
use vstd::string::StrSliceExecFns;
use vstd::string::StringExecFns;

verus! {

/// A semantic version: a `major.minor.patch` triple.
#[derive(Clone, Copy, Debug, PartialEq, Eq, Structural)]
pub struct Version {
    pub major: u64,
    pub minor: u64,
    pub patch: u64,
}

/// Strict ordering of versions: lexicographic on (major, minor, patch).
pub open spec fn version_lt(a: Version, b: Version) -> bool {
    ||| a.major < b.major
    ||| (a.major == b.major && a.minor < b.minor)
    ||| (a.major == b.major && a.minor == b.minor && a.patch < b.patch)
}

/// The canonical text of a version: the three components in canonical
/// decimal, separated by dots.
pub open spec fn version_seq(v: Version) -> Seq<char> {
    dec_seq(v.major as int) + seq!['.'] + dec_seq(v.minor as int) + seq!['.'] + dec_seq(
        v.patch as int,
    )
}

impl Version {
    /// Bump the patch component by one; major and minor are unchanged.
    pub fn increment_patch(self) -> (r: Version)
        requires
            self.patch < u64::MAX,
        ensures
            r.major == self.major,
            r.minor == self.minor,
            r.patch == self.patch + 1,
            version_lt(self, r),
    {
        Version { major: self.major, minor: self.minor, patch: self.patch + 1 }
    }

    /// Render the version as its canonical dotted decimal text.
    pub fn to_text(&self) -> (s: String)
        ensures
            s@ == version_seq(*self),
    {
        let mut s = u64_to_string(self.major);
        s.append(".");
        let minor = u64_to_string(self.minor);
        s.append(minor.as_str());
        s.append(".");
        let patch = u64_to_string(self.patch);
        s.append(patch.as_str());
        proof {
            reveal_strlit(".");
            assert("."@ =~= seq!['.']);
            assert(s@ =~= version_seq(*self));
        }
        s
    }

    /// Parse the canonical dotted decimal text of a version. Succeeds
    /// exactly when `s` is the canonical text of some version, and then
    /// returns that version.
    pub fn parse(s: &str) -> (r: Option<Version>)
        ensures
            match r {
                Some(v) => s@ == version_seq(v),
                None => forall|v: Version| s@ != version_seq(v),
            },
    {
        let len: usize = s.unicode_len();
        let major_part = parse_decimal(s, 0);
        let (major, e1) = match major_part {
            Some(p) => p,
            None => {
                proof {
                    assert forall|v: Version| s@ != version_seq(v) by {
                        if s@ == version_seq(v) {
                            lemma_version_decomposition(s@, v);
                            assert(false);
                        }
                    }
                }
                return None;
            },
        };
        if e1 >= len || s.get_char(e1) != '.' {
            proof {
                assert forall|v: Version| s@ != version_seq(v) by {
                    if s@ == version_seq(v) {
                        lemma_version_decomposition(s@, v);
                        let l1 = dec_seq(v.major as int).len() as int;
                        lemma_component_unique(
                            s@,
                            0,
                            major as int,
                            e1 as int,
                            v.major as int,
                            l1,
                        );
                        assert(false);
                    }
                }
            }
            return None;
        }
        let minor_part = parse_decimal(s, e1 + 1);
        let (minor, e2) = match minor_part {
            Some(p) => p,
            None => {
                proof {
                    assert forall|v: Version| s@ != version_seq(v) by {
                        if s@ == version_seq(v) {
                            lemma_version_decomposition(s@, v);
                            let l1 = dec_seq(v.major as int).len() as int;
                            lemma_component_unique(
                                s@,
                                0,
                                major as int,
                                e1 as int,
                                v.major as int,
                                l1,
                            );
                            let l2 = l1 + 1 + dec_seq(v.minor as int).len() as int;
                            assert(false);
                        }
                    }
                }
                return None;
            },
        };
        if e2 >= len || s.get_char(e2) != '.' {
            proof {
                assert forall|v: Version| s@ != version_seq(v) by {
                    if s@ == version_seq(v) {
                        lemma_version_decomposition(s@, v);
                        let l1 = dec_seq(v.major as int).len() as int;
                        lemma_component_unique(s@, 0, major as int, e1 as int, v.major as int, l1);
                        let l2 = l1 + 1 + dec_seq(v.minor as int).len() as int;
                        lemma_component_unique(
                            s@,
                            e1 as int + 1,
                            minor as int,
                            e2 as int,
                            v.minor as int,
                            l2,
                        );
                        assert(false);
                    }
                }
            }
            return None;
        }
        let patch_part = parse_decimal(s, e2 + 1);
        let (patch, e3) = match patch_part {
            Some(p) => p,
            None => {
                proof {
                    assert forall|v: Version| s@ != version_seq(v) by {
                        if s@ == version_seq(v) {
                            lemma_version_decomposition(s@, v);
                            let l1 = dec_seq(v.major as int).len() as int;
                            lemma_component_unique(
                                s@,
                                0,
                                major as int,
                                e1 as int,
                                v.major as int,
                                l1,
                            );
                            let l2 = l1 + 1 + dec_seq(v.minor as int).len() as int;
                            lemma_component_unique(
                                s@,
                                e1 as int + 1,
                                minor as int,
                                e2 as int,
                                v.minor as int,
                                l2,
                            );
                            assert(false);
                        }
                    }
                }
                return None;
            },
        };
        if e3 != len {
            proof {
                assert forall|v: Version| s@ != version_seq(v) by {
                    if s@ == version_seq(v) {
                        lemma_version_decomposition(s@, v);
                        let l1 = dec_seq(v.major as int).len() as int;
                        lemma_component_unique(s@, 0, major as int, e1 as int, v.major as int, l1);
                        let l2 = l1 + 1 + dec_seq(v.minor as int).len() as int;
                        lemma_component_unique(
                            s@,
                            e1 as int + 1,
                            minor as int,
                            e2 as int,
                            v.minor as int,
                            l2,
                        );
                        lemma_component_unique(
                            s@,
                            e2 as int + 1,
                            patch as int,
                            e3 as int,
                            v.patch as int,
                            s@.len() as int,
                        );
                        assert(false);
                    }
                }
            }
            return None;
        }
        let v = Version { major, minor, patch };
        proof {
            assert(s@ =~= s@.subrange(0, e1 as int) + seq![s@[e1 as int]] + s@.subrange(
                e1 as int + 1,
                e2 as int,
            ) + seq![s@[e2 as int]] + s@.subrange(e2 as int + 1, len as int));
            assert(s@ == version_seq(v));
        }
        Some(v)
    }
}

/// In the canonical text of a version, each component occupies a maximal
/// digit run: the text decomposes at the two dots, and each run ends at
/// a non-digit or at the end.
pub proof fn lemma_version_decomposition(s: Seq<char>, v: Version)
    requires
        s == version_seq(v),
    ensures
        ({
            let l1 = dec_seq(v.major as int).len() as int;
            let l2 = l1 + 1 + dec_seq(v.minor as int).len() as int;
            &&& 0 < l1 < l2 < s.len()
            &&& s.subrange(0, l1) == dec_seq(v.major as int)
            &&& s[l1] == '.'
            &&& s.subrange(l1 + 1, l2) == dec_seq(v.minor as int)
            &&& s[l2] == '.'
            &&& s.subrange(l2 + 1, s.len() as int) == dec_seq(v.patch as int)
            &&& !is_digit(s[l1])
            &&& !is_digit(s[l2])
        }),
{
    lemma_dec_seq_props(v.major as int);
    lemma_dec_seq_props(v.minor as int);
    lemma_dec_seq_props(v.patch as int);
    let a = dec_seq(v.major as int);
    let b = dec_seq(v.minor as int);
    let c = dec_seq(v.patch as int);
    let l1 = a.len() as int;
    let l2 = l1 + 1 + b.len() as int;
    assert(s.len() == a.len() + 1 + b.len() + 1 + c.len());
    assert(s.subrange(0, l1) =~= a);
    assert(s[l1] == '.');
    assert(s.subrange(l1 + 1, l2) =~= b);
    assert(s[l2] == '.');
    assert(s.subrange(l2 + 1, s.len() as int) =~= c);
    assert(!is_digit('.'));
}

/// Law: bumping the patch component yields a version strictly greater
/// than the original, with major and minor unchanged.
pub proof fn lemma_patch_increment_strictly_greater(v: Version)
    requires
        v.patch < u64::MAX,
    ensures
        ({
            let r = Version { major: v.major, minor: v.minor, patch: (v.patch + 1) as u64 };
            &&& version_lt(v, r)
            &&& r.major == v.major
            &&& r.minor == v.minor
        }),
{
}

/// Law: the version ordering is a strict total order: irreflexive,
/// asymmetric, transitive, and total on distinct versions.
pub proof fn lemma_version_lt_strict_total_order(a: Version, b: Version, c: Version)
    ensures
        !version_lt(a, a),
        !(version_lt(a, b) && version_lt(b, a)),
        version_lt(a, b) && version_lt(b, c) ==> version_lt(a, c),
        a != b ==> version_lt(a, b) || version_lt(b, a),
{
}

/// Law: a version's canonical text determines the version.
pub proof fn lemma_version_seq_injective(v1: Version, v2: Version)
    requires
        version_seq(v1) == version_seq(v2),
    ensures
        v1 == v2,
{
    let s = version_seq(v1);
    lemma_version_decomposition(s, v1);
    lemma_version_decomposition(s, v2);
    let l1a = dec_seq(v1.major as int).len() as int;
    let l1b = dec_seq(v2.major as int).len() as int;
    lemma_component_unique(s, 0, v1.major as int, l1a, v2.major as int, l1b);
    let l2a = l1a + 1 + dec_seq(v1.minor as int).len() as int;
    let l2b = l1b + 1 + dec_seq(v2.minor as int).len() as int;
    lemma_component_unique(s, l1a + 1, v1.minor as int, l2a, v2.minor as int, l2b);
    lemma_component_unique(
        s,
        l2a + 1,
        v1.patch as int,
        s.len() as int,
        v2.patch as int,
        s.len() as int,
    );
}

} // verus!
