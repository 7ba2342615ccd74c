//! The two files written into the scaffolded throwaway project.
//!
//! The generated manifest and readme are built here, exactly as the
//! publish step writes them: fixed templates with the package name and
//! the new version number spliced in.

use crate::version::Version;
use crate::version::version_seq;
use vstd::prelude::*;
use vstd::string::StringExecFns;

verus! {

/// The manifest written over the scaffolded project's own: the package
/// name and the new version, with a fixed edition, license and
/// description.
pub open spec fn manifest_seq(name: Seq<char>, v: Version) -> Seq<char> {
    "[package]\nname = \""@ + name + "\"\nversion = \""@ + version_seq(v)
        + "\"\nedition = \"2018\"\nlicense = \"MIT\"\ndescription = \"test crate\"\n"@
}

pub fn manifest_content(name: &str, v: &Version) -> (r: String)
    ensures
        r@ == manifest_seq(name@, *v),
{
    let mut s = "[package]\nname = \"".to_owned();
    s.append(name);
    s.append("\"\nversion = \"");
    let vs = v.to_text();
    s.append(vs.as_str());
    s.append("\"\nedition = \"2018\"\nlicense = \"MIT\"\ndescription = \"test crate\"\n");
    proof {
        assert(s@ =~= manifest_seq(name@, *v));
    }
    s
}

/// The readme written into the scaffolded project: a heading with the
/// package name and the new version, and a fixed decorative image link.
pub open spec fn readme_seq(name: Seq<char>, v: Version) -> Seq<char> {
    "# "@ + name + " v"@ + version_seq(v)
        + "\n\n![](https://media1.giphy.com/media/Ju7l5y9osyymQ/200.gif)\n"@
}

pub fn readme_content(name: &str, v: &Version) -> (r: String)
    ensures
        r@ == readme_seq(name@, *v),
{
    let mut s = "# ".to_owned();
    s.append(name);
    s.append(" v");
    let vs = v.to_text();
    s.append(vs.as_str());
    s.append("\n\n![](https://media1.giphy.com/media/Ju7l5y9osyymQ/200.gif)\n");
    proof {
        assert(s@ =~= readme_seq(name@, *v));
    }
    s
}

} // verus!
