//! The library's version string.
use vstd::prelude::*;

verus! {

pub const VERSION: &'static str = "0.3.0";

/// The version, followed by ` (<commit>)` (first eight characters) and
/// ` built <time>` when those are known.
pub fn full_version(git_commit: Option<&str>, build_time: Option<&str>) -> (r: String)
    ensures
        r@ == VERSION@ + match git_commit {
            Some(c) => " ("@ + c@.subrange(0, if c@.len() < 8 { c@.len() as int } else { 8 }) + ")"@,
            None => Seq::empty(),
        } + match build_time {
            Some(t) => " built "@ + t@,
            None => Seq::empty(),
        },
{
    let mut version = String::from_str(VERSION);
    let ghost v0 = version@;
    match git_commit {
        Some(commit) => {
            let n = commit.unicode_len();
            let end = if n < 8 { n } else { 8 };
            version.append(" (");
            let cut = vstd::string::StrSliceExecFns::substring_char(commit, 0, end);
            version.append(cut);
            version.append(")");
        },
        None => {},
    }
    let ghost v1 = version@;
    match build_time {
        Some(time) => {
            version.append(" built ");
            version.append(time);
        },
        None => {},
    }
    proof {
        assert(v1 == v0 + match git_commit {
            Some(c) => " ("@ + c@.subrange(0, if c@.len() < 8 { c@.len() as int } else { 8 }) + ")"@,
            None => Seq::empty(),
        }) by {
            assert(git_commit is None ==> v1 =~= v0 + Seq::<char>::empty());
        }
        assert(build_time is None ==> version@ =~= v1 + Seq::<char>::empty());
    }
    version
}

} // verus!
