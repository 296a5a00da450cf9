//! `{workenv}`, `{package_name}` and `{version}` substitution in commands,
//! paths and environment values.
use crate::metadata::PackageInfo;
use crate::text::{replace_all, replace_str};
use vstd::prelude::*;

verus! {

/// `text` with the three placeholders replaced, in this order.
pub open spec fn substituted(text: Seq<char>, workenv: Seq<char>, name: Seq<char>, version: Seq<char>) -> Seq<char> {
    replace_all(
        replace_all(replace_all(text, "{workenv}"@, workenv), "{package_name}"@, name),
        "{version}"@,
        version,
    )
}

/// Replace `{workenv}`, then `{package_name}`, then `{version}`.
pub fn substitute_placeholders(text: &str, workenv_dir: &str, package: &PackageInfo) -> (r: String)
    ensures
        r@ == substituted(text@, workenv_dir@, package.name@, package.version@),
{
    proof {
        reveal_strlit("{workenv}");
        reveal_strlit("{package_name}");
        reveal_strlit("{version}");
    }
    let a = replace_str(text, "{workenv}", workenv_dir);
    let b = replace_str(a.as_str(), "{package_name}", package.name.as_str());
    replace_str(b.as_str(), "{version}", package.version.as_str())
}

} // verus!
