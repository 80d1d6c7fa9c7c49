//! Release version comparison.

use vstd::prelude::*;

verus! {

/// The release information the update check fetches.
#[derive(Debug)]
pub struct VersionInfo {
    pub tag_name: String,
}

/// The verdict of a version comparison.
#[derive(Clone, Copy, Debug, PartialEq, Eq, Structural)]
pub enum VersionComparison {
    HasNewer,
    IsSame,
}

/// Whether semantic version `a` is strictly newer than `b`; `None`
/// exactly when either does not parse.
pub uninterp spec fn spec_version_newer(a: Seq<char>, b: Seq<char>) -> Option<bool>;

/// Relies on semver's `Version::parse` and its `Ord` instance:
/// whether one version string names a strictly newer version than
/// another, a function of the two strings alone.
#[verifier::external_body]
fn version_newer(a: &str, b: &str) -> (r: Option<bool>)
    ensures
        match r {
            Some(n) => spec_version_newer(a@, b@) == Some(n),
            None => spec_version_newer(a@, b@) is None,
        },
{
    match (semver::Version::parse(a), semver::Version::parse(b)) {
        (Ok(x), Ok(y)) => Some(x > y),
        _ => None,
    }
}

/// Compares a fetched release against the running version `to`:
/// `HasNewer` exactly when the release's tag is strictly newer, and
/// `None` when either version string does not parse.
pub fn compare_version(info: &VersionInfo, to: &str) -> (r: Option<VersionComparison>)
    ensures
        match spec_version_newer(info.tag_name@, to@) {
            Some(true) => r == Some(VersionComparison::HasNewer),
            Some(false) => r == Some(VersionComparison::IsSame),
            None => r is None,
        },
{
    match version_newer(info.tag_name.as_str(), to) {
        Some(true) => Some(VersionComparison::HasNewer),
        Some(false) => Some(VersionComparison::IsSame),
        None => None,
    }
}

} // verus!
