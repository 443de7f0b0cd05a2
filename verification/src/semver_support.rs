//! The calls into the `semver` crate that the launcher's version logic makes.
use vstd::prelude::*;

verus! {

/// What `semver::Version::parse` makes of `text`: `None` when it refuses the
/// text, else the pre-release part of the parsed version.
pub uninterp spec fn semver_prerelease(text: Seq<char>) -> Option<Seq<char>>;

/// The order `semver::Version` puts the versions parsed from `a` and `b` in:
/// negative when `a` comes first, zero when they are equal, positive when
/// `a` comes last.
pub uninterp spec fn semver_order(a: Seq<char>, b: Seq<char>) -> int;

/// `text` is a semantic version as `semver::Version::parse` accepts it.
pub open spec fn is_semver(text: Seq<char>) -> bool {
    semver_prerelease(text) is Some
}

/// Calls `semver::Version::parse`. Claims that the call is a function of the
/// text (named `semver_prerelease`) and that, when it succeeds, the returned
/// string is the parsed version's pre-release part.
#[verifier::external_body]
pub(crate) fn parse_version(text: &str) -> (pre: Option<String>)
    ensures
        pre.is_some() == semver_prerelease(text@).is_some(),
        pre.is_some() ==> pre.unwrap()@ == semver_prerelease(text@).unwrap(),
{
    match semver::Version::parse(text) {
        Ok(version) => Some(version.pre.as_str().to_string()),
        Err(_) => None,
    }
}

/// Parses both texts with `semver::Version::parse` and compares the versions
/// with their `Ord` impl (derived on major, minor, patch, pre-release and
/// build metadata). Claims that the result is -1, 0 or 1 as the order is
/// less, equal or greater, that it is a function of the two texts (named
/// `semver_order`), that swapping the texts negates it, and that it is
/// transitive: when `a` is at least `b`, it is at least every version that
/// `b` is at least. `Ord` requires a total order, and semver's is one.
#[verifier::external_body]
pub(crate) fn compare_versions(a: &str, b: &str) -> (r: i8)
    requires
        is_semver(a@),
        is_semver(b@),
    ensures
        r == semver_order(a@, b@),
        r == -semver_order(b@, a@),
        -1 <= r <= 1,
        r >= 0 ==> forall|c: Seq<char>|
            is_semver(c) && #[trigger] semver_order(b@, c) >= 0 ==> semver_order(a@, c) >= 0,
{
    let left = semver::Version::parse(a).unwrap();
    let right = semver::Version::parse(b).unwrap();
    match left.cmp(&right) {
        std::cmp::Ordering::Less => -1,
        std::cmp::Ordering::Equal => 0,
        std::cmp::Ordering::Greater => 1,
    }
}

} // verus!
