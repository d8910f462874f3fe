//! The narrow bridge to the outside crates the inventory leans on: semantic
//! versioning, regular-expression matching, and the home directory. Each
//! function here makes exactly that outside call and nothing else; what the
//! call returns is named by an uninterpreted function of the argument text,
//! since the outside computation is deterministic in its input.

use vstd::prelude::*;

verus! {

/// What parsing a version string yields: `None` when the text is not a valid
/// semantic version, `Some(plain)` when it is, where `plain` says that the
/// version carries no pre-release component.
pub uninterp spec fn version_parse_state(s: Seq<char>) -> Option<bool>;

/// Whether the text is a valid semantic-version requirement.
pub uninterp spec fn requirement_ok(r: Seq<char>) -> bool;

/// Whether the version satisfies the requirement, for texts that parse.
pub uninterp spec fn requirement_match(r: Seq<char>, v: Seq<char>) -> bool;

/// Whether every pattern is a valid regular expression.
pub uninterp spec fn patterns_ok(patterns: Seq<Seq<char>>) -> bool;

/// Whether any of the patterns matches the text, for patterns that compile.
pub uninterp spec fn patterns_match(patterns: Seq<Seq<char>>, text: Seq<char>) -> bool;

/// Relies on `semver::Version::parse` and `semver::Prerelease::is_empty`:
/// whether the text parses as a semantic version, and whether the parsed
/// version's pre-release component is empty. Both are deterministic in the
/// text alone.
#[verifier::external_body]
pub(crate) fn version_state(s: &str) -> (r: Option<bool>)
    ensures
        r == version_parse_state(s@),
{
    match semver::Version::parse(s) {
        Ok(v) => Some(v.pre.is_empty()),
        Err(_) => None,
    }
}

/// Relies on `semver::VersionReq::parse`: whether the text parses as a
/// version requirement, deterministic in the text alone.
#[verifier::external_body]
pub(crate) fn requirement_valid(r: &str) -> (ok: bool)
    ensures
        ok == requirement_ok(r@),
{
    semver::VersionReq::parse(r).is_ok()
}

/// Relies on `semver::VersionReq::parse`, `semver::Version::parse` and
/// `semver::VersionReq::matches`: `None` exactly when either text does not
/// parse, and otherwise whether the version satisfies the requirement. All
/// three are deterministic in the two texts alone.
#[verifier::external_body]
pub(crate) fn requirement_matches(r: &str, v: &str) -> (m: Option<bool>)
    ensures
        m == (if requirement_ok(r@) && version_parse_state(v@) is Some {
            Some(requirement_match(r@, v@))
        } else {
            None::<bool>
        }),
{
    match semver::VersionReq::parse(r) {
        Ok(req) => match semver::Version::parse(v) {
            Ok(ver) => Some(req.matches(&ver)),
            Err(_) => None,
        },
        Err(_) => None,
    }
}

/// Relies on `regex::RegexSet::new` and `regex::RegexSet::is_match`: `None`
/// exactly when some pattern does not compile, and otherwise whether any
/// pattern matches the text. Both are deterministic in the pattern texts and
/// the text alone.
#[verifier::external_body]
pub(crate) fn patterns_match_text(patterns: &Vec<String>, text: &str) -> (m: Option<bool>)
    ensures
        m == (if patterns_ok(patterns.deep_view()) {
            Some(patterns_match(patterns.deep_view(), text@))
        } else {
            None::<bool>
        }),
{
    match regex::RegexSet::new(patterns) {
        Ok(set) => Some(set.is_match(text)),
        Err(_) => None,
    }
}

/// Relies on `dirs::home_dir`: the home directory as text, where the
/// platform names one that is valid Unicode. The result depends on the
/// environment, so nothing further is promised of it.
#[verifier::external_body]
pub(crate) fn home_dir_text() -> (r: Option<String>)
{
    dirs::home_dir().map(|p| p.to_string_lossy().into_owned())
}

} // verus!
