//! Versions and version ranges. The grammar of both, and what it means for a
//! range to admit a version, are `semver`'s: this module calls it and names
//! what it answers.

use semver::{Prerelease, Version, VersionReq};
use vstd::prelude::*;

verus! {

/// Whether `semver` accepts a text as a pre-release tag (`Prerelease::new`).
pub uninterp spec fn valid_tag(tag: Seq<char>) -> bool;

/// What `semver` reads from a version text (`Version::parse`): the three
/// numbers and the pre-release tag, which is empty where the text has none.
/// Build metadata is not part of it. `None` where the text is no version.
pub uninterp spec fn parsed_version(text: Seq<char>) -> Option<(u64, u64, u64, Seq<char>)>;

/// Whether `semver` accepts a text as a version requirement
/// (`VersionReq::parse`).
pub uninterp spec fn valid_range(text: Seq<char>) -> bool;

/// Whether the requirement that `semver` reads from `range` admits the version
/// with these numbers and this pre-release tag (`VersionReq::matches`).
pub uninterp spec fn range_admits(
    range: Seq<char>,
    major: u64,
    minor: u64,
    patch: u64,
    tag: Seq<char>,
) -> bool;

/// Calls `semver::Version::parse` and hands out the numbers and the tag of
/// what it read. The tag of a parsed version is one that `Prerelease::new`
/// accepts, or empty.
#[verifier::external_body]
fn parse_version(text: &str) -> (r: Option<(u64, u64, u64, String)>)
    ensures
        parsed_version(text@) == match r {
            Some(v) => Some((v.0, v.1, v.2, v.3@)),
            None => None,
        },
        r matches Some(v) ==> v.3@.len() == 0 || valid_tag(v.3@),
{
    match Version::parse(text) {
        Ok(v) => Some((v.major, v.minor, v.patch, v.pre.as_str().to_string())),
        Err(_) => None,
    }
}

/// Calls `semver::VersionReq::parse` and says whether it succeeded.
#[verifier::external_body]
fn range_is_valid(text: &str) -> (r: bool)
    ensures
        r == valid_range(text@),
{
    VersionReq::parse(text).is_ok()
}

/// Calls `semver::VersionReq::matches` on the requirement read from `range`
/// and the version built from the numbers and the tag. An empty tag gives the
/// empty pre-release.
#[verifier::external_body]
fn range_matches(range: &str, major: u64, minor: u64, patch: u64, tag: &str) -> (r: bool)
    requires
        valid_range(range@),
        tag@.len() == 0 || valid_tag(tag@),
    ensures
        r == range_admits(range@, major, minor, patch, tag@),
{
    let mut version = Version::new(major, minor, patch);
    version.pre = Prerelease::new(tag).unwrap();
    VersionReq::parse(range).unwrap().matches(&version)
}

/// The mathematical value of a [`SemanticVersion`].
pub struct VersionModel {
    pub major: u64,
    pub minor: u64,
    pub patch: u64,
    /// The pre-release tag; empty for a release.
    pub tag: Seq<char>,
}

/// A semantic version: three numbers and an optional pre-release tag.
#[derive(Debug)]
pub struct SemanticVersion {
    major: u64,
    minor: u64,
    patch: u64,
    tag: String,
}

impl View for SemanticVersion {
    type V = VersionModel;

    closed spec fn view(&self) -> VersionModel {
        VersionModel { major: self.major, minor: self.minor, patch: self.patch, tag: self.tag@ }
    }
}

impl Clone for SemanticVersion {
    fn clone(&self) -> (v: SemanticVersion)
        ensures
            v@ == self@,
    {
        proof {
            use_type_invariant(self);
        }
        SemanticVersion {
            major: self.major,
            minor: self.minor,
            patch: self.patch,
            tag: self.tag.clone(),
        }
    }
}

impl SemanticVersion {
    #[verifier::type_invariant]
    spec fn well_formed(self) -> bool {
        self.tag@.len() == 0 || valid_tag(self.tag@)
    }

    /// The release `major.minor.patch`, without a tag.
    pub fn new(major: u64, minor: u64, patch: u64) -> (v: SemanticVersion)
        ensures
            v@ == (VersionModel { major, minor, patch, tag: Seq::<char>::empty() }),
    {
        SemanticVersion { major, minor, patch, tag: String::new() }
    }

    /// Reads a version from its text. `None` where the text is no version.
    pub fn parse(text: &str) -> (r: Option<SemanticVersion>)
        ensures
            match r {
                Some(v) => parsed_version(text@) == Some((v@.major, v@.minor, v@.patch, v@.tag)),
                None => parsed_version(text@) is None,
            },
    {
        match parse_version(text) {
            Some((major, minor, patch, tag)) => Some(SemanticVersion { major, minor, patch, tag }),
            None => None,
        }
    }

    pub fn major(&self) -> (n: u64)
        ensures
            n == self@.major,
    {
        self.major
    }

    pub fn minor(&self) -> (n: u64)
        ensures
            n == self@.minor,
    {
        self.minor
    }

    pub fn patch(&self) -> (n: u64)
        ensures
            n == self@.patch,
    {
        self.patch
    }

    /// The pre-release tag; empty for a release.
    pub fn tag(&self) -> (t: &str)
        ensures
            t@ == self@.tag,
    {
        self.tag.as_str()
    }
}

/// A range's text was not accepted.
#[derive(Clone, Debug)]
pub struct MalformedRange {
    /// The text that was refused.
    pub text: String,
}

/// A version range: comparators over versions, all of which a version has to
/// meet to be admitted. Its value is the text it was read from.
#[derive(Debug)]
pub struct VersionRange {
    text: String,
}

impl View for VersionRange {
    type V = Seq<char>;

    closed spec fn view(&self) -> Seq<char> {
        self.text@
    }
}

impl Clone for VersionRange {
    fn clone(&self) -> (range: VersionRange)
        ensures
            range@ == self@,
    {
        proof {
            use_type_invariant(self);
        }
        VersionRange { text: self.text.clone() }
    }
}

impl VersionRange {
    #[verifier::type_invariant]
    spec fn well_formed(self) -> bool {
        valid_range(self.text@)
    }

    /// Reads a range from its text, and refuses the text where the grammar of
    /// ranges is violated.
    pub fn parse(text: &str) -> (r: Result<VersionRange, MalformedRange>)
        ensures
            match r {
                Ok(range) => valid_range(text@) && range@ == text@,
                Err(e) => !valid_range(text@) && e.text@ == text@,
            },
    {
        if range_is_valid(text) {
            Ok(VersionRange { text: text.to_owned() })
        } else {
            Err(MalformedRange { text: text.to_owned() })
        }
    }

    /// Whether the range admits `version`.
    pub fn matches(&self, version: &SemanticVersion) -> (b: bool)
        ensures
            b == range_admits(
                self@,
                version@.major,
                version@.minor,
                version@.patch,
                version@.tag,
            ),
    {
        proof {
            use_type_invariant(self);
            use_type_invariant(version);
        }
        range_matches(
            self.text.as_str(),
            version.major,
            version.minor,
            version.patch,
            version.tag.as_str(),
        )
    }

    /// The text the range was read from.
    pub fn as_str(&self) -> (t: &str)
        ensures
            t@ == self@,
    {
        self.text.as_str()
    }
}

} // verus!
