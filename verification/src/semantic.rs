//! The semantic-version model.
//!
//! Parsing and identifier validation are delegated to the `semver` crate;
//! everything that reads or rewrites the parts of a parsed version is
//! verified here.

use vstd::prelude::*;
use vstd::string::StringExecFns;
use crate::strutil::{dec_str, append_dec};

verus! {

/// The parts of a semantic version.
#[derive(Debug)]
pub struct SemVer {
    pub major: u64,
    pub minor: u64,
    pub patch: u64,
    /// Pre-release identifiers; the empty string when absent.
    pub pre: String,
    /// Build metadata; the empty string when absent.
    pub build: String,
}

/// The mathematical value of a [`SemVer`].
pub struct SemVerView {
    pub major: u64,
    pub minor: u64,
    pub patch: u64,
    pub pre: Seq<char>,
    pub build: Seq<char>,
}

impl View for SemVer {
    type V = SemVerView;

    open spec fn view(&self) -> SemVerView {
        SemVerView {
            major: self.major,
            minor: self.minor,
            patch: self.patch,
            pre: self.pre@,
            build: self.build@,
        }
    }
}

/// What `semver::Version::parse` yields on a string: the parts when the
/// string fits the semantic-version grammar, nothing otherwise.
pub uninterp spec fn semver_parsed(s: Seq<char>) -> Option<SemVerView>;

/// Whether `semver::Prerelease::new` accepts a string.
pub uninterp spec fn prerelease_valid(s: Seq<char>) -> bool;

/// Whether `semver::BuildMetadata::new` accepts a string.
pub uninterp spec fn buildmeta_valid(s: Seq<char>) -> bool;

/// Relies on `semver::Version::parse`: it accepts exactly the strings of
/// the form `major.minor.patch` with optional `-pre` and `+build`
/// identifier suffixes, and hands back the parsed fields.
#[verifier::external_body]
pub(crate) fn parse_semver(s: &str) -> (r: Option<SemVer>)
    ensures
        r is Some <==> semver_parsed(s@) is Some,
        r matches Some(v) ==> Some(v@) == semver_parsed(s@),
{
    match semver::Version::parse(s) {
        Ok(v) => Some(
            SemVer {
                major: v.major,
                minor: v.minor,
                patch: v.patch,
                pre: v.pre.as_str().to_string(),
                build: v.build.as_str().to_string(),
            },
        ),
        Err(_) => None,
    }
}

/// Relies on `semver::Prerelease::new`: it accepts exactly the valid
/// dot-separated pre-release identifier strings.
#[verifier::external_body]
pub(crate) fn prerelease_ok(s: &str) -> (r: bool)
    ensures
        r == prerelease_valid(s@),
{
    semver::Prerelease::new(s).is_ok()
}

/// Relies on `semver::BuildMetadata::new`: it accepts exactly the valid
/// dot-separated build-metadata identifier strings.
#[verifier::external_body]
pub(crate) fn buildmeta_ok(s: &str) -> (r: bool)
    ensures
        r == buildmeta_valid(s@),
{
    semver::BuildMetadata::new(s).is_ok()
}

/// The rendering of a semantic version: `major.minor.patch`, then `-pre`
/// when a pre-release is present, then `+build` when metadata is present.
pub open spec fn semver_str(v: SemVerView) -> Seq<char> {
    let base = dec_str(v.major as nat) + seq!['.'] + dec_str(v.minor as nat) + seq!['.']
        + dec_str(v.patch as nat);
    let with_pre = if v.pre.len() > 0 {
        base + seq!['-'] + v.pre
    } else {
        base
    };
    if v.build.len() > 0 {
        with_pre + seq!['+'] + v.build
    } else {
        with_pre
    }
}

/// Renders a semantic version as a string.
pub fn semver_to_string(v: &SemVer) -> (r: String)
    ensures
        r@ == semver_str(v@),
{
    proof {
        reveal_strlit(".");
        reveal_strlit("-");
        reveal_strlit("+");
        assert("."@ =~= seq!['.']);
        assert("-"@ =~= seq!['-']);
        assert("+"@ =~= seq!['+']);
    }
    let mut s = String::new();
    append_dec(&mut s, v.major);
    s.append(".");
    append_dec(&mut s, v.minor);
    s.append(".");
    append_dec(&mut s, v.patch);
    if !v.pre.as_str().is_empty() {
        s.append("-");
        s.append(v.pre.as_str());
    }
    if !v.build.as_str().is_empty() {
        s.append("+");
        s.append(v.build.as_str());
    }
    proof {
        assert(s@ =~= semver_str(v@));
    }
    s
}

} // verus!
