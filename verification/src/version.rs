//! Version values under the supported schemes, with parse, bump and
//! rendering operations.

use vstd::prelude::*;
use vstd::string::StringExecFns;
use crate::semantic::{
    SemVer, SemVerView, semver_str, semver_parsed, semver_to_string, parse_semver,
    prerelease_valid, prerelease_ok, buildmeta_valid, buildmeta_ok,
};
use crate::strutil::{
    dec_str, dec_val, all_digits, pad2_str, append_dec, append_pad2, split_str, split_char,
    parse_u32, parse_u64, str_eq,
};
use crate::clock::{now_stamp14, now_datetime19};

verus! {

/// A version value; the variant is fixed by the scheme at construction.
#[derive(Debug)]
pub enum VersionType {
    Semantic(SemVer),
    Calver { year: u32, month: u32, day: u32 },
    Timestamp(String),
    Commit(String),
    Build { major: u32, minor: u32, patch: u32, build: u32 },
    Monotonic(u64),
    Datetime(String),
    Pattern(String),
}

/// The mathematical value of a [`VersionType`].
pub enum VersionTypeView {
    Semantic(SemVerView),
    Calver { year: u32, month: u32, day: u32 },
    Timestamp(Seq<char>),
    Commit(Seq<char>),
    Build { major: u32, minor: u32, patch: u32, build: u32 },
    Monotonic(u64),
    Datetime(Seq<char>),
    Pattern(Seq<char>),
}

impl View for VersionType {
    type V = VersionTypeView;

    open spec fn view(&self) -> VersionTypeView {
        match self {
            VersionType::Semantic(v) => VersionTypeView::Semantic(v@),
            VersionType::Calver { year, month, day } => VersionTypeView::Calver {
                year: *year,
                month: *month,
                day: *day,
            },
            VersionType::Timestamp(s) => VersionTypeView::Timestamp(s@),
            VersionType::Commit(s) => VersionTypeView::Commit(s@),
            VersionType::Build { major, minor, patch, build } => VersionTypeView::Build {
                major: *major,
                minor: *minor,
                patch: *patch,
                build: *build,
            },
            VersionType::Monotonic(n) => VersionTypeView::Monotonic(*n),
            VersionType::Datetime(s) => VersionTypeView::Datetime(s@),
            VersionType::Pattern(s) => VersionTypeView::Pattern(s@),
        }
    }
}

/// A version value together with its declared scheme and release channel.
#[derive(Debug)]
pub struct VersionInfo {
    pub scheme: String,
    pub version: VersionType,
    pub channel: Option<String>,
}

/// The mathematical value of a [`VersionInfo`].
pub struct VersionInfoView {
    pub scheme: Seq<char>,
    pub version: VersionTypeView,
    pub channel: Option<Seq<char>>,
}

impl View for VersionInfo {
    type V = VersionInfoView;

    open spec fn view(&self) -> VersionInfoView {
        VersionInfoView {
            scheme: self.scheme@,
            version: self.version@,
            channel: match self.channel {
                Some(ref c) => Some(c@),
                None => None,
            },
        }
    }
}

/// The rendering of a version value, before any channel suffix.
pub open spec fn base_version_str(v: VersionTypeView) -> Seq<char> {
    match v {
        VersionTypeView::Semantic(sv) => semver_str(sv),
        VersionTypeView::Calver { year, month, day } => pad2_str(year as nat) + seq!['.']
            + pad2_str(month as nat) + seq!['.'] + pad2_str(day as nat),
        VersionTypeView::Timestamp(s) => s,
        VersionTypeView::Commit(s) => s,
        VersionTypeView::Build { major, minor, patch, build } => dec_str(major as nat)
            + seq!['.'] + dec_str(minor as nat) + seq!['.'] + dec_str(patch as nat) + seq!['.']
            + dec_str(build as nat),
        VersionTypeView::Monotonic(n) => dec_str(n as nat),
        VersionTypeView::Datetime(s) => s,
        VersionTypeView::Pattern(s) => s,
    }
}

/// The full rendering of a version: the base string, qualified by the
/// release channel.
///
/// `stable` leaves the base unchanged. `beta` appends `-beta.1` to a
/// semantic version without a pre-release, leaves other semantic versions
/// unchanged, and appends `-beta` for the remaining schemes. `nightly` is
/// suppressed for timestamp and commit versions and appended as `-nightly`
/// otherwise. Any other channel is appended verbatim after a dash.
pub open spec fn version_display(v: VersionInfoView) -> Seq<char> {
    let base = base_version_str(v.version);
    match v.channel {
        None => base,
        Some(ch) => {
            if ch == "stable"@ {
                base
            } else if ch == "beta"@ {
                match v.version {
                    VersionTypeView::Semantic(sv) => if sv.pre.len() == 0 {
                        base + "-beta.1"@
                    } else {
                        base
                    },
                    _ => base + "-beta"@,
                }
            } else if ch == "nightly"@ {
                match v.version {
                    VersionTypeView::Timestamp(_) => base,
                    VersionTypeView::Commit(_) => base,
                    _ => base + "-nightly"@,
                }
            } else {
                base + seq!['-'] + ch
            }
        },
    }
}

/// A bare dotted version triple.
#[derive(Debug, Clone, PartialEq, Eq, Structural)]
pub struct Version {
    pub major: u32,
    pub minor: u32,
    pub patch: u32,
}

/// Why a version string was rejected for its declared scheme.
#[derive(Debug, PartialEq, Eq, Structural)]
pub enum ParseError {
    /// Not a valid semantic version.
    Semantic,
    /// A calendar version needs at least numeric `YY.MM` components.
    Calver,
    /// A build version is exactly four dot-separated integers.
    Build,
    /// A monotonic version is a single integer.
    Monotonic,
    /// No commit hash was given and none can be derived here.
    Commit,
}

impl ParseError {
    /// A short description of the rejection.
    pub fn message(&self) -> (r: String)
        ensures
            r@ == (match self {
                ParseError::Semantic => "invalid semantic version"@,
                ParseError::Calver => "calver version must have at least numeric YY.MM"@,
                ParseError::Build => "build version must be four dot-separated integers"@,
                ParseError::Monotonic => "monotonic version must be a single integer"@,
                ParseError::Commit => "no commit hash available"@,
            }),
    {
        match self {
            ParseError::Semantic => String::from_str("invalid semantic version"),
            ParseError::Calver => String::from_str(
                "calver version must have at least numeric YY.MM",
            ),
            ParseError::Build => String::from_str(
                "build version must be four dot-separated integers",
            ),
            ParseError::Monotonic => String::from_str("monotonic version must be a single integer"),
            ParseError::Commit => String::from_str("no commit hash available"),
        }
    }
}

/// A dot-separated component as a `u32`, when it is one.
pub open spec fn part_u32(p: Seq<char>) -> Option<u32> {
    if p.len() > 0 && all_digits(p) && dec_val(p) <= u32::MAX {
        Some(dec_val(p) as u32)
    } else {
        None
    }
}

/// What a calendar version string denotes: at least numeric `YY.MM`, the
/// day defaulting to 1; any components past the third are ignored.
pub open spec fn calver_parse(s: Seq<char>) -> Option<(u32, u32, u32)> {
    let parts = split_str(s, '.');
    if parts.len() < 2 {
        None
    } else if part_u32(parts[0]) is None || part_u32(parts[1]) is None {
        None
    } else if parts.len() >= 3 && part_u32(parts[2]) is None {
        None
    } else {
        Some(
            (
                part_u32(parts[0])->Some_0,
                part_u32(parts[1])->Some_0,
                if parts.len() >= 3 {
                    part_u32(parts[2])->Some_0
                } else {
                    1u32
                },
            ),
        )
    }
}

/// What a build version string denotes: exactly four numeric components.
pub open spec fn build_parse(s: Seq<char>) -> Option<(u32, u32, u32, u32)> {
    let parts = split_str(s, '.');
    if parts.len() != 4 {
        None
    } else if part_u32(parts[0]) is None || part_u32(parts[1]) is None || part_u32(parts[2])
        is None || part_u32(parts[3]) is None {
        None
    } else {
        Some(
            (
                part_u32(parts[0])->Some_0,
                part_u32(parts[1])->Some_0,
                part_u32(parts[2])->Some_0,
                part_u32(parts[3])->Some_0,
            ),
        )
    }
}

/// Whether a version string is accepted under a scheme.
///
/// `timestamp`, `datetime` and `pattern` accept anything; `commit` needs a
/// non-empty hash, since no version-control collaborator is reachable from
/// here; every scheme other than the named ones is read as semantic.
pub open spec fn new_ok(v: Seq<char>, scheme: Seq<char>) -> bool {
    if scheme == "calver"@ {
        calver_parse(v) is Some
    } else if scheme == "timestamp"@ {
        true
    } else if scheme == "commit"@ {
        v.len() > 0
    } else if scheme == "build"@ {
        build_parse(v) is Some
    } else if scheme == "monotonic"@ {
        v.len() > 0 && all_digits(v) && dec_val(v) <= u64::MAX
    } else if scheme == "datetime"@ {
        true
    } else if scheme == "pattern"@ {
        true
    } else {
        semver_parsed(v) is Some
    }
}

/// How a constructed version value relates to the given string under a
/// scheme. An empty `timestamp` or `datetime` string is replaced by the
/// current moment, so only its shape is fixed.
pub open spec fn parsed_matches(t: VersionTypeView, v: Seq<char>, scheme: Seq<char>) -> bool {
    if scheme == "calver"@ {
        calver_parse(v) matches Some(c) && t == (VersionTypeView::Calver {
            year: c.0,
            month: c.1,
            day: c.2,
        })
    } else if scheme == "timestamp"@ {
        t matches VersionTypeView::Timestamp(s) && (v.len() > 0 ==> s == v) && (v.len() == 0
            ==> s.len() >= 14)
    } else if scheme == "commit"@ {
        t == VersionTypeView::Commit(v)
    } else if scheme == "build"@ {
        build_parse(v) matches Some(q) && t == (VersionTypeView::Build {
            major: q.0,
            minor: q.1,
            patch: q.2,
            build: q.3,
        })
    } else if scheme == "monotonic"@ {
        t == VersionTypeView::Monotonic(dec_val(v) as u64)
    } else if scheme == "datetime"@ {
        t matches VersionTypeView::Datetime(s) && (v.len() > 0 ==> s == v) && (v.len() == 0
            ==> s.len() >= 19)
    } else if scheme == "pattern"@ {
        t == VersionTypeView::Pattern(v)
    } else {
        semver_parsed(v) matches Some(sv) && t == VersionTypeView::Semantic(sv)
    }
}

/// The error reported when a string is rejected under a scheme.
pub open spec fn scheme_error(scheme: Seq<char>) -> ParseError {
    if scheme == "calver"@ {
        ParseError::Calver
    } else if scheme == "commit"@ {
        ParseError::Commit
    } else if scheme == "build"@ {
        ParseError::Build
    } else if scheme == "monotonic"@ {
        ParseError::Monotonic
    } else {
        ParseError::Semantic
    }
}

/// A version value may not overflow its numeric parts when bumped; these
/// say which values still have room for each bump.
pub open spec fn major_bump_ok(v: VersionTypeView) -> bool {
    match v {
        VersionTypeView::Semantic(x) => x.major < u64::MAX,
        VersionTypeView::Calver { year, .. } => year < u32::MAX,
        VersionTypeView::Build { major, .. } => major < u32::MAX,
        VersionTypeView::Monotonic(n) => n < u64::MAX,
        _ => true,
    }
}

pub open spec fn minor_bump_ok(v: VersionTypeView) -> bool {
    match v {
        VersionTypeView::Semantic(x) => x.minor < u64::MAX,
        VersionTypeView::Calver { month, .. } => month < u32::MAX,
        VersionTypeView::Build { minor, .. } => minor < u32::MAX,
        VersionTypeView::Monotonic(n) => n < u64::MAX,
        _ => true,
    }
}

pub open spec fn patch_bump_ok(v: VersionTypeView) -> bool {
    match v {
        VersionTypeView::Semantic(x) => x.patch < u64::MAX,
        VersionTypeView::Calver { day, .. } => day < u32::MAX,
        VersionTypeView::Build { patch, .. } => patch < u32::MAX,
        VersionTypeView::Monotonic(n) => n < u64::MAX,
        _ => true,
    }
}

/// How a major bump changes a version value.
///
/// Semantic: major raised, minor and patch zeroed, pre-release and build
/// metadata cleared. Calendar: year raised, month and day reset to 1.
/// Build: major raised, minor and patch zeroed, the build component kept.
/// Monotonic: raised by one. Timestamp and datetime values are regenerated
/// from the clock, commit values degrade to `unknown` since no
/// version-control collaborator is reachable here, and pattern values get
/// a literal `-updated` suffix.
pub open spec fn major_bumped(a: VersionTypeView, b: VersionTypeView) -> bool {
    match (a, b) {
        (VersionTypeView::Semantic(x), VersionTypeView::Semantic(y)) => y.major == x.major + 1
            && y.minor == 0 && y.patch == 0 && y.pre.len() == 0 && y.build.len() == 0,
        (
            VersionTypeView::Calver { year: y1, .. },
            VersionTypeView::Calver { year: y2, month: m2, day: d2 },
        ) => y2 == y1 + 1 && m2 == 1 && d2 == 1,
        (VersionTypeView::Timestamp(_), VersionTypeView::Timestamp(s)) => s.len() >= 14,
        (VersionTypeView::Commit(_), VersionTypeView::Commit(s)) => s == "unknown"@,
        (
            VersionTypeView::Build { major: a1, build: b1, .. },
            VersionTypeView::Build { major: a2, minor: m2, patch: p2, build: b2 },
        ) => a2 == a1 + 1 && m2 == 0 && p2 == 0 && b2 == b1,
        (VersionTypeView::Monotonic(n1), VersionTypeView::Monotonic(n2)) => n2 == n1 + 1,
        (VersionTypeView::Datetime(_), VersionTypeView::Datetime(s)) => s.len() >= 19,
        (VersionTypeView::Pattern(s1), VersionTypeView::Pattern(s2)) => s2 == s1 + "-updated"@,
        _ => false,
    }
}

/// How a minor bump changes a version value; the build component of a
/// build version is kept.
pub open spec fn minor_bumped(a: VersionTypeView, b: VersionTypeView) -> bool {
    match (a, b) {
        (VersionTypeView::Semantic(x), VersionTypeView::Semantic(y)) => y.major == x.major
            && y.minor == x.minor + 1 && y.patch == 0 && y.pre.len() == 0 && y.build.len() == 0,
        (
            VersionTypeView::Calver { year: y1, month: m1, .. },
            VersionTypeView::Calver { year: y2, month: m2, day: d2 },
        ) => y2 == y1 && m2 == m1 + 1 && d2 == 1,
        (VersionTypeView::Timestamp(_), VersionTypeView::Timestamp(s)) => s.len() >= 14,
        (VersionTypeView::Commit(_), VersionTypeView::Commit(s)) => s == "unknown"@,
        (
            VersionTypeView::Build { major: a1, minor: m1, build: b1, .. },
            VersionTypeView::Build { major: a2, minor: m2, patch: p2, build: b2 },
        ) => a2 == a1 && m2 == m1 + 1 && p2 == 0 && b2 == b1,
        (VersionTypeView::Monotonic(n1), VersionTypeView::Monotonic(n2)) => n2 == n1 + 1,
        (VersionTypeView::Datetime(_), VersionTypeView::Datetime(s)) => s.len() >= 19,
        (VersionTypeView::Pattern(s1), VersionTypeView::Pattern(s2)) => s2 == s1 + "-updated"@,
        _ => false,
    }
}

/// How a patch bump changes a version value; unlike the other bumps it
/// resets the build component of a build version to zero.
pub open spec fn patch_bumped(a: VersionTypeView, b: VersionTypeView) -> bool {
    match (a, b) {
        (VersionTypeView::Semantic(x), VersionTypeView::Semantic(y)) => y.major == x.major
            && y.minor == x.minor && y.patch == x.patch + 1 && y.pre.len() == 0 && y.build.len()
            == 0,
        (
            VersionTypeView::Calver { year: y1, month: m1, day: d1 },
            VersionTypeView::Calver { year: y2, month: m2, day: d2 },
        ) => y2 == y1 && m2 == m1 && d2 == d1 + 1,
        (VersionTypeView::Timestamp(_), VersionTypeView::Timestamp(s)) => s.len() >= 14,
        (VersionTypeView::Commit(_), VersionTypeView::Commit(s)) => s == "unknown"@,
        (
            VersionTypeView::Build { major: a1, minor: m1, patch: p1, .. },
            VersionTypeView::Build { major: a2, minor: m2, patch: p2, build: b2 },
        ) => a2 == a1 && m2 == m1 && p2 == p1 + 1 && b2 == 0,
        (VersionTypeView::Monotonic(n1), VersionTypeView::Monotonic(n2)) => n2 == n1 + 1,
        (VersionTypeView::Datetime(_), VersionTypeView::Datetime(s)) => s.len() >= 19,
        (VersionTypeView::Pattern(s1), VersionTypeView::Pattern(s2)) => s2 == s1 + "-updated"@,
        _ => false,
    }
}

/// Scheme and channel survive an operation unchanged.
pub open spec fn same_identity(a: VersionInfoView, b: VersionInfoView) -> bool {
    b.scheme == a.scheme && b.channel == a.channel
}

impl VersionInfo {
    /// Parses `version` under `scheme`, attaching an optional channel.
    ///
    /// Succeeds and fails exactly as [`new_ok`] says; the value produced
    /// relates to the inputs as [`parsed_matches`] says.
    pub fn new(version: &str, scheme: &str, channel: Option<String>) -> (r: Result<
        VersionInfo,
        ParseError,
    >)
        ensures
            r is Ok <==> new_ok(version@, scheme@),
            r matches Ok(vi) ==> vi@.scheme == scheme@ && parsed_matches(
                vi@.version,
                version@,
                scheme@,
            ) && vi@.channel == (match channel {
                Some(ref c) => Some(c@),
                None => None::<Seq<char>>,
            }),
            r matches Err(e) ==> e == scheme_error(scheme@),
    {
        let version_type: VersionType = if str_eq(scheme, "calver") {
            let parts = split_char(version, '.');
            if parts.len() < 2 {
                return Err(ParseError::Calver);
            }
            proof {
                assert(parts.deep_view()[0] == parts@[0]@);
                assert(parts.deep_view()[1] == parts@[1]@);
            }
            let year = match parse_u32(parts[0].as_str()) {
                Some(y) => y,
                None => {
                    return Err(ParseError::Calver);
                },
            };
            let month = match parse_u32(parts[1].as_str()) {
                Some(m) => m,
                None => {
                    return Err(ParseError::Calver);
                },
            };
            let day = if parts.len() >= 3 {
                proof {
                    assert(parts.deep_view()[2] == parts@[2]@);
                }
                match parse_u32(parts[2].as_str()) {
                    Some(d) => d,
                    None => {
                        return Err(ParseError::Calver);
                    },
                }
            } else {
                1
            };
            VersionType::Calver { year, month, day }
        } else if str_eq(scheme, "timestamp") {
            if version.is_empty() {
                VersionType::Timestamp(now_stamp14())
            } else {
                VersionType::Timestamp(version.to_owned())
            }
        } else if str_eq(scheme, "commit") {
            if version.is_empty() {
                return Err(ParseError::Commit);
            }
            VersionType::Commit(version.to_owned())
        } else if str_eq(scheme, "build") {
            let parts = split_char(version, '.');
            if parts.len() != 4 {
                return Err(ParseError::Build);
            }
            proof {
                assert(parts.deep_view()[0] == parts@[0]@);
                assert(parts.deep_view()[1] == parts@[1]@);
                assert(parts.deep_view()[2] == parts@[2]@);
                assert(parts.deep_view()[3] == parts@[3]@);
            }
            let major = match parse_u32(parts[0].as_str()) {
                Some(v) => v,
                None => {
                    return Err(ParseError::Build);
                },
            };
            let minor = match parse_u32(parts[1].as_str()) {
                Some(v) => v,
                None => {
                    return Err(ParseError::Build);
                },
            };
            let patch = match parse_u32(parts[2].as_str()) {
                Some(v) => v,
                None => {
                    return Err(ParseError::Build);
                },
            };
            let build = match parse_u32(parts[3].as_str()) {
                Some(v) => v,
                None => {
                    return Err(ParseError::Build);
                },
            };
            VersionType::Build { major, minor, patch, build }
        } else if str_eq(scheme, "monotonic") {
            match parse_u64(version) {
                Some(n) => VersionType::Monotonic(n),
                None => {
                    return Err(ParseError::Monotonic);
                },
            }
        } else if str_eq(scheme, "datetime") {
            if version.is_empty() {
                VersionType::Datetime(now_datetime19())
            } else {
                VersionType::Datetime(version.to_owned())
            }
        } else if str_eq(scheme, "pattern") {
            VersionType::Pattern(version.to_owned())
        } else {
            match parse_semver(version) {
                Some(sv) => VersionType::Semantic(sv),
                None => {
                    return Err(ParseError::Semantic);
                },
            }
        };
        Ok(VersionInfo { scheme: scheme.to_owned(), version: version_type, channel })
    }

    /// Raises the major component, as [`major_bumped`] says.
    pub fn bump_major(&mut self)
        requires
            major_bump_ok(old(self)@.version),
        ensures
            major_bumped(old(self)@.version, final(self)@.version),
            same_identity(old(self)@, final(self)@),
    {
        match &mut self.version {
            VersionType::Semantic(v) => {
                v.major = v.major + 1;
                v.minor = 0;
                v.patch = 0;
                v.pre = String::new();
                v.build = String::new();
            },
            VersionType::Calver { year, month, day } => {
                *year = *year + 1;
                *month = 1;
                *day = 1;
            },
            VersionType::Timestamp(s) => {
                *s = now_stamp14();
            },
            VersionType::Commit(s) => {
                *s = String::from_str("unknown");
            },
            VersionType::Build { major, minor, patch, .. } => {
                *major = *major + 1;
                *minor = 0;
                *patch = 0;
            },
            VersionType::Monotonic(n) => {
                *n = *n + 1;
            },
            VersionType::Datetime(s) => {
                *s = now_datetime19();
            },
            VersionType::Pattern(s) => {
                s.append("-updated");
            },
        }
    }

    /// Raises the minor component, as [`minor_bumped`] says.
    pub fn bump_minor(&mut self)
        requires
            minor_bump_ok(old(self)@.version),
        ensures
            minor_bumped(old(self)@.version, final(self)@.version),
            same_identity(old(self)@, final(self)@),
    {
        match &mut self.version {
            VersionType::Semantic(v) => {
                v.minor = v.minor + 1;
                v.patch = 0;
                v.pre = String::new();
                v.build = String::new();
            },
            VersionType::Calver { month, day, .. } => {
                *month = *month + 1;
                *day = 1;
            },
            VersionType::Timestamp(s) => {
                *s = now_stamp14();
            },
            VersionType::Commit(s) => {
                *s = String::from_str("unknown");
            },
            VersionType::Build { minor, patch, .. } => {
                *minor = *minor + 1;
                *patch = 0;
            },
            VersionType::Monotonic(n) => {
                *n = *n + 1;
            },
            VersionType::Datetime(s) => {
                *s = now_datetime19();
            },
            VersionType::Pattern(s) => {
                s.append("-updated");
            },
        }
    }

    /// Raises the patch component, as [`patch_bumped`] says.
    pub fn bump_patch(&mut self)
        requires
            patch_bump_ok(old(self)@.version),
        ensures
            patch_bumped(old(self)@.version, final(self)@.version),
            same_identity(old(self)@, final(self)@),
    {
        match &mut self.version {
            VersionType::Semantic(v) => {
                v.patch = v.patch + 1;
                v.pre = String::new();
                v.build = String::new();
            },
            VersionType::Calver { day, .. } => {
                *day = *day + 1;
            },
            VersionType::Timestamp(s) => {
                *s = now_stamp14();
            },
            VersionType::Commit(s) => {
                *s = String::from_str("unknown");
            },
            VersionType::Build { patch, build, .. } => {
                *patch = *patch + 1;
                *build = 0;
            },
            VersionType::Monotonic(n) => {
                *n = *n + 1;
            },
            VersionType::Datetime(s) => {
                *s = now_datetime19();
            },
            VersionType::Pattern(s) => {
                s.append("-updated");
            },
        }
    }

    /// Sets the pre-release identifiers of a semantic version; a string the
    /// pre-release grammar rejects clears them instead. Other schemes are
    /// left untouched.
    pub fn set_prerelease(&mut self, pre: &str)
        ensures
            old(self)@.version matches VersionTypeView::Semantic(sv) ==> final(self)@.version
                == VersionTypeView::Semantic(
                (SemVerView {
                    pre: if prerelease_valid(pre@) {
                        pre@
                    } else {
                        Seq::<char>::empty()
                    },
                    ..sv
                }),
            ),
            !(old(self)@.version is Semantic) ==> final(self)@.version == old(self)@.version,
            same_identity(old(self)@, final(self)@),
    {
        if let VersionType::Semantic(v) = &mut self.version {
            if prerelease_ok(pre) {
                v.pre = pre.to_owned();
            } else {
                v.pre = String::new();
            }
        }
    }

    /// Sets the build metadata of a semantic version; a string the
    /// build-metadata grammar rejects clears it instead. Other schemes are
    /// left untouched.
    pub fn set_build(&mut self, build: &str)
        ensures
            old(self)@.version matches VersionTypeView::Semantic(sv) ==> final(self)@.version
                == VersionTypeView::Semantic(
                (SemVerView {
                    build: if buildmeta_valid(build@) {
                        build@
                    } else {
                        Seq::<char>::empty()
                    },
                    ..sv
                }),
            ),
            !(old(self)@.version is Semantic) ==> final(self)@.version == old(self)@.version,
            same_identity(old(self)@, final(self)@),
    {
        if let VersionType::Semantic(v) = &mut self.version {
            if buildmeta_ok(build) {
                v.build = build.to_owned();
            } else {
                v.build = String::new();
            }
        }
    }
}

/// Bumping the patch of a semantic version twice raises the patch by
/// exactly two and leaves major and minor unchanged; bumping the minor
/// resets the patch to zero.
pub proof fn lemma_semantic_patch_bumps(
    a: VersionTypeView,
    b: VersionTypeView,
    c: VersionTypeView,
    m: VersionTypeView,
)
    requires
        a is Semantic,
        patch_bumped(a, b),
        patch_bumped(b, c),
        minor_bumped(a, m),
    ensures
        c matches VersionTypeView::Semantic(cv) && a matches VersionTypeView::Semantic(av)
            && cv.patch == av.patch + 2 && cv.major == av.major && cv.minor == av.minor,
        m matches VersionTypeView::Semantic(mv) && mv.patch == 0,
{
}

/// The build-component asymmetry of build versions: a patch bump resets
/// the fourth component to zero, while major and minor bumps keep it.
pub proof fn lemma_build_bump_asymmetry(
    a: VersionTypeView,
    bm: VersionTypeView,
    bn: VersionTypeView,
    bp: VersionTypeView,
)
    requires
        a is Build,
        major_bumped(a, bm),
        minor_bumped(a, bn),
        patch_bumped(a, bp),
    ensures
        a matches VersionTypeView::Build { build: b0, .. } && bm matches VersionTypeView::Build {
            build: b1,
            ..
        } && b1 == b0,
        a matches VersionTypeView::Build { build: b0, .. } && bn matches VersionTypeView::Build {
            build: b2,
            ..
        } && b2 == b0,
        bp matches VersionTypeView::Build { build: b3, .. } && b3 == 0,
{
}

impl VersionInfo {
    /// Renders the version, with its channel qualifier.
    pub fn to_string(&self) -> (r: String)
        ensures
            r@ == version_display(self@),
    {
        proof {
            reveal_strlit(".");
            assert("."@ =~= seq!['.']);
            reveal_strlit("-");
            assert("-"@ =~= seq!['-']);
        }
        let mut base = match &self.version {
            VersionType::Semantic(sv) => semver_to_string(sv),
            VersionType::Calver { year, month, day } => {
                let mut s = String::new();
                append_pad2(&mut s, *year as u64);
                s.append(".");
                append_pad2(&mut s, *month as u64);
                s.append(".");
                append_pad2(&mut s, *day as u64);
                s
            },
            VersionType::Timestamp(s) => s.clone(),
            VersionType::Commit(s) => s.clone(),
            VersionType::Build { major, minor, patch, build } => {
                let mut s = String::new();
                append_dec(&mut s, *major as u64);
                s.append(".");
                append_dec(&mut s, *minor as u64);
                s.append(".");
                append_dec(&mut s, *patch as u64);
                s.append(".");
                append_dec(&mut s, *build as u64);
                s
            },
            VersionType::Monotonic(n) => {
                let mut s = String::new();
                append_dec(&mut s, *n);
                s
            },
            VersionType::Datetime(s) => s.clone(),
            VersionType::Pattern(s) => s.clone(),
        };
        proof {
            assert(base@ =~= base_version_str(self@.version));
        }
        match &self.channel {
            None => base,
            Some(ch) => {
                if str_eq(ch.as_str(), "stable") {
                    base
                } else if str_eq(ch.as_str(), "beta") {
                    match &self.version {
                        VersionType::Semantic(sv) => {
                            if sv.pre.as_str().is_empty() {
                                base.append("-beta.1");
                                base
                            } else {
                                base
                            }
                        },
                        _ => {
                            base.append("-beta");
                            base
                        },
                    }
                } else if str_eq(ch.as_str(), "nightly") {
                    match &self.version {
                        VersionType::Timestamp(_) => base,
                        VersionType::Commit(_) => base,
                        _ => {
                            base.append("-nightly");
                            base
                        },
                    }
                } else {
                    base.append("-");
                    base.append(ch.as_str());
                    base
                }
            },
        }
    }
}

} // verus!
