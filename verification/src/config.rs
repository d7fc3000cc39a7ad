//! The project configuration model and the commit-based bump analysis.
//!
//! Reading the configuration file, the repository's branches, tags and
//! commit subjects is the caller's business; the rules that turn them
//! into a bump decision live here.

use vstd::prelude::*;
use crate::semantic::semver_parsed;
use crate::strutil::{contains_seq, str_contains, str_eq};

verus! {

/// Where a changelog template is read from and written to.
#[derive(Debug, Clone)]
pub struct ChangelogExporters {
    pub template_path: String,
    pub output_path: String,
}

/// One changelog section and the commit labels feeding it.
#[derive(Debug, Clone)]
pub struct ChangelogSection {
    pub title: String,
    pub labels: Vec<String>,
}

/// A token replaced in changelog text.
#[derive(Debug, Clone)]
pub struct ChangeSubstitution {
    pub token: String,
    pub substitution: String,
}

/// The bump a matched commit asks for.
#[derive(Debug, Clone, PartialEq, Eq, Structural)]
pub enum ChangeAction {
    Null,
    Minor,
    Patch,
    Major,
}

/// A commit label, an optional pattern refining it, and the bump it maps
/// to.
#[derive(Debug, Clone)]
pub struct ChangeTypeMap {
    pub label: String,
    pub pattern: Option<String>,
    pub action: ChangeAction,
}

/// A header file generated from a template on each bump.
#[derive(Debug, Clone)]
pub struct VersionHeader {
    pub path: String,
    pub template: Option<String>,
    pub template_path: Option<String>,
}

/// A package manifest whose version field is rewritten on each bump.
#[derive(Debug, Clone)]
pub struct PackageFile {
    pub path: String,
    pub manager: String,
    pub field: Option<String>,
}

/// One subproject of a monorepo.
#[derive(Debug, Clone)]
pub struct Subproject {
    pub path: String,
    pub config: Option<String>,
}

/// The project configuration.
#[derive(Debug, Clone)]
pub struct Config {
    pub run_on_branches: Vec<String>,
    pub versioning_scheme: String,
    pub first_version: String,
    pub current_version_file: Option<String>,
    pub changelog_exporters: Option<ChangelogExporters>,
    pub calver_enable_branch: bool,
    pub changelog_sections: Vec<ChangelogSection>,
    pub change_substitutions: Vec<ChangeSubstitution>,
    pub change_type_map: Vec<ChangeTypeMap>,
    pub version_headers: Option<Vec<VersionHeader>>,
    pub package_files: Option<Vec<PackageFile>>,
    pub subprojects: Option<Vec<Subproject>>,
    pub channel: Option<String>,
    pub commit_based_bumping: bool,
    pub enable_expensive_metrics: bool,
    pub structured_output: bool,
}

/// Whether `regex::Regex::new` accepts a pattern.
pub uninterp spec fn regex_valid(pattern: Seq<char>) -> bool;

/// Whether a valid pattern matches somewhere in a text, as
/// `regex::Regex::is_match` decides it.
pub uninterp spec fn regex_match(pattern: Seq<char>, text: Seq<char>) -> bool;

/// Relies on `regex::Regex::new` and `Regex::is_match`: a pattern the
/// parser rejects yields nothing, and otherwise the answer is whether the
/// text contains a match of the pattern.
#[verifier::external_body]
fn regex_is_match(pattern: &str, text: &str) -> (r: Option<bool>)
    ensures
        r is Some <==> regex_valid(pattern@),
        r matches Some(b) ==> b == regex_match(pattern@, text@),
{
    match regex::Regex::new(pattern) {
        Ok(re) => Some(re.is_match(text)),
        Err(_) => None,
    }
}

/// Whether one mapping entry matches a commit subject: by its pattern
/// when it has a valid one, by plain label containment otherwise.
pub open spec fn entry_matches(m: ChangeTypeMap, commit: Seq<char>) -> bool {
    match m.pattern {
        Some(p) => if regex_valid(p@) {
            regex_match(p@, commit)
        } else {
            contains_seq(commit, m.label@)
        },
        None => contains_seq(commit, m.label@),
    }
}

/// The bump the first matching, non-null mapping entry asks for.
pub open spec fn determine_bump_spec(maps: Seq<ChangeTypeMap>, commit: Seq<char>) -> Option<
    Seq<char>,
>
    decreases maps.len(),
{
    if maps.len() == 0 {
        None
    } else if entry_matches(maps[0], commit) && !(maps[0].action is Null) {
        match maps[0].action {
            ChangeAction::Minor => Some("minor"@),
            ChangeAction::Patch => Some("patch"@),
            ChangeAction::Major => Some("major"@),
            ChangeAction::Null => None,
        }
    } else {
        determine_bump_spec(maps.drop_first(), commit)
    }
}

/// The severity order of bump names; anything else ranks below them all.
pub open spec fn bump_rank(s: Seq<char>) -> int {
    if s == "patch"@ {
        0
    } else if s == "minor"@ {
        1
    } else if s == "major"@ {
        2
    } else {
        -1
    }
}

/// The more severe of two optional bumps; when either name is unknown the
/// first argument wins.
pub open spec fn higher_bump_spec(a: Option<Seq<char>>, b: Option<Seq<char>>) -> Option<
    Seq<char>,
> {
    match (a, b) {
        (None, None) => None,
        (Some(x), None) => Some(x),
        (None, Some(y)) => Some(y),
        (Some(x), Some(y)) => if bump_rank(x) >= 0 && bump_rank(y) >= 0 && bump_rank(y)
            > bump_rank(x) {
            Some(y)
        } else {
            Some(x)
        },
    }
}

/// The most severe bump the commit subjects ask for, folded in order over
/// an accumulator.
pub open spec fn fold_bumps(
    maps: Seq<ChangeTypeMap>,
    commits: Seq<Seq<char>>,
    acc: Option<Seq<char>>,
) -> Option<Seq<char>>
    decreases commits.len(),
{
    if commits.len() == 0 {
        acc
    } else {
        let d = determine_bump_spec(maps, commits[0]);
        fold_bumps(
            maps,
            commits.drop_first(),
            if d is Some {
                higher_bump_spec(acc, d)
            } else {
                acc
            },
        )
    }
}

/// Whether a branch is among the branches bumping runs on.
pub open spec fn branch_allowed(branches: Seq<String>, branch: Seq<char>) -> bool {
    exists|i: int| 0 <= i < branches.len() && #[trigger] branches[i]@ == branch
}

/// What the commit analysis yields: nothing when commit-based bumping is
/// off or the branch is not allowed, else the commits' most severe bump.
pub open spec fn analyze_spec(
    commit_based: bool,
    branches: Seq<String>,
    maps: Seq<ChangeTypeMap>,
    branch: Seq<char>,
    commits: Seq<Seq<char>>,
) -> Option<Seq<char>> {
    if !commit_based {
        None
    } else if !branch_allowed(branches, branch) {
        None
    } else {
        fold_bumps(maps, commits, None)
    }
}

/// An `Option<String>` seen as an optional character sequence.
pub open spec fn opt_view(o: Option<String>) -> Option<Seq<char>> {
    match o {
        Some(s) => Some(s@),
        None => None,
    }
}

/// The severity rank of a bump name.
fn bump_rank_of(s: &str) -> (r: i32)
    ensures
        r == bump_rank(s@),
{
    if str_eq(s, "patch") {
        0
    } else if str_eq(s, "minor") {
        1
    } else if str_eq(s, "major") {
        2
    } else {
        -1
    }
}

impl Config {
    /// The bump one commit subject asks for, if any: the first mapping
    /// entry that matches — by regular expression where it carries a valid
    /// one, by label containment otherwise — and names a bump decides.
    pub fn determine_bump_from_commit(&self, commit: &str) -> (r: Option<String>)
        ensures
            opt_view(r) == determine_bump_spec(self.change_type_map@, commit@),
    {
        let ghost maps = self.change_type_map@;
        let mut i: usize = 0;
        proof {
            assert(maps.skip(0) =~= maps);
        }
        while i < self.change_type_map.len()
            invariant
                0 <= i <= maps.len(),
                maps == self.change_type_map@,
                determine_bump_spec(maps, commit@) == determine_bump_spec(
                    maps.skip(i as int),
                    commit@,
                ),
            decreases maps.len() - i,
        {
            let m = &self.change_type_map[i];
            proof {
                assert(maps.skip(i as int)[0] == maps[i as int]);
                assert(maps.skip(i as int).drop_first() =~= maps.skip(i + 1));
            }
            let matched = match &m.pattern {
                Some(p) => {
                    match regex_is_match(p.as_str(), commit) {
                        Some(b) => b,
                        None => str_contains(commit, m.label.as_str()),
                    }
                },
                None => str_contains(commit, m.label.as_str()),
            };
            proof {
                assert(matched == entry_matches(maps[i as int], commit@));
            }
            if matched {
                match m.action {
                    ChangeAction::Minor => {
                        return Some(String::from_str("minor"));
                    },
                    ChangeAction::Patch => {
                        return Some(String::from_str("patch"));
                    },
                    ChangeAction::Major => {
                        return Some(String::from_str("major"));
                    },
                    ChangeAction::Null => {},
                }
            }
            i += 1;
        }
        proof {
            assert(maps.skip(maps.len() as int) =~= Seq::<ChangeTypeMap>::empty());
        }
        None
    }

    /// The more severe of two optional bump names; an unrecognised name
    /// makes the first argument win.
    pub fn higher_bump(&self, a: Option<&str>, b: Option<&str>) -> (r: Option<String>)
        ensures
            opt_view(r) == higher_bump_spec(
                match a {
                    Some(x) => Some(x@),
                    None => None,
                },
                match b {
                    Some(y) => Some(y@),
                    None => None,
                },
            ),
    {
        match (a, b) {
            (None, None) => None,
            (Some(x), None) => Some(x.to_owned()),
            (None, Some(y)) => Some(y.to_owned()),
            (Some(x), Some(y)) => {
                let xr = bump_rank_of(x);
                let yr = bump_rank_of(y);
                if xr >= 0 && yr >= 0 && yr > xr {
                    Some(y.to_owned())
                } else {
                    Some(x.to_owned())
                }
            },
        }
    }

    /// Analyzes commit subjects for the bump they ask for.
    ///
    /// The caller supplies the current branch and the commit subjects
    /// since the last version tag; the answer is [`analyze_spec`] of the
    /// configuration and those inputs.
    pub fn analyze_commits_for_bump(&self, current_branch: &str, commits: &Vec<String>) -> (r:
        Option<String>)
        ensures
            opt_view(r) == analyze_spec(
                self.commit_based_bumping,
                self.run_on_branches@,
                self.change_type_map@,
                current_branch@,
                commits.deep_view(),
            ),
    {
        if !self.commit_based_bumping {
            return None;
        }
        let mut allowed = false;
        let mut i: usize = 0;
        while i < self.run_on_branches.len()
            invariant
                0 <= i <= self.run_on_branches@.len(),
                allowed <==> exists|j: int|
                    0 <= j < i && #[trigger] self.run_on_branches@[j]@ == current_branch@,
            decreases self.run_on_branches@.len() - i,
        {
            if str_eq(self.run_on_branches[i].as_str(), current_branch) {
                proof {
                    assert(self.run_on_branches@[i as int]@ == current_branch@);
                }
                allowed = true;
            }
            i += 1;
        }
        if !allowed {
            return None;
        }
        let ghost cs = commits.deep_view();
        let ghost maps = self.change_type_map@;
        let mut acc: Option<String> = None;
        let mut k: usize = 0;
        proof {
            assert(cs.skip(0) =~= cs);
        }
        while k < commits.len()
            invariant
                0 <= k <= cs.len(),
                cs == commits.deep_view(),
                maps == self.change_type_map@,
                fold_bumps(maps, cs, None) == fold_bumps(maps, cs.skip(k as int), opt_view(acc)),
            decreases cs.len() - k,
        {
            proof {
                assert(cs.skip(k as int)[0] == cs[k as int]);
                assert(cs.skip(k as int).drop_first() =~= cs.skip(k + 1));
                assert(commits@[k as int]@ == cs[k as int]);
            }
            let d = self.determine_bump_from_commit(commits[k].as_str());
            match d {
                Some(bt) => {
                    let prev = acc;
                    acc = self.higher_bump(
                        match &prev {
                            Some(p) => Some(p.as_str()),
                            None => None,
                        },
                        Some(bt.as_str()),
                    );
                },
                None => {},
            }
            k += 1;
        }
        proof {
            assert(cs.skip(cs.len() as int) =~= Seq::<Seq<char>>::empty());
        }
        acc
    }

    /// Whether a tag names a version under the configured scheme: a
    /// parseable semantic version, a dotted all-numeric string for the
    /// calendar scheme, and anything at all for the rest.
    pub fn is_version_tag(&self, tag: &str) -> (r: bool)
        ensures
            r == version_tag_spec(self.versioning_scheme@, tag@),
    {
        if str_eq(self.versioning_scheme.as_str(), "semantic") {
            crate::semantic::parse_semver(tag).is_some()
        } else if str_eq(self.versioning_scheme.as_str(), "calver") {
            let len = vstd::string::StrSliceExecFns::unicode_len(tag);
            let mut has_dot = false;
            let mut ok = true;
            let mut i: usize = 0;
            while i < len
                invariant
                    0 <= i <= len,
                    len == tag@.len(),
                    has_dot <==> exists|j: int| 0 <= j < i && #[trigger] tag@[j] == '.',
                    ok <==> forall|j: int|
                        0 <= j < i ==> ('0' <= #[trigger] tag@[j] <= '9' || tag@[j] == '.'),
                decreases len - i,
            {
                let c = vstd::string::StrSliceExecFns::get_char(tag, i);
                if c == '.' {
                    has_dot = true;
                } else if c < '0' || c > '9' {
                    ok = false;
                }
                i += 1;
            }
            has_dot && ok
        } else {
            true
        }
    }
}

/// Whether a tag names a version under a scheme.
pub open spec fn version_tag_spec(scheme: Seq<char>, tag: Seq<char>) -> bool {
    if scheme == "semantic"@ {
        semver_parsed(tag) is Some
    } else if scheme == "calver"@ {
        (exists|j: int| 0 <= j < tag.len() && #[trigger] tag[j] == '.') && (forall|j: int|
            0 <= j < tag.len() ==> ('0' <= #[trigger] tag[j] <= '9' || tag[j] == '.'))
    } else {
        true
    }
}

} // verus!
