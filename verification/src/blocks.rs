//! Typed version blocks, the evaluation context, and templates that join
//! block values into one version string.

use vstd::prelude::*;
use vstd::string::StringExecFns;
use crate::named_map::NamedMap;
use crate::semantic::{SemVerView, semver_str, semver_parsed, parse_semver, semver_to_string};
use crate::strutil::{
    dec_str, pad2_str, pad4_str, append_dec, append_pad2, append_pad4, dec_string, join_with,
    lemma_join_push, str_eq,
};
use crate::clock::{
    now_ymd, now_stamp14, now_unix_string, now_unix_ms_string, now_iso, now_formatted,
};

verus! {

/// An `Option<String>` seen as an optional character sequence.
pub open spec fn opt_str_view(o: Option<String>) -> Option<Seq<char>> {
    match o {
        Some(s) => Some(s@),
        None => None,
    }
}

/// The kind of one version block.
#[derive(Debug)]
pub enum BlockType {
    /// The context's current version, with optional absolute overrides.
    Semantic { major: Option<u32>, minor: Option<u32>, patch: Option<u32> },
    /// A calendar stamp; missing parts come from today's date.
    Calver { year: Option<u32>, month: Option<u32>, day: Option<u32> },
    /// The current moment, in the block's format.
    Timestamp,
    /// The context's commit hash, or `unknown`.
    Commit,
    /// A named counter from the context.
    Counter { name: String },
    /// A fixed text.
    Text { value: String },
    /// The current moment under a free-form date format.
    Date { format: String },
    /// The context's branch name, or `unknown`.
    Branch,
    /// The context's build number, defaulting to 1.
    BuildNumber,
    /// The value an earlier block of this template produced.
    Versioned { name: String },
}

/// The mathematical value of a [`BlockType`].
pub enum BlockTypeView {
    Semantic { major: Option<u32>, minor: Option<u32>, patch: Option<u32> },
    Calver { year: Option<u32>, month: Option<u32>, day: Option<u32> },
    Timestamp,
    Commit,
    Counter { name: Seq<char> },
    Text { value: Seq<char> },
    Date { format: Seq<char> },
    Branch,
    BuildNumber,
    Versioned { name: Seq<char> },
}

impl View for BlockType {
    type V = BlockTypeView;

    open spec fn view(&self) -> BlockTypeView {
        match self {
            BlockType::Semantic { major, minor, patch } => BlockTypeView::Semantic {
                major: *major,
                minor: *minor,
                patch: *patch,
            },
            BlockType::Calver { year, month, day } => BlockTypeView::Calver {
                year: *year,
                month: *month,
                day: *day,
            },
            BlockType::Timestamp => BlockTypeView::Timestamp,
            BlockType::Commit => BlockTypeView::Commit,
            BlockType::Counter { name } => BlockTypeView::Counter { name: name@ },
            BlockType::Text { value } => BlockTypeView::Text { value: value@ },
            BlockType::Date { format } => BlockTypeView::Date { format: format@ },
            BlockType::Branch => BlockTypeView::Branch,
            BlockType::BuildNumber => BlockTypeView::BuildNumber,
            BlockType::Versioned { name } => BlockTypeView::Versioned { name: name@ },
        }
    }
}

impl Clone for BlockType {
    /// A copy with the same value.
    fn clone(&self) -> (r: Self)
        ensures
            r@ == self@,
    {
        match self {
            BlockType::Semantic { major, minor, patch } => BlockType::Semantic {
                major: *major,
                minor: *minor,
                patch: *patch,
            },
            BlockType::Calver { year, month, day } => BlockType::Calver {
                year: *year,
                month: *month,
                day: *day,
            },
            BlockType::Timestamp => BlockType::Timestamp,
            BlockType::Commit => BlockType::Commit,
            BlockType::Counter { name } => BlockType::Counter { name: name.clone() },
            BlockType::Text { value } => BlockType::Text { value: value.clone() },
            BlockType::Date { format } => BlockType::Date { format: format.clone() },
            BlockType::Branch => BlockType::Branch,
            BlockType::BuildNumber => BlockType::BuildNumber,
            BlockType::Versioned { name } => BlockType::Versioned { name: name.clone() },
        }
    }
}

/// One named, typed unit of a version template.
#[derive(Debug)]
pub struct VersionBlock {
    pub name: String,
    pub block_type: BlockType,
    pub format: Option<String>,
    pub config: NamedMap<String>,
}

/// The mathematical value of a [`VersionBlock`].
pub struct BlockView {
    pub name: Seq<char>,
    pub block_type: BlockTypeView,
    pub format: Option<Seq<char>>,
    pub config: Map<Seq<char>, Seq<char>>,
}

impl View for VersionBlock {
    type V = BlockView;

    open spec fn view(&self) -> BlockView {
        BlockView {
            name: self.name@,
            block_type: self.block_type@,
            format: opt_str_view(self.format),
            config: self.config@,
        }
    }
}

impl Clone for VersionBlock {
    /// A copy with the same value.
    fn clone(&self) -> (r: Self)
        ensures
            r@ == self@,
    {
        VersionBlock {
            name: self.name.clone(),
            block_type: self.block_type.clone(),
            format: match &self.format {
                Some(f) => Some(f.clone()),
                None => None,
            },
            config: self.config.duplicate(),
        }
    }
}

impl VersionBlock {
    /// A block of the given name and kind, with no format and no
    /// configuration.
    pub fn new(name: &str, block_type: BlockType) -> (r: Self)
        ensures
            r@.name == name@,
            r@.block_type == block_type@,
            r@.format is None,
            r@.config == Map::<Seq<char>, Seq<char>>::empty(),
    {
        VersionBlock {
            name: name.to_owned(),
            block_type,
            format: None,
            config: NamedMap::new(),
        }
    }

    /// The block with its format set.
    pub fn with_format(self, format: &str) -> (r: Self)
        ensures
            r@ == (BlockView { format: Some(format@), ..self@ }),
    {
        VersionBlock { format: Some(format.to_owned()), ..self }
    }

    /// The block with one configuration entry added.
    pub fn with_config(self, key: &str, value: &str) -> (r: Self)
        ensures
            r@ == (BlockView { config: self@.config.insert(key@, value@), ..self@ }),
    {
        let mut b = self;
        b.config.insert(key, value.to_owned());
        b
    }
}

/// The mutable evaluation environment of one generation run.
#[derive(Debug)]
pub struct VersionContext {
    pub current_version: Option<String>,
    pub current_commit: Option<String>,
    pub current_branch: Option<String>,
    pub build_number: Option<u32>,
    pub counters: NamedMap<u32>,
    pub block_values: NamedMap<String>,
}

/// The mathematical value of a [`VersionContext`].
pub struct CtxView {
    pub version: Option<Seq<char>>,
    pub commit: Option<Seq<char>>,
    pub branch: Option<Seq<char>>,
    pub build_number: Option<u32>,
    pub counters: Map<Seq<char>, u32>,
    pub block_values: Map<Seq<char>, Seq<char>>,
}

impl View for VersionContext {
    type V = CtxView;

    open spec fn view(&self) -> CtxView {
        CtxView {
            version: opt_str_view(self.current_version),
            commit: opt_str_view(self.current_commit),
            branch: opt_str_view(self.current_branch),
            build_number: self.build_number,
            counters: self.counters@,
            block_values: self.block_values@,
        }
    }
}

impl VersionContext {
    /// An empty context.
    pub fn new() -> (r: Self)
        ensures
            r@ == (CtxView {
                version: None,
                commit: None,
                branch: None,
                build_number: None,
                counters: Map::empty(),
                block_values: Map::empty(),
            }),
    {
        VersionContext {
            current_version: None,
            current_commit: None,
            current_branch: None,
            build_number: None,
            counters: NamedMap::new(),
            block_values: NamedMap::new(),
        }
    }

    /// The context with its current version set.
    pub fn with_version(self, version: &str) -> (r: Self)
        ensures
            r@ == (CtxView { version: Some(version@), ..self@ }),
    {
        VersionContext { current_version: Some(version.to_owned()), ..self }
    }

    /// The context with its commit hash set.
    pub fn with_commit(self, commit: &str) -> (r: Self)
        ensures
            r@ == (CtxView { commit: Some(commit@), ..self@ }),
    {
        VersionContext { current_commit: Some(commit.to_owned()), ..self }
    }

    /// The context with its branch name set.
    pub fn with_branch(self, branch: &str) -> (r: Self)
        ensures
            r@ == (CtxView { branch: Some(branch@), ..self@ }),
    {
        VersionContext { current_branch: Some(branch.to_owned()), ..self }
    }

    /// The context with its build number set.
    pub fn with_build_number(self, build: u32) -> (r: Self)
        ensures
            r@ == (CtxView { build_number: Some(build), ..self@ }),
    {
        VersionContext { build_number: Some(build), ..self }
    }

    /// The context with one counter set.
    pub fn with_counter(self, name: &str, value: u32) -> (r: Self)
        ensures
            r@ == (CtxView { counters: self@.counters.insert(name@, value), ..self@ }),
    {
        let mut c = self;
        c.counters.insert(name, value);
        c
    }

    /// Records the value an evaluated block produced.
    pub fn set_block_value(&mut self, name: &str, value: String)
        ensures
            final(self)@ == (CtxView {
                block_values: old(self)@.block_values.insert(name@, value@),
                ..old(self)@
            }),
    {
        self.block_values.insert(name, value);
    }
}

/// Why a block failed to evaluate.
#[derive(Debug)]
pub enum EvalError {
    /// A `Versioned` block named a value no earlier block produced.
    Reference { name: String },
    /// The context's current version is not a semantic version.
    Parse { input: String },
}

/// The mathematical value of an [`EvalError`].
pub enum EvalErrorView {
    Reference { name: Seq<char> },
    Parse { input: Seq<char> },
}

impl View for EvalError {
    type V = EvalErrorView;

    open spec fn view(&self) -> EvalErrorView {
        match self {
            EvalError::Reference { name } => EvalErrorView::Reference { name: name@ },
            EvalError::Parse { input } => EvalErrorView::Parse { input: input@ },
        }
    }
}

impl EvalError {
    /// A description of the failure, naming the offending input.
    pub fn message(&self) -> (r: String)
        ensures
            r@ == (match self@ {
                EvalErrorView::Reference { name } => "Referenced version block '"@ + name
                    + "' not found"@,
                EvalErrorView::Parse { input } => "Invalid version string '"@ + input + "'"@,
            }),
    {
        match self {
            EvalError::Reference { name } => {
                let mut s = String::from_str("Referenced version block '");
                s.append(name.as_str());
                s.append("' not found");
                s
            },
            EvalError::Parse { input } => {
                let mut s = String::from_str("Invalid version string '");
                s.append(input.as_str());
                s.append("'");
                s
            },
        }
    }
}

/// The base semantic version a `Semantic` block starts from.
pub open spec fn semantic_base(ctx: CtxView) -> Seq<char> {
    match ctx.version {
        Some(v) => v,
        None => "0.0.0"@,
    }
}

/// Whether a block's value is fixed by the context alone; only blocks that
/// consult the clock are not.
pub open spec fn block_det(b: BlockView) -> bool {
    match b.block_type {
        BlockTypeView::Calver { year, month, day } => year is Some && month is Some
            && day is Some,
        BlockTypeView::Timestamp => false,
        BlockTypeView::Date { .. } => false,
        _ => true,
    }
}

/// The error a block raises against a context, if any. Only a `Semantic`
/// block over an unparseable current version and a `Versioned` block over
/// an unknown name can fail.
pub open spec fn block_error(b: BlockView, ctx: CtxView) -> Option<EvalErrorView> {
    match b.block_type {
        BlockTypeView::Semantic { .. } => if semver_parsed(semantic_base(ctx)) is None {
            Some(EvalErrorView::Parse { input: semantic_base(ctx) })
        } else {
            None
        },
        BlockTypeView::Versioned { name } => if !ctx.block_values.contains_key(name) {
            Some(EvalErrorView::Reference { name })
        } else {
            None
        },
        _ => None,
    }
}

/// The calendar rendering under a format choice: dotted two-digit by
/// default, with `YYYY` variants writing the year four digits wide and the
/// undotted variants omitting the separators.
pub open spec fn calver_value(format: Option<Seq<char>>, y: u32, m: u32, d: u32) -> Seq<char> {
    if format == Some("YYYY.MM.DD"@) {
        pad4_str(y as nat) + seq!['.'] + pad2_str(m as nat) + seq!['.'] + pad2_str(d as nat)
    } else if format == Some("YYMMDD"@) {
        pad2_str((y % 100) as nat) + pad2_str(m as nat) + pad2_str(d as nat)
    } else if format == Some("YYYYMMDD"@) {
        pad4_str(y as nat) + pad2_str(m as nat) + pad2_str(d as nat)
    } else {
        pad2_str((y % 100) as nat) + seq!['.'] + pad2_str(m as nat) + seq!['.'] + pad2_str(
            d as nat,
        )
    }
}

/// The value of a block whose result the context pins down; meaningful
/// only when [`block_det`] holds of the block and [`block_error`] is
/// `None`.
pub open spec fn det_block_value(b: BlockView, ctx: CtxView) -> Seq<char> {
    match b.block_type {
        BlockTypeView::Semantic { major, minor, patch } => {
            let sv = semver_parsed(semantic_base(ctx))->Some_0;
            semver_str(
                SemVerView {
                    major: match major {
                        Some(m) => m as u64,
                        None => sv.major,
                    },
                    minor: match minor {
                        Some(m) => m as u64,
                        None => sv.minor,
                    },
                    patch: match patch {
                        Some(p) => p as u64,
                        None => sv.patch,
                    },
                    pre: sv.pre,
                    build: sv.build,
                },
            )
        },
        BlockTypeView::Calver { year, month, day } => calver_value(
            b.format,
            year->Some_0,
            month->Some_0,
            day->Some_0,
        ),
        BlockTypeView::Timestamp => Seq::<char>::empty(),
        BlockTypeView::Commit => match ctx.commit {
            Some(c) => c,
            None => "unknown"@,
        },
        BlockTypeView::Counter { name } => dec_str(
            (if ctx.counters.contains_key(name) {
                ctx.counters[name]
            } else {
                0u32
            }) as nat,
        ),
        BlockTypeView::Text { value } => value,
        BlockTypeView::Date { .. } => Seq::<char>::empty(),
        BlockTypeView::Branch => match ctx.branch {
            Some(b2) => b2,
            None => "unknown"@,
        },
        BlockTypeView::BuildNumber => dec_str(
            (match ctx.build_number {
                Some(n) => n,
                None => 1u32,
            }) as nat,
        ),
        BlockTypeView::Versioned { name } => ctx.block_values[name],
    }
}

/// The shape a timestamp block's value always has: the numeric and ISO
/// formats are non-empty, the packed default is at least fourteen
/// characters.
pub open spec fn timestamp_value_ok(format: Option<Seq<char>>, v: Seq<char>) -> bool {
    if format == Some("unix"@) || format == Some("unix_ms"@) || format == Some("iso"@) {
        v.len() >= 1
    } else {
        v.len() >= 14
    }
}

/// How a block's produced value relates to the context: pinned exactly for
/// deterministic blocks, constrained in shape for clock-dependent ones.
pub open spec fn block_value_ok(b: BlockView, ctx: CtxView, v: Seq<char>) -> bool {
    match b.block_type {
        BlockTypeView::Calver { year, month, day } => exists|y: u32, m: u32, d: u32|
            {
                &&& (match year {
                    Some(yy) => y == yy,
                    None => true,
                })
                &&& (match month {
                    Some(mm) => m == mm,
                    None => 1 <= m <= 12,
                })
                &&& (match day {
                    Some(dd) => d == dd,
                    None => 1 <= d <= 31,
                })
                &&& v == #[trigger] calver_value(b.format, y, m, d)
            },
        BlockTypeView::Timestamp => timestamp_value_ok(b.format, v),
        BlockTypeView::Date { .. } => true,
        _ => v == det_block_value(b, ctx),
    }
}

/// Renders a calendar stamp under the block's format choice.
fn calver_format(format: &Option<String>, y: u32, m: u32, d: u32) -> (r: String)
    ensures
        r@ == calver_value(opt_str_view(*format), y, m, d),
{
    proof {
        reveal_strlit(".");
        assert("."@ =~= seq!['.']);
    }
    let mut s = String::new();
    match format {
        Some(f) => {
            if str_eq(f.as_str(), "YYYY.MM.DD") {
                append_pad4(&mut s, y as u64);
                s.append(".");
                append_pad2(&mut s, m as u64);
                s.append(".");
                append_pad2(&mut s, d as u64);
            } else if str_eq(f.as_str(), "YYMMDD") {
                append_pad2(&mut s, (y % 100) as u64);
                append_pad2(&mut s, m as u64);
                append_pad2(&mut s, d as u64);
            } else if str_eq(f.as_str(), "YYYYMMDD") {
                append_pad4(&mut s, y as u64);
                append_pad2(&mut s, m as u64);
                append_pad2(&mut s, d as u64);
            } else {
                append_pad2(&mut s, (y % 100) as u64);
                s.append(".");
                append_pad2(&mut s, m as u64);
                s.append(".");
                append_pad2(&mut s, d as u64);
            }
        },
        None => {
            append_pad2(&mut s, (y % 100) as u64);
            s.append(".");
            append_pad2(&mut s, m as u64);
            s.append(".");
            append_pad2(&mut s, d as u64);
        },
    }
    proof {
        assert(s@ =~= calver_value(opt_str_view(*format), y, m, d));
    }
    s
}

impl VersionBlock {
    /// Evaluates the block against a context.
    ///
    /// Fails exactly when [`block_error`] says so, with that error; a
    /// produced value relates to the context as [`block_value_ok`] says.
    pub fn generate_value(&self, context: &VersionContext) -> (r: Result<String, EvalError>)
        ensures
            r is Err <==> block_error(self@, context@) is Some,
            r matches Err(e) ==> Some(e@) == block_error(self@, context@),
            r matches Ok(v) ==> block_value_ok(self@, context@, v@),
    {
        match &self.block_type {
            BlockType::Semantic { major, minor, patch } => {
                let base: &str = match &context.current_version {
                    Some(v) => v.as_str(),
                    None => "0.0.0",
                };
                proof {
                    assert(base@ == semantic_base(context@));
                }
                match parse_semver(base) {
                    Some(sv) => {
                        let mut sv = sv;
                        match major {
                            Some(m) => {
                                sv.major = *m as u64;
                            },
                            None => {},
                        }
                        match minor {
                            Some(m) => {
                                sv.minor = *m as u64;
                            },
                            None => {},
                        }
                        match patch {
                            Some(p) => {
                                sv.patch = *p as u64;
                            },
                            None => {},
                        }
                        Ok(semver_to_string(&sv))
                    },
                    None => Err(EvalError::Parse { input: base.to_owned() }),
                }
            },
            BlockType::Calver { year, month, day } => {
                let now = now_ymd();
                let y = match year {
                    Some(y) => *y,
                    None => now.0,
                };
                let m = match month {
                    Some(m) => *m,
                    None => now.1,
                };
                let d = match day {
                    Some(d) => *d,
                    None => now.2,
                };
                let v = calver_format(&self.format, y, m, d);
                proof {
                    assert(block_value_ok(self@, context@, v@)) by {
                        assert({
                            &&& (match self@.block_type->Calver_year {
                                Some(yy) => y == yy,
                                None => true,
                            })
                            &&& (match self@.block_type->Calver_month {
                                Some(mm) => m == mm,
                                None => 1 <= m <= 12,
                            })
                            &&& (match self@.block_type->Calver_day {
                                Some(dd) => d == dd,
                                None => 1 <= d <= 31,
                            })
                            &&& v@ == calver_value(self@.format, y, m, d)
                        });
                    }
                }
                Ok(v)
            },
            BlockType::Timestamp => {
                let v = match &self.format {
                    Some(f) => {
                        if str_eq(f.as_str(), "unix") {
                            now_unix_string()
                        } else if str_eq(f.as_str(), "unix_ms") {
                            now_unix_ms_string()
                        } else if str_eq(f.as_str(), "iso") {
                            now_iso()
                        } else {
                            now_stamp14()
                        }
                    },
                    None => now_stamp14(),
                };
                Ok(v)
            },
            BlockType::Commit => {
                match &context.current_commit {
                    Some(c) => Ok(c.clone()),
                    None => Ok(String::from_str("unknown")),
                }
            },
            BlockType::Counter { name } => {
                let v: u32 = match context.counters.get(name.as_str()) {
                    Some(v) => *v,
                    None => 0,
                };
                Ok(dec_string(v as u64))
            },
            BlockType::Text { value } => Ok(value.clone()),
            BlockType::Date { format } => Ok(now_formatted(format.as_str())),
            BlockType::Branch => {
                match &context.current_branch {
                    Some(b) => Ok(b.clone()),
                    None => Ok(String::from_str("unknown")),
                }
            },
            BlockType::BuildNumber => {
                let v: u32 = match &context.build_number {
                    Some(n) => *n,
                    None => 1,
                };
                Ok(dec_string(v as u64))
            },
            BlockType::Versioned { name } => {
                match context.block_values.get(name.as_str()) {
                    Some(v) => Ok(v.clone()),
                    None => Err(EvalError::Reference { name: name.clone() }),
                }
            },
        }
    }
}

/// An ordered list of blocks with a separator and optional prefix and
/// suffix.
#[derive(Debug)]
pub struct VersionTemplate {
    pub name: String,
    pub blocks: Vec<VersionBlock>,
    pub separator: String,
    pub prefix: Option<String>,
    pub suffix: Option<String>,
}

/// The mathematical value of a [`VersionTemplate`].
pub struct TemplateView {
    pub name: Seq<char>,
    pub blocks: Seq<BlockView>,
    pub separator: Seq<char>,
    pub prefix: Option<Seq<char>>,
    pub suffix: Option<Seq<char>>,
}

impl View for VersionTemplate {
    type V = TemplateView;

    open spec fn view(&self) -> TemplateView {
        TemplateView {
            name: self.name@,
            blocks: Seq::new(self.blocks@.len() as nat, |i: int| self.blocks@[i]@),
            separator: self.separator@,
            prefix: opt_str_view(self.prefix),
            suffix: opt_str_view(self.suffix),
        }
    }
}

impl Clone for VersionTemplate {
    /// A copy with the same value.
    fn clone(&self) -> (r: Self)
        ensures
            r@ == self@,
    {
        let mut blocks: Vec<VersionBlock> = Vec::new();
        let mut i: usize = 0;
        while i < self.blocks.len()
            invariant
                0 <= i <= self.blocks@.len(),
                blocks@.len() == i,
                forall|j: int| 0 <= j < i ==> #[trigger] blocks@[j]@ == self.blocks@[j]@,
            decreases self.blocks@.len() - i,
        {
            blocks.push(self.blocks[i].clone());
            i += 1;
        }
        let r = VersionTemplate {
            name: self.name.clone(),
            blocks,
            separator: self.separator.clone(),
            prefix: match &self.prefix {
                Some(p) => Some(p.clone()),
                None => None,
            },
            suffix: match &self.suffix {
                Some(s) => Some(s.clone()),
                None => None,
            },
        };
        proof {
            assert(r@.blocks =~= self@.blocks);
        }
        r
    }
}

impl VersionTemplate {
    /// An empty template with the given name and a dot separator.
    pub fn new(name: &str) -> (r: Self)
        ensures
            r@.name == name@,
            r@.blocks =~= Seq::<BlockView>::empty(),
            r@.separator == "."@,
            r@.prefix is None,
            r@.suffix is None,
    {
        VersionTemplate {
            name: name.to_owned(),
            blocks: Vec::new(),
            separator: String::from_str("."),
            prefix: None,
            suffix: None,
        }
    }

    /// The template with its separator replaced.
    pub fn with_separator(self, separator: &str) -> (r: Self)
        ensures
            r@ == (TemplateView { separator: separator@, ..self@ }),
    {
        VersionTemplate { separator: separator.to_owned(), ..self }
    }

    /// The template with its prefix set.
    pub fn with_prefix(self, prefix: &str) -> (r: Self)
        ensures
            r@ == (TemplateView { prefix: Some(prefix@), ..self@ }),
    {
        VersionTemplate { prefix: Some(prefix.to_owned()), ..self }
    }

    /// The template with its suffix set.
    pub fn with_suffix(self, suffix: &str) -> (r: Self)
        ensures
            r@ == (TemplateView { suffix: Some(suffix@), ..self@ }),
    {
        VersionTemplate { suffix: Some(suffix.to_owned()), ..self }
    }

    /// The template with one more block at the end.
    pub fn add_block(self, block: VersionBlock) -> (r: Self)
        ensures
            r@ == (TemplateView { blocks: self@.blocks.push(block@), ..self@ }),
    {
        let mut t = self;
        let ghost prev = t@.blocks;
        t.blocks.push(block);
        proof {
            assert(t@.blocks =~= prev.push(block@));
        }
        t
    }
}

/// The context with one block value recorded.
pub open spec fn ctx_with_value(ctx: CtxView, name: Seq<char>, v: Seq<char>) -> CtxView {
    CtxView { block_values: ctx.block_values.insert(name, v), ..ctx }
}

/// The context with its accumulated block values dropped, as each
/// generation run starts.
pub open spec fn ctx_clear_values(ctx: CtxView) -> CtxView {
    CtxView { block_values: Map::empty(), ..ctx }
}

/// The context after the first `i` blocks have produced the first `i`
/// values.
pub open spec fn ctx_at(
    blocks: Seq<BlockView>,
    ctx0: CtxView,
    vals: Seq<Seq<char>>,
    i: int,
) -> CtxView
    decreases i,
{
    if i <= 0 {
        ctx0
    } else {
        ctx_with_value(ctx_at(blocks, ctx0, vals, i - 1), blocks[i - 1].name, vals[i - 1])
    }
}

/// The values are a possible outcome of evaluating the blocks in order
/// from the given starting context: no block fails, and each value fits
/// its block under the context accumulated so far.
pub open spec fn vals_ok(blocks: Seq<BlockView>, ctx0: CtxView, vals: Seq<Seq<char>>) -> bool {
    &&& vals.len() == blocks.len()
    &&& forall|i: int|
        0 <= i < blocks.len() ==> {
            &&& block_error(#[trigger] blocks[i], ctx_at(blocks, ctx0, vals, i)) is None
            &&& block_value_ok(blocks[i], ctx_at(blocks, ctx0, vals, i), vals[i])
        }
}

/// The first error the blocks from position `i` on raise, walking the
/// context forward. Whether a block fails never depends on the recorded
/// values, only on their names, so any value stands in for them here.
pub open spec fn first_error_from(
    blocks: Seq<BlockView>,
    ctx: CtxView,
    i: int,
) -> Option<EvalErrorView>
    decreases blocks.len() - i,
{
    if i < 0 || i >= blocks.len() {
        None
    } else {
        match block_error(blocks[i], ctx) {
            Some(e) => Some(e),
            None => first_error_from(
                blocks,
                ctx_with_value(ctx, blocks[i].name, Seq::<char>::empty()),
                i + 1,
            ),
        }
    }
}

/// The error a whole generation run raises, if any.
pub open spec fn template_error(t: TemplateView, ctx0: CtxView) -> Option<EvalErrorView> {
    first_error_from(t.blocks, ctx_clear_values(ctx0), 0)
}

/// An optional affix, or nothing.
pub open spec fn opt_or_empty(o: Option<Seq<char>>) -> Seq<char> {
    match o {
        Some(s) => s,
        None => Seq::<char>::empty(),
    }
}

/// The generated string: the values joined by the separator, wrapped by
/// prefix and suffix with no separator next to either.
pub open spec fn wrap_str(t: TemplateView, vals: Seq<Seq<char>>) -> Seq<char> {
    opt_or_empty(t.prefix) + join_with(vals, t.separator) + opt_or_empty(t.suffix)
}

/// Every block's value is fixed by the context alone.
pub open spec fn all_det(blocks: Seq<BlockView>) -> bool {
    forall|i: int| 0 <= i < blocks.len() ==> block_det(#[trigger] blocks[i])
}

/// The unique value sequence of an all-deterministic block list.
pub open spec fn det_vals(blocks: Seq<BlockView>, ctx0: CtxView) -> Seq<Seq<char>>
    decreases blocks.len(),
{
    if blocks.len() == 0 {
        Seq::<Seq<char>>::empty()
    } else {
        let prev = det_vals(blocks.drop_last(), ctx0);
        prev.push(
            det_block_value(
                blocks.last(),
                ctx_at(blocks.drop_last(), ctx0, prev, blocks.len() - 1),
            ),
        )
    }
}

/// The one string an all-deterministic template generates from a context;
/// the context's accumulated block values do not enter.
pub open spec fn det_generate(t: TemplateView, ctx0: CtxView) -> Seq<char> {
    wrap_str(t, det_vals(t.blocks, ctx_clear_values(ctx0)))
}

/// The accumulated context depends only on the first `i` names and values.
proof fn lemma_ctx_at_prefix(
    blocks1: Seq<BlockView>,
    blocks2: Seq<BlockView>,
    ctx0: CtxView,
    vals1: Seq<Seq<char>>,
    vals2: Seq<Seq<char>>,
    i: int,
)
    requires
        forall|j: int| 0 <= j < i ==> #[trigger] blocks1[j].name == blocks2[j].name,
        forall|j: int| 0 <= j < i ==> #[trigger] vals1[j] == vals2[j],
    ensures
        ctx_at(blocks1, ctx0, vals1, i) == ctx_at(blocks2, ctx0, vals2, i),
    decreases i,
{
    if i > 0 {
        lemma_ctx_at_prefix(blocks1, blocks2, ctx0, vals1, vals2, i - 1);
    }
}

/// Whether a block fails depends only on the current version and on which
/// names are recorded, never on the recorded values.
proof fn lemma_block_error_dom(b: BlockView, c1: CtxView, c2: CtxView)
    requires
        c1.version == c2.version,
        forall|k: Seq<char>| #[trigger] c1.block_values.contains_key(k)
            == c2.block_values.contains_key(k),
    ensures
        block_error(b, c1) == block_error(b, c2),
{
}

/// The first error is the same over any two contexts that agree on the
/// current version and on the set of recorded names.
proof fn lemma_first_error_same(blocks: Seq<BlockView>, c1: CtxView, c2: CtxView, i: int)
    requires
        c1.version == c2.version,
        forall|k: Seq<char>| #[trigger] c1.block_values.contains_key(k)
            == c2.block_values.contains_key(k),
    ensures
        first_error_from(blocks, c1, i) == first_error_from(blocks, c2, i),
    decreases blocks.len() - i,
{
    if 0 <= i < blocks.len() {
        lemma_block_error_dom(blocks[i], c1, c2);
        if block_error(blocks[i], c1) is None {
            let d1 = ctx_with_value(c1, blocks[i].name, Seq::<char>::empty());
            let d2 = ctx_with_value(c2, blocks[i].name, Seq::<char>::empty());
            assert(forall|k: Seq<char>| #[trigger] d1.block_values.contains_key(k)
                == d2.block_values.contains_key(k));
            lemma_first_error_same(blocks, d1, d2, i + 1);
        }
    }
}

/// An all-deterministic block list admits exactly one value sequence.
proof fn lemma_det_vals_agree(blocks: Seq<BlockView>, ctx0: CtxView, vals: Seq<Seq<char>>)
    requires
        vals_ok(blocks, ctx0, vals),
        all_det(blocks),
    ensures
        vals =~= det_vals(blocks, ctx0),
    decreases blocks.len(),
{
    if blocks.len() > 0 {
        let n = blocks.len() - 1;
        let bl = blocks.drop_last();
        let vl = vals.drop_last();
        assert forall|j: int|
            0 <= j < bl.len() implies {
            &&& block_error(#[trigger] bl[j], ctx_at(bl, ctx0, vl, j)) is None
            &&& block_value_ok(bl[j], ctx_at(bl, ctx0, vl, j), vl[j])
        } by {
            assert(bl[j] == blocks[j]);
            assert(vl[j] == vals[j]);
            lemma_ctx_at_prefix(bl, blocks, ctx0, vl, vals, j);
        }
        assert(vals_ok(bl, ctx0, vl));
        assert(all_det(bl)) by {
            assert(forall|j: int| 0 <= j < bl.len() ==> #[trigger] bl[j] == blocks[j]);
        }
        lemma_det_vals_agree(bl, ctx0, vl);
        let prev = det_vals(bl, ctx0);
        lemma_ctx_at_prefix(bl, blocks, ctx0, prev, vals, n);
        let cn = ctx_at(blocks, ctx0, vals, n);
        assert(block_value_ok(blocks[n], cn, vals[n]));
        assert(block_det(blocks[n]));
        match blocks[n].block_type {
            BlockTypeView::Calver { year, month, day } => {
                let (y, m, d) = choose|y: u32, m: u32, d: u32|
                    {
                        &&& (match year {
                            Some(yy) => y == yy,
                            None => true,
                        })
                        &&& (match month {
                            Some(mm) => m == mm,
                            None => 1 <= m <= 12,
                        })
                        &&& (match day {
                            Some(dd) => d == dd,
                            None => 1 <= d <= 31,
                        })
                        &&& vals[n] == #[trigger] calver_value(blocks[n].format, y, m, d)
                    };
                assert(vals[n] == det_block_value(blocks[n], cn));
            },
            _ => {
                assert(vals[n] == det_block_value(blocks[n], cn));
            },
        }
        assert(vals =~= det_vals(blocks, ctx0));
    }
}

/// From the step after a block is recorded until its name is shadowed, the
/// accumulated context holds that block's value under its name.
proof fn lemma_ctx_at_tracks(
    blocks: Seq<BlockView>,
    ctx0: CtxView,
    vals: Seq<Seq<char>>,
    i: int,
    k: int,
)
    requires
        0 <= i < k <= blocks.len(),
        forall|j: int| i < j < k ==> #[trigger] blocks[j].name != blocks[i].name,
    ensures
        ctx_at(blocks, ctx0, vals, k).block_values.contains_key(blocks[i].name),
        ctx_at(blocks, ctx0, vals, k).block_values[blocks[i].name] == vals[i],
    decreases k,
{
    if k == i + 1 {
    } else {
        lemma_ctx_at_tracks(blocks, ctx0, vals, i, k - 1);
    }
}

/// A `Versioned` block standing after a block of the referenced name, with
/// no shadowing block in between, copies that block's exact value; the
/// template inserts nothing between a value and its copy beyond the usual
/// separator.
pub proof fn lemma_versioned_copies_prior(
    t: TemplateView,
    ctx: CtxView,
    vals: Seq<Seq<char>>,
    i: int,
    k: int,
)
    requires
        vals_ok(t.blocks, ctx_clear_values(ctx), vals),
        0 <= i < k < t.blocks.len(),
        t.blocks[k].block_type == (BlockTypeView::Versioned { name: t.blocks[i].name }),
        forall|j: int| i < j < k ==> #[trigger] t.blocks[j].name != t.blocks[i].name,
    ensures
        vals[k] == vals[i],
{
    lemma_ctx_at_tracks(t.blocks, ctx_clear_values(ctx), vals, i, k);
    assert(block_value_ok(
        t.blocks[k],
        ctx_at(t.blocks, ctx_clear_values(ctx), vals, k),
        vals[k],
    ));
}

/// Reaching a `Versioned` block whose name only blocks at or past it bear
/// must fail: every name the walked context records comes from an earlier
/// block.
proof fn lemma_first_error_hits_reference(
    blocks: Seq<BlockView>,
    ctx: CtxView,
    i: int,
    k: int,
    name: Seq<char>,
)
    requires
        0 <= i <= k < blocks.len(),
        blocks[k].block_type == (BlockTypeView::Versioned { name }),
        forall|j: int| 0 <= j < k ==> #[trigger] blocks[j].name != name,
        forall|key: Seq<char>| #[trigger] ctx.block_values.contains_key(key) ==> exists|j: int|
            0 <= j < i && blocks[j].name == key,
    ensures
        first_error_from(blocks, ctx, i) is Some,
    decreases k - i,
{
    if i == k {
        if ctx.block_values.contains_key(name) {
            let j = choose|j: int| 0 <= j < i && blocks[j].name == name;
            assert(false);
        }
    } else {
        match block_error(blocks[i], ctx) {
            Some(_) => {},
            None => {
                let d = ctx_with_value(ctx, blocks[i].name, Seq::<char>::empty());
                assert forall|key: Seq<char>| #[trigger] d.block_values.contains_key(key)
                    implies exists|j: int| 0 <= j < i + 1 && blocks[j].name == key by {
                    if key == blocks[i].name {
                        assert(blocks[i as int].name == key);
                    } else {
                        let j = choose|j: int| 0 <= j < i && blocks[j].name == key;
                        assert(blocks[j].name == key);
                    }
                }
                lemma_first_error_hits_reference(blocks, d, i + 1, k, name);
            },
        }
    }
}

/// A template holding a `Versioned` block whose name no earlier block
/// bears never generates a string: the run reports an error rather than
/// substituting anything for the reference.
pub proof fn lemma_unresolved_reference_fails(
    t: TemplateView,
    ctx: CtxView,
    k: int,
    name: Seq<char>,
)
    requires
        0 <= k < t.blocks.len(),
        t.blocks[k].block_type == (BlockTypeView::Versioned { name }),
        forall|j: int| 0 <= j < k ==> #[trigger] t.blocks[j].name != name,
    ensures
        template_error(t, ctx) is Some,
{
    let c = ctx_clear_values(ctx);
    assert(forall|key: Seq<char>| !(#[trigger] c.block_values.contains_key(key)));
    lemma_first_error_hits_reference(t.blocks, c, 0, k, name);
}

/// Generation from an all-deterministic template reads only the
/// context's current fields and counters, never its accumulated block
/// values: two runs over contexts that agree on those fields yield the
/// same string, so repeating a run repeats its result.
pub proof fn lemma_generate_deterministic(t: TemplateView, c1: CtxView, c2: CtxView)
    requires
        all_det(t.blocks),
        c1.version == c2.version,
        c1.commit == c2.commit,
        c1.branch == c2.branch,
        c1.build_number == c2.build_number,
        c1.counters == c2.counters,
    ensures
        det_generate(t, c1) == det_generate(t, c2),
        template_error(t, c1) == template_error(t, c2),
{
    assert(ctx_clear_values(c1) == ctx_clear_values(c2));
}

/// Joins rendered parts with a separator between consecutive parts.
fn join_strings(parts: &Vec<String>, sep: &str) -> (r: String)
    ensures
        r@ == join_with(parts.deep_view(), sep@),
{
    let mut s = String::new();
    if parts.len() == 0 {
        proof {
            assert(s@ =~= join_with(parts.deep_view(), sep@));
        }
        return s;
    }
    let mut s = parts[0].clone();
    let mut i: usize = 1;
    proof {
        assert(parts.deep_view().take(1) =~= seq![parts.deep_view()[0]]);
        assert(s@ == join_with(parts.deep_view().take(1), sep@));
    }
    while i < parts.len()
        invariant
            1 <= i <= parts@.len(),
            parts.deep_view().len() == parts@.len(),
            s@ == join_with(parts.deep_view().take(i as int), sep@),
        decreases parts@.len() - i,
    {
        s.append(sep);
        s.append(parts[i].as_str());
        proof {
            assert(parts.deep_view().take(i + 1) =~= parts.deep_view().take(i as int).push(
                parts.deep_view()[i as int],
            ));
            lemma_join_push(parts.deep_view().take(i as int), sep@, parts.deep_view()[i as int]);
            assert(parts@[i as int]@ == parts.deep_view()[i as int]);
        }
        i += 1;
    }
    proof {
        assert(parts.deep_view().take(parts@.len() as int) =~= parts.deep_view());
    }
    s
}

impl VersionTemplate {
    /// Evaluates every block in order against the context, recording each
    /// value under its block's name before the next block runs, and joins
    /// the values into one string.
    ///
    /// The run fails exactly when [`template_error`] reports an error, with
    /// that error, and any one block's failure aborts the whole run. On
    /// success the string wraps and joins a value sequence that
    /// [`vals_ok`] admits; when every block is deterministic the string is
    /// exactly [`det_generate`] of the starting context. The context's
    /// accumulated block values are cleared at the start and hold the
    /// produced values afterwards; its other fields never change.
    pub fn generate(&self, context: &mut VersionContext) -> (r: Result<String, EvalError>)
        ensures
            r is Err <==> template_error(self@, old(context)@) is Some,
            r matches Err(e) ==> Some(e@) == template_error(self@, old(context)@),
            r matches Ok(s) ==> exists|vals: Seq<Seq<char>>|
                {
                    &&& #[trigger] vals_ok(self@.blocks, ctx_clear_values(old(context)@), vals)
                    &&& s@ == wrap_str(self@, vals)
                    &&& final(context)@ == ctx_at(
                        self@.blocks,
                        ctx_clear_values(old(context)@),
                        vals,
                        self@.blocks.len() as int,
                    )
                },
            all_det(self@.blocks) ==> (r matches Ok(s) ==> s@ == det_generate(
                self@,
                old(context)@,
            )),
            final(context)@.version == old(context)@.version,
            final(context)@.commit == old(context)@.commit,
            final(context)@.branch == old(context)@.branch,
            final(context)@.build_number == old(context)@.build_number,
            final(context)@.counters == old(context)@.counters,
    {
        let ghost ctx0 = ctx_clear_values(old(context)@);
        let ghost bv = self@.blocks;
        context.block_values = NamedMap::new();
        proof {
            assert(context@ == ctx0);
        }
        let mut parts: Vec<String> = Vec::new();
        let mut i: usize = 0;
        while i < self.blocks.len()
            invariant
                0 <= i <= self.blocks@.len(),
                bv == self@.blocks,
                bv.len() == self.blocks@.len(),
                parts.deep_view().len() == i,
                forall|j: int|
                    0 <= j < i ==> {
                        &&& block_error(#[trigger] bv[j], ctx_at(bv, ctx0, parts.deep_view(), j))
                            is None
                        &&& block_value_ok(
                            bv[j],
                            ctx_at(bv, ctx0, parts.deep_view(), j),
                            parts.deep_view()[j],
                        )
                    },
                context@ == ctx_at(bv, ctx0, parts.deep_view(), i as int),
                template_error(self@, old(context)@) == first_error_from(
                    bv,
                    context@,
                    i as int,
                ),
                context@.version == old(context)@.version,
                context@.commit == old(context)@.commit,
                context@.branch == old(context)@.branch,
                context@.build_number == old(context)@.build_number,
                context@.counters == old(context)@.counters,
            decreases self.blocks@.len() - i,
        {
            let block = &self.blocks[i];
            proof {
                assert(block@ == bv[i as int]);
            }
            let value = match block.generate_value(context) {
                Ok(v) => v,
                Err(e) => {
                    proof {
                        assert(first_error_from(bv, context@, i as int) == Some(e@));
                    }
                    return Err(e);
                },
            };
            let ghost prev_vals = parts.deep_view();
            let ghost prev_ctx = context@;
            context.set_block_value(block.name.as_str(), value.clone());
            parts.push(value);
            proof {
                assert(parts.deep_view() =~= prev_vals.push(parts@[i as int]@));
                let nv = parts.deep_view();
                assert(forall|j: int| 0 <= j < i ==> #[trigger] nv[j] == prev_vals[j]);
                lemma_ctx_at_prefix(bv, bv, ctx0, nv, prev_vals, i as int);
                assert(ctx_at(bv, ctx0, nv, i as int) == prev_ctx);
                assert(context@ == ctx_with_value(prev_ctx, bv[i as int].name, nv[i as int]));
                assert(context@ == ctx_at(bv, ctx0, nv, i + 1));
                assert forall|j: int|
                    0 <= j < i + 1 implies {
                    &&& block_error(#[trigger] bv[j], ctx_at(bv, ctx0, nv, j)) is None
                    &&& block_value_ok(bv[j], ctx_at(bv, ctx0, nv, j), nv[j])
                } by {
                    if j < i {
                        lemma_ctx_at_prefix(bv, bv, ctx0, nv, prev_vals, j);
                    } else {
                        lemma_ctx_at_prefix(bv, bv, ctx0, nv, prev_vals, j);
                        assert(ctx_at(bv, ctx0, nv, j) == prev_ctx);
                    }
                }
                let dummy = ctx_with_value(prev_ctx, bv[i as int].name, Seq::<char>::empty());
                assert(first_error_from(bv, prev_ctx, i as int) == first_error_from(
                    bv,
                    dummy,
                    i + 1,
                ));
                assert(forall|k: Seq<char>| #[trigger] dummy.block_values.contains_key(k)
                    == context@.block_values.contains_key(k));
                lemma_first_error_same(bv, dummy, context@, i + 1);
            }
            i += 1;
        }
        let joined = join_strings(&parts, self.separator.as_str());
        let mut result = match &self.prefix {
            Some(p) => {
                let mut s = p.clone();
                s.append(joined.as_str());
                s
            },
            None => joined,
        };
        match &self.suffix {
            Some(suf) => {
                result.append(suf.as_str());
            },
            None => {},
        }
        proof {
            let vals = parts.deep_view();
            assert(result@ =~= wrap_str(self@, vals));
            assert(vals_ok(bv, ctx0, vals));
            if all_det(self@.blocks) {
                lemma_det_vals_agree(bv, ctx0, vals);
                assert(vals == det_vals(bv, ctx0));
            }
        }
        Ok(result)
    }
}

} // verus!
