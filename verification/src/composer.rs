//! The composer: a named collection of templates and persistent counters,
//! resolving a template name to a generated version string.

use vstd::prelude::*;
use vstd::string::StringExecFns;
use crate::named_map::NamedMap;
use crate::blocks::{
    VersionBlock, BlockType, BlockTypeView, BlockView, VersionContext, VersionTemplate,
    TemplateView, CtxView, EvalError, EvalErrorView, template_error, vals_ok, wrap_str, all_det,
    det_generate, ctx_clear_values,
};
use crate::strutil::{all_digits, dec_val, split_str, split_char, parse_u32};

verus! {

/// Reads a `name:value` counter assignment.
///
/// Accepts exactly the strings with one colon whose second part is a
/// decimal `u32`, and hands back the name and the value.
pub fn parse_counter_set(s: &str) -> (r: Result<(String, u32), String>)
    ensures
        r is Ok <==> (split_str(s@, ':').len() == 2 && split_str(s@, ':')[1].len() > 0
            && all_digits(split_str(s@, ':')[1]) && dec_val(split_str(s@, ':')[1])
            <= u32::MAX),
        r matches Ok(p) ==> p.0@ == split_str(s@, ':')[0] && p.1 == dec_val(
            split_str(s@, ':')[1],
        ),
{
    let mut parts = split_char(s, ':');
    if parts.len() != 2 {
        return Err(String::from_str("Expected format: counter_name:value"));
    }
    proof {
        assert(parts.deep_view()[1] == parts@[1]@);
        assert(parts.deep_view()[0] == parts@[0]@);
    }
    let value = match parse_u32(parts[1].as_str()) {
        Some(v) => v,
        None => {
            return Err(String::from_str("Invalid number"));
        },
    };
    let name = parts.remove(0);
    Ok((name, value))
}

/// Why a composer could not generate a version.
#[derive(Debug)]
pub enum ComposerError {
    /// No template name was given and no default is set.
    NoTemplateSelected,
    /// The resolved name matches no registered template.
    TemplateNotFound { name: String },
    /// The resolved template failed to evaluate.
    Eval { error: EvalError },
}

/// The mathematical value of a [`ComposerError`].
pub enum ComposerErrorView {
    NoTemplateSelected,
    TemplateNotFound { name: Seq<char> },
    Eval { error: EvalErrorView },
}

impl View for ComposerError {
    type V = ComposerErrorView;

    open spec fn view(&self) -> ComposerErrorView {
        match self {
            ComposerError::NoTemplateSelected => ComposerErrorView::NoTemplateSelected,
            ComposerError::TemplateNotFound { name } => ComposerErrorView::TemplateNotFound {
                name: name@,
            },
            ComposerError::Eval { error } => ComposerErrorView::Eval { error: error@ },
        }
    }
}

impl ComposerError {
    /// A description of the failure, naming the offending input.
    pub fn message(&self) -> (r: String)
        ensures
            r@ == (match self@ {
                ComposerErrorView::NoTemplateSelected =>
                    "No template specified and no default template set"@,
                ComposerErrorView::TemplateNotFound { name } => "Template '"@ + name
                    + "' not found"@,
                ComposerErrorView::Eval { error } => match error {
                    EvalErrorView::Reference { name } => "Referenced version block '"@ + name
                        + "' not found"@,
                    EvalErrorView::Parse { input } => "Invalid version string '"@ + input + "'"@,
                },
            }),
    {
        match self {
            ComposerError::NoTemplateSelected => String::from_str(
                "No template specified and no default template set",
            ),
            ComposerError::TemplateNotFound { name } => {
                let mut s = String::from_str("Template '");
                s.append(name.as_str());
                s.append("' not found");
                s
            },
            ComposerError::Eval { error } => error.message(),
        }
    }
}

/// The value an increment leaves in a counter: one past the counter's
/// value, or 1 for an unseen name.
pub open spec fn counter_inc_value(m: Map<Seq<char>, u32>, name: Seq<char>) -> int {
    if m.contains_key(name) {
        m[name] + 1
    } else {
        1
    }
}

/// A fresh counter's first increment yields 1 and a second increment on
/// the same name yields 2, while an increment of another unseen name
/// still yields 1, whatever the other counters hold.
pub proof fn lemma_counter_increments(c0: Map<Seq<char>, u32>, a: Seq<char>, b: Seq<char>)
    requires
        !c0.contains_key(a),
        !c0.contains_key(b),
        a != b,
    ensures
        counter_inc_value(c0, a) == 1,
        counter_inc_value(c0.insert(a, 1), a) == 2,
        counter_inc_value(c0.insert(a, 1).insert(a, 2), b) == 1,
{
}

/// The owner of named templates and persistent counters.
#[derive(Debug)]
pub struct VersionComposer {
    pub templates: NamedMap<VersionTemplate>,
    pub counters: NamedMap<u32>,
    pub default_template: Option<String>,
}

/// The mathematical value of a [`VersionComposer`].
pub struct ComposerView {
    pub templates: Map<Seq<char>, TemplateView>,
    pub counters: Map<Seq<char>, u32>,
    pub default_template: Option<Seq<char>>,
}

impl View for VersionComposer {
    type V = ComposerView;

    open spec fn view(&self) -> ComposerView {
        ComposerView {
            templates: self.templates@,
            counters: self.counters@,
            default_template: crate::blocks::opt_str_view(self.default_template),
        }
    }
}

/// The name a generation request resolves to: the explicit argument, else
/// the composer's default.
pub open spec fn resolved_name(
    c: ComposerView,
    template_name: Option<Seq<char>>,
) -> Option<Seq<char>> {
    match template_name {
        Some(n) => Some(n),
        None => c.default_template,
    }
}

/// The context a generation run starts from: the composer's counters and
/// nothing else.
pub open spec fn base_ctx(c: ComposerView) -> CtxView {
    CtxView {
        version: None,
        commit: None,
        branch: None,
        build_number: None,
        counters: c.counters,
        block_values: Map::empty(),
    }
}

/// The base context with a caller's overrides merged over it: the
/// caller's current fields win, and its counters override the composer's
/// name by name.
pub open spec fn merged_ctx(c: ComposerView, o: CtxView) -> CtxView {
    CtxView {
        version: o.version,
        commit: o.commit,
        branch: o.branch,
        build_number: o.build_number,
        counters: c.counters.union_prefer_right(o.counters),
        block_values: Map::empty(),
    }
}

/// How one generation run relates to the resolved template and starting
/// context: it fails exactly on [`template_error`], and a produced string
/// wraps a value sequence that [`vals_ok`] admits — exactly
/// [`det_generate`] when every block is deterministic.
pub open spec fn generation_post(
    t: TemplateView,
    ctx: CtxView,
    r: Result<String, ComposerError>,
) -> bool {
    &&& (r is Ok <==> template_error(t, ctx) is None)
    &&& (r matches Err(e) ==> Some(e@) == (match template_error(t, ctx) {
        Some(err) => Some(ComposerErrorView::Eval { error: err }),
        None => None,
    }))
    &&& (r matches Ok(s) ==> exists|vals: Seq<Seq<char>>|
        {
            &&& #[trigger] vals_ok(t.blocks, ctx_clear_values(ctx), vals)
            &&& s@ == wrap_str(t, vals)
        })
    &&& (all_det(t.blocks) ==> (r matches Ok(s) ==> s@ == det_generate(t, ctx)))
}

/// How resolution and generation together relate to a composer's state.
pub open spec fn generate_post(
    c: ComposerView,
    template_name: Option<Seq<char>>,
    ctx: CtxView,
    r: Result<String, ComposerError>,
) -> bool {
    match resolved_name(c, template_name) {
        None => r matches Err(e) && e@ == ComposerErrorView::NoTemplateSelected,
        Some(n) => {
            if !c.templates.contains_key(n) {
                r matches Err(e) && e@ == (ComposerErrorView::TemplateNotFound { name: n })
            } else {
                generation_post(c.templates[n], ctx, r)
            }
        },
    }
}

impl VersionComposer {
    /// A composer with no templates, no counters and no default.
    pub fn new() -> (r: Self)
        ensures
            r@ == (ComposerView {
                templates: Map::empty(),
                counters: Map::empty(),
                default_template: None,
            }),
    {
        VersionComposer {
            templates: NamedMap::new(),
            counters: NamedMap::new(),
            default_template: None,
        }
    }

    /// The composer with a template registered under its own name, an
    /// existing template of that name replaced.
    pub fn with_template(self, template: VersionTemplate) -> (r: Self)
        ensures
            r@ == (ComposerView {
                templates: self@.templates.insert(template@.name, template@),
                ..self@
            }),
    {
        let mut c = self;
        let name = template.name.clone();
        c.templates.insert(name.as_str(), template);
        c
    }

    /// The composer with its default template name set.
    pub fn with_default_template(self, template_name: &str) -> (r: Self)
        ensures
            r@ == (ComposerView { default_template: Some(template_name@), ..self@ }),
    {
        VersionComposer { default_template: Some(template_name.to_owned()), ..self }
    }

    /// Registers a template under its own name; the last registration of
    /// a name wins.
    pub fn add_template(&mut self, template: VersionTemplate)
        ensures
            final(self)@ == (ComposerView {
                templates: old(self)@.templates.insert(template@.name, template@),
                ..old(self)@
            }),
    {
        let name = template.name.clone();
        self.templates.insert(name.as_str(), template);
    }

    /// The registered template of a name, if any.
    pub fn get_template(&self, name: &str) -> (r: Option<&VersionTemplate>)
        ensures
            match r {
                Some(t) => self@.templates.contains_key(name@) && t@ == self@.templates[name@],
                None => !self@.templates.contains_key(name@),
            },
    {
        self.templates.get(name)
    }

    /// Sets a counter to a value.
    pub fn set_counter(&mut self, name: &str, value: u32)
        ensures
            final(self)@ == (ComposerView {
                counters: old(self)@.counters.insert(name@, value),
                ..old(self)@
            }),
    {
        self.counters.insert(name, value);
    }

    /// Raises a counter by one, an unseen name starting from zero, and
    /// returns the new value.
    pub fn increment_counter(&mut self, name: &str) -> (r: u32)
        requires
            old(self)@.counters.contains_key(name@) ==> old(self)@.counters[name@] < u32::MAX,
        ensures
            r as int == counter_inc_value(old(self)@.counters, name@),
            final(self)@ == (ComposerView {
                counters: old(self)@.counters.insert(name@, r),
                ..old(self)@
            }),
    {
        let current: u32 = match self.counters.get(name) {
            Some(v) => *v,
            None => 0,
        };
        let new_value = current + 1;
        self.counters.insert(name, new_value);
        new_value
    }

    /// The registered template names, each once.
    pub fn list_templates(&self) -> (r: Vec<String>)
        ensures
            forall|k: Seq<char>| self@.templates.contains_key(k) <==> exists|i: int|
                0 <= i < r@.len() && #[trigger] r@[i]@ == k,
            forall|i: int, j: int| 0 <= i < j < r@.len() ==> r@[i]@ != r@[j]@,
    {
        self.templates.keys()
    }

    /// The context a generation run starts from, seeded with the
    /// composer's counters.
    fn build_context(&self) -> (r: VersionContext)
        ensures
            r@ == base_ctx(self@),
    {
        let mut ctx = VersionContext::new();
        ctx.counters = self.counters.duplicate();
        ctx
    }

    /// Resolves a template name — the argument, else the default — and
    /// generates from the composer's own counters, as [`generate_post`]
    /// says. The composer itself is left unchanged.
    pub fn generate_version(&mut self, template_name: Option<&str>) -> (r: Result<
        String,
        ComposerError,
    >)
        ensures
            final(self)@ == old(self)@,
            generate_post(
                old(self)@,
                match template_name {
                    Some(n) => Some(n@),
                    None => None,
                },
                base_ctx(old(self)@),
                r,
            ),
    {
        let name: &str = match template_name {
            Some(n) => n,
            None => match &self.default_template {
                Some(d) => d.as_str(),
                None => {
                    return Err(ComposerError::NoTemplateSelected);
                },
            },
        };
        let template = match self.templates.get(name) {
            Some(t) => t,
            None => {
                return Err(ComposerError::TemplateNotFound { name: name.to_owned() });
            },
        };
        let mut context = VersionContext::new();
        context.counters = self.counters.duplicate();
        proof {
            assert(context@ == base_ctx(self@));
            assert(ctx_clear_values(context@) == base_ctx(self@));
        }
        match template.generate(&mut context) {
            Ok(s) => Ok(s),
            Err(e) => Err(ComposerError::Eval { error: e }),
        }
    }

    /// Like [`Self::generate_version`], but with a caller-supplied context
    /// merged over the base one: the caller's fields win, its counters
    /// override the composer's name by name, and everything else of the
    /// composer's counters is retained.
    pub fn generate_version_with_context(
        &mut self,
        template_name: Option<&str>,
        context: VersionContext,
    ) -> (r: Result<String, ComposerError>)
        ensures
            final(self)@ == old(self)@,
            generate_post(
                old(self)@,
                match template_name {
                    Some(n) => Some(n@),
                    None => None,
                },
                merged_ctx(old(self)@, context@),
                r,
            ),
    {
        let name: &str = match template_name {
            Some(n) => n,
            None => match &self.default_template {
                Some(d) => d.as_str(),
                None => {
                    return Err(ComposerError::NoTemplateSelected);
                },
            },
        };
        let template = match self.templates.get(name) {
            Some(t) => t,
            None => {
                return Err(ComposerError::TemplateNotFound { name: name.to_owned() });
            },
        };
        let VersionContext {
            current_version,
            current_commit,
            current_branch,
            build_number,
            counters,
            block_values: _,
        } = context;
        let mut merged = VersionContext::new();
        merged.counters = self.counters.duplicate();
        merged.current_version = current_version;
        merged.current_commit = current_commit;
        merged.current_branch = current_branch;
        merged.build_number = build_number;
        merged.counters.absorb(&counters);
        proof {
            assert(merged@ == merged_ctx(self@, context@));
            assert(ctx_clear_values(merged@) == merged_ctx(self@, context@));
        }
        match template.generate(&mut merged) {
            Ok(s) => Ok(s),
            Err(e) => Err(ComposerError::Eval { error: e }),
        }
    }
}

/// A declarative composer description: templates, counters and an
/// optional default, as a configuration file holds them.
#[derive(Debug)]
pub struct ComposerConfig {
    pub default_template: Option<String>,
    pub counters: NamedMap<u32>,
    pub templates: Vec<VersionTemplate>,
}

/// The mathematical value of a [`ComposerConfig`].
pub struct ComposerConfigView {
    pub default_template: Option<Seq<char>>,
    pub counters: Map<Seq<char>, u32>,
    pub templates: Seq<TemplateView>,
}

impl View for ComposerConfig {
    type V = ComposerConfigView;

    open spec fn view(&self) -> ComposerConfigView {
        ComposerConfigView {
            default_template: crate::blocks::opt_str_view(self.default_template),
            counters: self.counters@,
            templates: Seq::new(self.templates@.len() as nat, |i: int| self.templates@[i]@),
        }
    }
}

/// The template map a configuration's template list denotes: each
/// template under its own name, a later one of the same name winning.
pub open spec fn templates_map(ts: Seq<TemplateView>) -> Map<Seq<char>, TemplateView>
    decreases ts.len(),
{
    if ts.len() == 0 {
        Map::empty()
    } else {
        templates_map(ts.drop_last()).insert(ts.last().name, ts.last())
    }
}

impl ComposerConfig {
    /// An empty configuration.
    pub fn new() -> (r: Self)
        ensures
            r@ == (ComposerConfigView {
                default_template: None,
                counters: Map::empty(),
                templates: Seq::empty(),
            }),
    {
        let r = ComposerConfig {
            default_template: None,
            counters: NamedMap::new(),
            templates: Vec::new(),
        };
        proof {
            assert(r@.templates =~= Seq::<TemplateView>::empty());
        }
        r
    }

    /// Appends a template to the configuration.
    pub fn add_template(&mut self, template: VersionTemplate)
        ensures
            final(self)@ == (ComposerConfigView {
                templates: old(self)@.templates.push(template@),
                ..old(self)@
            }),
    {
        let ghost prev = self@.templates;
        self.templates.push(template);
        proof {
            assert(self@.templates =~= prev.push(self.templates@.last()@));
        }
    }

    /// Sets a counter's starting value.
    pub fn set_counter(&mut self, name: &str, value: u32)
        ensures
            final(self)@ == (ComposerConfigView {
                counters: old(self)@.counters.insert(name@, value),
                ..old(self)@
            }),
    {
        self.counters.insert(name, value);
    }

    /// Sets the default template name.
    pub fn set_default_template(&mut self, template_name: &str)
        ensures
            final(self)@ == (ComposerConfigView {
                default_template: Some(template_name@),
                ..old(self)@
            }),
    {
        self.default_template = Some(template_name.to_owned());
    }
}

impl VersionComposer {
    /// A composer built from a configuration: its default name, its
    /// counters, and its templates registered in order under their names.
    pub fn from_config(config: &ComposerConfig) -> (r: Self)
        ensures
            r@ == (ComposerView {
                templates: templates_map(config@.templates),
                counters: config@.counters,
                default_template: config@.default_template,
            }),
    {
        let mut composer = VersionComposer::new();
        composer.default_template = match &config.default_template {
            Some(d) => Some(d.clone()),
            None => None,
        };
        composer.counters.absorb(&config.counters);
        proof {
            assert(Map::<Seq<char>, u32>::empty().union_prefer_right(config@.counters)
                =~= config@.counters);
            assert(templates_map(config@.templates.take(0)) =~= Map::<
                Seq<char>,
                TemplateView,
            >::empty());
        }
        let mut i: usize = 0;
        while i < config.templates.len()
            invariant
                0 <= i <= config.templates@.len(),
                config@.templates.len() == config.templates@.len(),
                composer@.templates == templates_map(config@.templates.take(i as int)),
                composer@.counters == config@.counters,
                composer@.default_template == config@.default_template,
            decreases config.templates@.len() - i,
        {
            composer.add_template(config.templates[i].clone());
            proof {
                assert(config@.templates.take(i + 1).drop_last() =~= config@.templates.take(
                    i as int,
                ));
                assert(config@.templates.take(i + 1).last() == config@.templates[i as int]);
            }
            i += 1;
        }
        proof {
            assert(config@.templates.take(config.templates@.len() as int) =~= config@.templates);
        }
        composer
    }
}

/// Ready-made templates for the common version shapes.
impl VersionTemplate {
    /// One semantic block named `version`.
    pub fn semantic_version() -> (r: Self)
        ensures
            r@.name == "semantic"@,
            r@.blocks.len() == 1,
            r@.blocks[0].name == "version"@,
            r@.blocks[0].block_type == (BlockTypeView::Semantic {
                major: None,
                minor: None,
                patch: None,
            }),
            r@.separator == "."@,
            r@.prefix is None,
            r@.suffix is None,
    {
        VersionTemplate::new("semantic").add_block(
            VersionBlock::new(
                "version",
                BlockType::Semantic { major: None, minor: None, patch: None },
            ),
        )
    }

    /// One calendar block in dotted two-digit form.
    pub fn calver_short() -> (r: Self)
        ensures
            r@.name == "calver-short"@,
            r@.blocks.len() == 1,
            r@.blocks[0].name == "date"@,
            r@.blocks[0].block_type == (BlockTypeView::Calver {
                year: None,
                month: None,
                day: None,
            }),
            r@.blocks[0].format == Some("YY.MM.DD"@),
            r@.separator == "."@,
    {
        VersionTemplate::new("calver-short").add_block(
            VersionBlock::new(
                "date",
                BlockType::Calver { year: None, month: None, day: None },
            ).with_format("YY.MM.DD"),
        )
    }

    /// One calendar block with a four-digit year.
    pub fn calver_long() -> (r: Self)
        ensures
            r@.name == "calver-long"@,
            r@.blocks.len() == 1,
            r@.blocks[0].name == "date"@,
            r@.blocks[0].block_type == (BlockTypeView::Calver {
                year: None,
                month: None,
                day: None,
            }),
            r@.blocks[0].format == Some("YYYY.MM.DD"@),
    {
        VersionTemplate::new("calver-long").add_block(
            VersionBlock::new(
                "date",
                BlockType::Calver { year: None, month: None, day: None },
            ).with_format("YYYY.MM.DD"),
        )
    }

    /// A semantic block and a timestamp block, dash-separated.
    pub fn timestamped() -> (r: Self)
        ensures
            r@.name == "timestamped"@,
            r@.blocks.len() == 2,
            r@.blocks[0].name == "version"@,
            r@.blocks[0].block_type == (BlockTypeView::Semantic {
                major: None,
                minor: None,
                patch: None,
            }),
            r@.blocks[1].name == "timestamp"@,
            r@.blocks[1].block_type == BlockTypeView::Timestamp,
            r@.separator == "-"@,
    {
        VersionTemplate::new("timestamped").with_separator("-").add_block(
            VersionBlock::new(
                "version",
                BlockType::Semantic { major: None, minor: None, patch: None },
            ),
        ).add_block(VersionBlock::new("timestamp", BlockType::Timestamp))
    }

    /// A semantic block and a commit block, dash-separated.
    pub fn commit_based() -> (r: Self)
        ensures
            r@.name == "commit-based"@,
            r@.blocks.len() == 2,
            r@.blocks[0].name == "version"@,
            r@.blocks[0].block_type == (BlockTypeView::Semantic {
                major: None,
                minor: None,
                patch: None,
            }),
            r@.blocks[1].name == "commit"@,
            r@.blocks[1].block_type == BlockTypeView::Commit,
            r@.separator == "-"@,
    {
        VersionTemplate::new("commit-based").with_separator("-").add_block(
            VersionBlock::new(
                "version",
                BlockType::Semantic { major: None, minor: None, patch: None },
            ),
        ).add_block(VersionBlock::new("commit", BlockType::Commit))
    }

    /// A semantic block and a build-number block, dash-separated.
    pub fn build_numbered() -> (r: Self)
        ensures
            r@.name == "build-numbered"@,
            r@.blocks.len() == 2,
            r@.blocks[0].name == "version"@,
            r@.blocks[0].block_type == (BlockTypeView::Semantic {
                major: None,
                minor: None,
                patch: None,
            }),
            r@.blocks[1].name == "build"@,
            r@.blocks[1].block_type == BlockTypeView::BuildNumber,
            r@.separator == "-"@,
    {
        VersionTemplate::new("build-numbered").with_separator("-").add_block(
            VersionBlock::new(
                "version",
                BlockType::Semantic { major: None, minor: None, patch: None },
            ),
        ).add_block(VersionBlock::new("build", BlockType::BuildNumber))
    }

    /// An empty template under a caller-chosen name.
    pub fn custom(name: &str) -> (r: Self)
        ensures
            r@.name == name@,
            r@.blocks =~= Seq::<BlockView>::empty(),
            r@.separator == "."@,
            r@.prefix is None,
            r@.suffix is None,
    {
        VersionTemplate::new(name)
    }
}

} // verus!
