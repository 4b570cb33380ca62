//! Per-language configuration: its formats, how configs combine, and a loader
//! that resolves `extends` chains with a cache.
use vstd::prelude::*;
use std::rc::Rc;
use vstd::string::StrSliceExecFns;
use vstd::string::StringExecFns;
use crate::language_name::LanguageName;
use crate::multi_line_string::{join_lines, MultiLineString};
use crate::text::{debug_quoted, debug_string, str_eq, trim_leading_white_space, trim_start};
use crate::language_name::{language_known, legacy_language, resolve_name};
use crate::text::unicode_lowercase;

verus! {

/// Where to get a tree-sitter parser from.
#[derive(Debug)]
pub enum ParserSource {
    /// A grammar directory on disk.
    AbsolutePath(String),
    /// A git repository, checked out at a commit.
    GitSource(GitSource),
    /// A tarball, checked against a hash.
    TarballSource(TarballSource),
    /// A parser compiled into this program.
    Static(String),
}

#[derive(Debug)]
pub struct GitSource {
    pub clone: String,
    pub commit: String,
    pub subdirectory: Option<String>,
}

#[derive(Debug)]
pub struct TarballSource {
    /// finally loads `tree_sitter_{name}` from `{name}.so`
    pub name: String,
    pub url: String,
    pub sha256hex: String,
    pub subdirectory: String,
}

pub fn copy_opt_string(s: &Option<String>) -> (r: Option<String>)
    ensures
        r == *s,
{
    match s {
        Some(x) => Some(x.clone()),
        None => None,
    }
}

/// A copy of the strings of `v`.
pub fn copy_strings(v: &Vec<String>) -> (r: Vec<String>)
    ensures
        r@ == v@,
{
    let mut out: Vec<String> = Vec::new();
    let mut i: usize = 0;
    while i < v.len()
        invariant
            0 <= i <= v.len(),
            out@ == v@.take(i as int),
        decreases v.len() - i,
    {
        out.push(v[i].clone());
        i = i + 1;
    }
    assert(v@.take(v.len() as int) == v@);
    out
}

pub fn copy_opt_strings(v: &Option<Vec<String>>) -> (r: Option<Vec<String>>)
    ensures
        r matches Some(x) ==> v matches Some(y) && x@ == y@,
        r is None <==> v is None,
{
    match v {
        Some(x) => Some(copy_strings(x)),
        None => None,
    }
}

impl GitSource {
    pub fn duplicate(&self) -> (r: Self)
        ensures
            r == *self,
    {
        GitSource {
            clone: self.clone.clone(),
            commit: self.commit.clone(),
            subdirectory: copy_opt_string(&self.subdirectory),
        }
    }
}

impl TarballSource {
    pub fn duplicate(&self) -> (r: Self)
        ensures
            r == *self,
    {
        TarballSource {
            name: self.name.clone(),
            url: self.url.clone(),
            sha256hex: self.sha256hex.clone(),
            subdirectory: self.subdirectory.clone(),
        }
    }
}

impl ParserSource {
    pub fn duplicate(&self) -> (r: Self)
        ensures
            r == *self,
    {
        match self {
            ParserSource::AbsolutePath(p) => ParserSource::AbsolutePath(p.clone()),
            ParserSource::GitSource(g) => ParserSource::GitSource(g.duplicate()),
            ParserSource::TarballSource(t) => ParserSource::TarballSource(t.duplicate()),
            ParserSource::Static(s) => ParserSource::Static(s.clone()),
        }
    }
}

pub fn copy_opt_parser(p: &Option<ParserSource>) -> (r: Option<ParserSource>)
    ensures
        r == *p,
{
    match p {
        Some(x) => Some(x.duplicate()),
        None => None,
    }
}

/// The per-language config format (version 4); every field may be left out.
#[derive(Debug)]
pub struct LanguageConfigV4 {
    pub version: u64,
    pub parser: Option<ParserSource>,
    pub extends: Option<String>,
    pub definition_query: Option<String>,
    pub sibling_node_types: Option<Vec<String>>,
    pub parent_query: Option<String>,
    pub recurse_query: Option<String>,
    pub import_query: Option<String>,
    pub injection_query: Option<String>,
}

pub use LanguageConfigV4 as LanguageConfig;

/// What a [`LanguageConfig`] holds, with its strings as character sequences.
pub ghost struct ConfigModel {
    pub version: u64,
    pub parser: Option<ParserSource>,
    pub extends: Option<Seq<char>>,
    pub definition_query: Option<Seq<char>>,
    pub sibling_node_types: Option<Seq<Seq<char>>>,
    pub parent_query: Option<Seq<char>>,
    pub recurse_query: Option<Seq<char>>,
    pub import_query: Option<Seq<char>>,
    pub injection_query: Option<Seq<char>>,
}

pub open spec fn opt_view(s: Option<String>) -> Option<Seq<char>> {
    match s {
        Some(x) => Some(x@),
        None => None,
    }
}

pub open spec fn strings_view(v: Seq<String>) -> Seq<Seq<char>> {
    v.map_values(|s: String| s@)
}

pub open spec fn opt_strings_view(v: Option<Vec<String>>) -> Option<Seq<Seq<char>>> {
    match v {
        Some(x) => Some(strings_view(x@)),
        None => None,
    }
}

impl LanguageConfigV4 {
    pub open spec fn model(&self) -> ConfigModel {
        ConfigModel {
            version: self.version,
            parser: self.parser,
            extends: opt_view(self.extends),
            definition_query: opt_view(self.definition_query),
            sibling_node_types: opt_strings_view(self.sibling_node_types),
            parent_query: opt_view(self.parent_query),
            recurse_query: opt_view(self.recurse_query),
            import_query: opt_view(self.import_query),
            injection_query: opt_view(self.injection_query),
        }
    }

    /// A config with every field left out.
    pub fn empty(version: u64) -> (r: Self)
        ensures
            r.model() == (ConfigModel {
                version,
                parser: None,
                extends: None,
                definition_query: None,
                sibling_node_types: None,
                parent_query: None,
                recurse_query: None,
                import_query: None,
                injection_query: None,
            }),
    {
        LanguageConfigV4 {
            version,
            parser: None,
            extends: None,
            definition_query: None,
            sibling_node_types: None,
            parent_query: None,
            recurse_query: None,
            import_query: None,
            injection_query: None,
        }
    }

    pub fn duplicate(&self) -> (r: Self)
        ensures
            r.model() == self.model(),
    {
        let sibs = copy_opt_strings(&self.sibling_node_types);
        let r = LanguageConfigV4 {
            version: self.version,
            parser: copy_opt_parser(&self.parser),
            extends: copy_opt_string(&self.extends),
            definition_query: copy_opt_string(&self.definition_query),
            sibling_node_types: sibs,
            parent_query: copy_opt_string(&self.parent_query),
            recurse_query: copy_opt_string(&self.recurse_query),
            import_query: copy_opt_string(&self.import_query),
            injection_query: copy_opt_string(&self.injection_query),
        };
        assert(opt_strings_view(r.sibling_node_types) == opt_strings_view(self.sibling_node_types));
        r
    }
}

/// `t` begins with `...`.
pub open spec fn starts_with_ellipsis(t: Seq<char>) -> bool {
    t.len() >= 3 && t[0] == '.' && t[1] == '.' && t[2] == '.'
}

/// A query of an extending config, combined with the query of the config it extends:
/// an extension that starts with `...` (after white space) is appended to the base,
/// any other extension replaces it (without its leading white space), and a missing
/// extension keeps the base.
pub open spec fn combine_queries_spec(base: Option<Seq<char>>, extension: Option<Seq<char>>) -> Option<Seq<char>> {
    match extension {
        None => base,
        Some(e) => {
            let t = trim_leading_white_space(e);
            if starts_with_ellipsis(t) {
                match base {
                    None => Some(t.skip(3)),
                    Some(b) => Some(b + t.skip(3)),
                }
            } else {
                Some(t)
            }
        },
    }
}

/// Combine a query of an extending config with the query of the config it extends.
pub fn combine_queries(base: Option<&String>, extension: Option<String>) -> (r: Option<String>)
    ensures
        opt_view(r) == combine_queries_spec(
            match base { Some(b) => Some(b@), None => None },
            opt_view(extension),
        ),
{
    match extension {
        None => match base {
            None => None,
            Some(b) => Some(b.clone()),
        },
        Some(e) => {
            let t = trim_start(e.as_str());
            let n = t.as_str().unicode_len();
            let is_concat = n >= 3 && t.as_str().get_char(0) == '.' && t.as_str().get_char(1) == '.'
                && t.as_str().get_char(2) == '.';
            if is_concat {
                let rest = t.as_str().substring_char(3, n);
                assert(rest@ == t@.skip(3));
                match base {
                    None => Some(String::from_str(rest)),
                    Some(b) => Some(b.clone().concat(rest)),
                }
            } else {
                Some(t)
            }
        },
    }
}

/// `v` after `Vec::swap_remove(0)`: the last item takes the place of the first.
pub open spec fn swap_remove_first<A>(v: Seq<A>) -> Seq<A> {
    v.update(0, v.last()).drop_last()
}

/// The sibling node types of an extending config, combined with those of its base:
/// a list that starts with `...` drops that marker (the last item moves into its
/// place) and then has the base's types appended; a missing list takes the base's;
/// any other list stays as it is.
pub open spec fn combine_siblings_spec(base: Option<Seq<Seq<char>>>, own: Option<Seq<Seq<char>>>) -> Option<Seq<Seq<char>>> {
    let is_concat = own matches Some(v) && v.len() > 0 && v[0] == "..."@;
    let own2 = if is_concat { Some(swap_remove_first(own->Some_0)) } else { own };
    match base {
        Some(bs) => match own2 {
            Some(s) => if is_concat { Some(s + bs) } else { own2 },
            None => Some(bs),
        },
        None => own2,
    }
}

/// The config `m` on top of the config `base` it extends.
pub open spec fn rebase_spec(m: ConfigModel, base: ConfigModel) -> ConfigModel {
    ConfigModel {
        version: m.version,
        parser: if m.parser is None { base.parser } else { m.parser },
        extends: base.extends,
        definition_query: combine_queries_spec(base.definition_query, m.definition_query),
        sibling_node_types: combine_siblings_spec(base.sibling_node_types, m.sibling_node_types),
        parent_query: combine_queries_spec(base.parent_query, m.parent_query),
        recurse_query: combine_queries_spec(base.recurse_query, m.recurse_query),
        import_query: combine_queries_spec(base.import_query, m.import_query),
        injection_query: combine_queries_spec(base.injection_query, m.injection_query),
    }
}

pub open spec fn override_opt<A>(own: Option<A>, replacement: Option<A>) -> Option<A> {
    if replacement is Some { replacement } else { own }
}

/// The config `m` with each field that `r` sets taken from `r` (all but `version` and `extends`).
pub open spec fn replace_spec(m: ConfigModel, r: ConfigModel) -> ConfigModel {
    ConfigModel {
        version: m.version,
        parser: override_opt(m.parser, r.parser),
        extends: m.extends,
        definition_query: override_opt(m.definition_query, r.definition_query),
        sibling_node_types: override_opt(m.sibling_node_types, r.sibling_node_types),
        parent_query: override_opt(m.parent_query, r.parent_query),
        recurse_query: override_opt(m.recurse_query, r.recurse_query),
        import_query: override_opt(m.import_query, r.import_query),
        injection_query: override_opt(m.injection_query, r.injection_query),
    }
}

fn take_opt(s: &mut Option<String>) -> (r: Option<String>)
    ensures
        r == *old(s),
        *final(s) is None,
{
    let r = match s {
        Some(x) => Some(x.clone()),
        None => None,
    };
    *s = None;
    r
}

fn opt_ref(s: &Option<String>) -> (r: Option<&String>)
    ensures
        match r { Some(b) => Some(b@), None => None } == opt_view(*s),
{
    match s {
        Some(x) => Some(x),
        None => None,
    }
}

impl LanguageConfigV4 {
    /// Put this config on top of the config `base` that it extends.
    pub fn rebase(&mut self, base: &LanguageConfig)
        ensures
            final(self).model() == rebase_spec(old(self).model(), base.model()),
    {
        if self.parser.is_none() {
            self.parser = copy_opt_parser(&base.parser);
        }
        self.extends = copy_opt_string(&base.extends);

        let d = take_opt(&mut self.definition_query);
        self.definition_query = combine_queries(opt_ref(&base.definition_query), d);

        // combine sibling nodes
        let ghost own = opt_strings_view(self.sibling_node_types);
        let is_concat = match &self.sibling_node_types {
            Some(v) => v.len() > 0 && crate::text::str_eq(v[0].as_str(), "..."),
            None => false,
        };
        assert(is_concat == (own matches Some(v) && v.len() > 0 && v[0] == "..."@));
        let mut sibs = match &self.sibling_node_types {
            Some(v) => Some(copy_strings(v)),
            None => None,
        };
        if is_concat {
            match &mut sibs {
                Some(v) => {
                    let ghost before = v@;
                    v.swap_remove(0);
                    assert(strings_view(v@) == swap_remove_first(strings_view(before)));
                },
                None => {},
            }
        }
        let ghost own2 = opt_strings_view(sibs);
        match &base.sibling_node_types {
            Some(base_sibs) => match &mut sibs {
                Some(v) => {
                    if is_concat {
                        let ghost before = v@;
                        let more = copy_strings(base_sibs);
                        let mut i: usize = 0;
                        while i < more.len()
                            invariant
                                0 <= i <= more.len(),
                                v@ == before + more@.take(i as int),
                            decreases more.len() - i,
                        {
                            v.push(more[i].clone());
                            i = i + 1;
                        }
                        assert(more@.take(more.len() as int) == more@);
                        assert(strings_view(v@) == strings_view(before) + strings_view(base_sibs@));
                    }
                },
                None => {
                    sibs = Some(copy_strings(base_sibs));
                },
            },
            None => {},
        }
        self.sibling_node_types = sibs;

        let p = take_opt(&mut self.parent_query);
        self.parent_query = combine_queries(opt_ref(&base.parent_query), p);
        let rq = take_opt(&mut self.recurse_query);
        self.recurse_query = combine_queries(opt_ref(&base.recurse_query), rq);
        let iq = take_opt(&mut self.import_query);
        self.import_query = combine_queries(opt_ref(&base.import_query), iq);
        let jq = take_opt(&mut self.injection_query);
        self.injection_query = combine_queries(opt_ref(&base.injection_query), jq);
    }

    /// Take from `replacements` every field that it sets, except `version` and `extends`.
    pub fn replace(&mut self, replacements: LanguageConfig)
        ensures
            final(self).model() == replace_spec(old(self).model(), replacements.model()),
    {
        if let Some(parser) = replacements.parser {
            self.parser = Some(parser);
        }
        if let Some(x) = replacements.definition_query {
            self.definition_query = Some(x);
        }
        if let Some(x) = replacements.sibling_node_types {
            self.sibling_node_types = Some(x);
        }
        if let Some(x) = replacements.parent_query {
            self.parent_query = Some(x);
        }
        if let Some(x) = replacements.recurse_query {
            self.recurse_query = Some(x);
        }
        if let Some(x) = replacements.import_query {
            self.import_query = Some(x);
        }
        if let Some(x) = replacements.injection_query {
            self.injection_query = Some(x);
        }
    }
}

/// The config format of the first three versions (v1 and v2 share it).
#[derive(Debug)]
pub struct LanguageConfigV1 {
    pub parser: Option<ParserSource>,
    pub match_patterns: Vec<MultiLineString>,
    pub sibling_patterns: Vec<String>,
    pub parent_patterns: Vec<String>,
    pub parent_exclusions: Vec<String>,
    pub recurse_patterns: Option<Vec<MultiLineString>>,
    pub import_patterns: Option<Vec<MultiLineString>>,
    pub comments: Option<Vec<String>>,
}

/// The per-language part of a version 3 config.
#[derive(Debug)]
pub struct LanguageConfigV3 {
    pub parser: Option<ParserSource>,
    pub extends: Option<String>,
    pub definition_query: Option<String>,
    pub sibling_node_types: Option<Vec<String>>,
    pub parent_query: Option<String>,
    pub recurse_query: Option<String>,
    pub import_query: Option<String>,
    pub injection_query: Option<String>,
}

pub open spec fn mls_views(v: Seq<MultiLineString>) -> Seq<Seq<char>> {
    v.map_values(|s: MultiLineString| s@)
}

/// Each node type wrapped in parentheses, making a query that matches it.
pub open spec fn parenthesized(v: Seq<String>) -> Seq<Seq<char>> {
    v.map_values(|s: String| seq!['('] + s@ + seq![')'])
}

pub open spec fn opt_joined(v: Option<Vec<MultiLineString>>) -> Option<Seq<char>> {
    match v {
        Some(x) => Some(join_lines(mls_views(x@))),
        None => None,
    }
}

impl LanguageConfigV3 {
    /// What the config says, as a version 4 config.
    pub open spec fn as_v4_model(&self) -> ConfigModel {
        ConfigModel {
            version: 4,
            parser: self.parser,
            extends: opt_view(self.extends),
            definition_query: opt_view(self.definition_query),
            sibling_node_types: opt_strings_view(self.sibling_node_types),
            parent_query: opt_view(self.parent_query),
            recurse_query: opt_view(self.recurse_query),
            import_query: opt_view(self.import_query),
            injection_query: opt_view(self.injection_query),
        }
    }

    /// What a v1 or v2 config says in the v3 format: match patterns become the
    /// definition query (one per line), parent node types become a parent query of
    /// parenthesized node types, recurse and import patterns are joined by lines.
    pub open spec fn from_v1_spec(v: LanguageConfigV1) -> ConfigModel {
        ConfigModel {
            version: 4,
            parser: v.parser,
            extends: None,
            definition_query: if v.match_patterns@.len() == 0 {
                None
            } else {
                Some(join_lines(mls_views(v.match_patterns@)))
            },
            sibling_node_types: Some(strings_view(v.sibling_patterns@)),
            parent_query: if v.parent_patterns@.len() == 0 {
                None
            } else {
                Some(join_lines(parenthesized(v.parent_patterns@)))
            },
            recurse_query: opt_joined(v.recurse_patterns),
            import_query: opt_joined(v.import_patterns),
            injection_query: None,
        }
    }

    pub fn from_v1(value: LanguageConfigV1) -> (r: Self)
        ensures
            r.as_v4_model() == Self::from_v1_spec(value),
    {
        let definition_query = if value.match_patterns.len() == 0 {
            None
        } else {
            Some(join_multi_line_strings(&value.match_patterns))
        };
        let parent_query = if value.parent_patterns.len() == 0 {
            None
        } else {
            Some(join_parenthesized(&value.parent_patterns))
        };
        let recurse_query = match &value.recurse_patterns {
            Some(v) => Some(join_multi_line_strings(v)),
            None => None,
        };
        let import_query = match &value.import_patterns {
            Some(v) => Some(join_multi_line_strings(v)),
            None => None,
        };
        LanguageConfigV3 {
            parser: value.parser,
            extends: None,
            definition_query,
            sibling_node_types: Some(value.sibling_patterns),
            parent_query,
            recurse_query,
            import_query,
            injection_query: None,
        }
    }
}

impl LanguageConfigV4 {
    /// A version 3 config, as version 4.
    pub fn from_v3(value: LanguageConfigV3) -> (r: Self)
        ensures
            r.model() == value.as_v4_model(),
    {
        LanguageConfigV4 {
            version: 4,
            parser: value.parser,
            extends: value.extends,
            definition_query: value.definition_query,
            sibling_node_types: value.sibling_node_types,
            parent_query: value.parent_query,
            recurse_query: value.recurse_query,
            import_query: value.import_query,
            injection_query: value.injection_query,
        }
    }
}

/// The strings joined by line feeds.
pub fn join_multi_line_strings(v: &Vec<MultiLineString>) -> (r: String)
    ensures
        r@ == join_lines(mls_views(v@)),
{
    let ghost views = mls_views(v@);
    let mut out = String::new();
    let mut i: usize = 0;
    while i < v.len()
        invariant
            0 <= i <= v.len(),
            views == mls_views(v@),
            out@ == join_lines(views.take(i as int)),
        decreases v.len() - i,
    {
        assert(views.take(i + 1).drop_last() == views.take(i as int));
        if i > 0 {
            out.append("\n");
            proof { reveal_strlit("\n"); }
        }
        out.append(v[i].as_str());
        i = i + 1;
    }
    assert(views.take(v.len() as int) == views);
    out
}

/// Each node type in parentheses, joined by line feeds.
pub fn join_parenthesized(v: &Vec<String>) -> (r: String)
    ensures
        r@ == join_lines(parenthesized(v@)),
{
    let ghost views = parenthesized(v@);
    let mut out = String::new();
    let mut i: usize = 0;
    while i < v.len()
        invariant
            0 <= i <= v.len(),
            views == parenthesized(v@),
            out@ == join_lines(views.take(i as int)),
        decreases v.len() - i,
    {
        assert(views.take(i + 1).drop_last() == views.take(i as int));
        if i > 0 {
            out.append("\n");
            proof { reveal_strlit("\n"); }
        }
        out.append("(");
        out.append(v[i].as_str());
        out.append(")");
        proof {
            reveal_strlit("(");
            reveal_strlit(")");
        }
        i = i + 1;
    }
    assert(views.take(v.len() as int) == views);
    out
}

/// The versions of the config format.
#[derive(Debug, Clone, Copy, PartialEq, Eq, Structural)]
pub enum ConfigFormat {
    V1,
    V2,
    V3,
    V4,
}

impl ConfigFormat {
    /// The version number, as written.
    pub fn as_str(&self) -> (r: &'static str)
        ensures
            r@ == match self {
                ConfigFormat::V1 => "1"@,
                ConfigFormat::V2 => "2"@,
                ConfigFormat::V3 => "3"@,
                ConfigFormat::V4 => "4"@,
            },
    {
        match self {
            ConfigFormat::V1 => "1",
            ConfigFormat::V2 => "2",
            ConfigFormat::V3 => "3",
            ConfigFormat::V4 => "4",
        }
    }

    /// The format of a whole-file config, given the value of its `_version` key
    /// (`None` when the key is absent): no key is version 1; 2, 3 and 4 are
    /// themselves; any other number is out of range.
    pub fn from_version(version: Option<i64>) -> (r: Result<ConfigFormat, ConfigParseError>)
        ensures
            match version {
                None => r == Ok::<ConfigFormat, ConfigParseError>(ConfigFormat::V1),
                Some(2) => r == Ok::<ConfigFormat, ConfigParseError>(ConfigFormat::V2),
                Some(3) => r == Ok::<ConfigFormat, ConfigParseError>(ConfigFormat::V3),
                Some(4) => r == Ok::<ConfigFormat, ConfigParseError>(ConfigFormat::V4),
                Some(_) => r matches Err(e) && e@ == ConfigErrorView::Deserialize("Value is out of range"@),
            },
    {
        match version {
            None => Ok(ConfigFormat::V1),
            Some(2) => Ok(ConfigFormat::V2),
            Some(3) => Ok(ConfigFormat::V3),
            Some(4) => Ok(ConfigFormat::V4),
            Some(_) => Err(ConfigParseError::Deserialize(String::from_str("Value is out of range"))),
        }
    }
}

/// Why a config could not be had.
#[derive(Debug)]
pub enum ConfigParseError {
    /// The YAML or JSON reader's message.
    Deserialize(String),
    UnknownVersion(ConfigFormat),
    UnknownLanguage(String),
    NotUtf8(String),
    UnreadableFile(String),
    HasFailedBefore(LanguageName),
    ExtendsCycle(LanguageName),
    ExtendsUnknownLanguage(LanguageName, String),
}

/// A [`ConfigParseError`] with its strings and names as character sequences.
pub ghost enum ConfigErrorView {
    Deserialize(Seq<char>),
    UnknownVersion(ConfigFormat),
    UnknownLanguage(Seq<char>),
    NotUtf8(Seq<char>),
    UnreadableFile(Seq<char>),
    HasFailedBefore(Seq<char>),
    ExtendsCycle(Seq<char>),
    ExtendsUnknownLanguage(Seq<char>, Seq<char>),
}

impl View for ConfigParseError {
    type V = ConfigErrorView;

    open spec fn view(&self) -> ConfigErrorView {
        match self {
            ConfigParseError::Deserialize(m) => ConfigErrorView::Deserialize(m@),
            ConfigParseError::UnknownVersion(v) => ConfigErrorView::UnknownVersion(*v),
            ConfigParseError::UnknownLanguage(l) => ConfigErrorView::UnknownLanguage(l@),
            ConfigParseError::NotUtf8(m) => ConfigErrorView::NotUtf8(m@),
            ConfigParseError::UnreadableFile(m) => ConfigErrorView::UnreadableFile(m@),
            ConfigParseError::HasFailedBefore(l) => ConfigErrorView::HasFailedBefore(l@),
            ConfigParseError::ExtendsCycle(l) => ConfigErrorView::ExtendsCycle(l@),
            ConfigParseError::ExtendsUnknownLanguage(l, e) => ConfigErrorView::ExtendsUnknownLanguage(l@, e@),
        }
    }
}

pub open spec fn format_digit(v: ConfigFormat) -> Seq<char> {
    match v {
        ConfigFormat::V1 => "1"@,
        ConfigFormat::V2 => "2"@,
        ConfigFormat::V3 => "3"@,
        ConfigFormat::V4 => "4"@,
    }
}

/// The message for a config error.
pub open spec fn describe_config_error(e: ConfigErrorView) -> Seq<char> {
    match e {
        ConfigErrorView::Deserialize(m) => m,
        ConfigErrorView::UnknownVersion(v) => "unknown version: "@ + format_digit(v),
        ConfigErrorView::UnknownLanguage(l) => "unknown language: "@ + l,
        ConfigErrorView::NotUtf8(m) => m,
        ConfigErrorView::UnreadableFile(m) => m,
        ConfigErrorView::HasFailedBefore(l) => "failed to load "@ + l + " config earlier"@,
        ConfigErrorView::ExtendsCycle(l) => "\"extends\" field in "@ + l + " config points into a cycle"@,
        ConfigErrorView::ExtendsUnknownLanguage(l, x) => l + " extends unknown language "@ + debug_quoted(x),
    }
}

impl ConfigParseError {
    pub fn duplicate(&self) -> (r: Self)
        ensures
            r@ == self@,
    {
        match self {
            ConfigParseError::Deserialize(m) => ConfigParseError::Deserialize(m.clone()),
            ConfigParseError::UnknownVersion(v) => ConfigParseError::UnknownVersion(*v),
            ConfigParseError::UnknownLanguage(l) => ConfigParseError::UnknownLanguage(l.clone()),
            ConfigParseError::NotUtf8(m) => ConfigParseError::NotUtf8(m.clone()),
            ConfigParseError::UnreadableFile(m) => ConfigParseError::UnreadableFile(m.clone()),
            ConfigParseError::HasFailedBefore(l) => ConfigParseError::HasFailedBefore(*l),
            ConfigParseError::ExtendsCycle(l) => ConfigParseError::ExtendsCycle(*l),
            ConfigParseError::ExtendsUnknownLanguage(l, e) => ConfigParseError::ExtendsUnknownLanguage(*l, e.clone()),
        }
    }

    /// The message that tells a user what went wrong.
    pub fn describe(&self) -> (r: String)
        ensures
            r@ == describe_config_error(self@),
    {
        proof {
            reveal_strlit("unknown version: ");
            reveal_strlit("unknown language: ");
            reveal_strlit("failed to load ");
            reveal_strlit(" config earlier");
            reveal_strlit("\"extends\" field in ");
            reveal_strlit(" config points into a cycle");
            reveal_strlit(" extends unknown language ");
        }
        match self {
            ConfigParseError::Deserialize(m) => m.clone(),
            ConfigParseError::UnknownVersion(v) => String::from_str("unknown version: ").concat(v.as_str()),
            ConfigParseError::UnknownLanguage(l) => String::from_str("unknown language: ").concat(l.as_str()),
            ConfigParseError::NotUtf8(m) => m.clone(),
            ConfigParseError::UnreadableFile(m) => m.clone(),
            ConfigParseError::HasFailedBefore(l) =>
                String::from_str("failed to load ").concat(l.as_str()).concat(" config earlier"),
            ConfigParseError::ExtendsCycle(l) =>
                String::from_str("\"extends\" field in ").concat(l.as_str()).concat(" config points into a cycle"),
            ConfigParseError::ExtendsUnknownLanguage(l, e) => {
                let q = debug_string(e.as_str());
                String::from_str(l.as_str()).concat(" extends unknown language ").concat(q.as_str())
            },
        }
    }
}

/// The value of the last entry named `n`.
pub open spec fn lookup_last<X>(s: Seq<(Seq<char>, X)>, n: Seq<char>) -> Option<X>
    decreases s.len(),
{
    if s.len() == 0 {
        None
    } else if s.last().0 == n {
        Some(s.last().1)
    } else {
        lookup_last(s.drop_last(), n)
    }
}

pub proof fn lemma_lookup_last_at<X>(s: Seq<(Seq<char>, X)>, n: Seq<char>, i: int)
    requires
        0 <= i < s.len(),
        s[i].0 == n,
        forall|j: int| i < j < s.len() ==> #[trigger] s[j].0 != n,
    ensures
        lookup_last(s, n) == Some(s[i].1),
    decreases s.len(),
{
    if i < s.len() - 1 {
        lemma_lookup_last_at(s.drop_last(), n, i);
    }
}

pub proof fn lemma_lookup_last_none<X>(s: Seq<(Seq<char>, X)>, n: Seq<char>)
    requires
        forall|j: int| 0 <= j < s.len() ==> #[trigger] s[j].0 != n,
    ensures
        lookup_last(s, n) is None,
    decreases s.len(),
{
    if s.len() > 0 {
        lemma_lookup_last_none(s.drop_last(), n);
    }
}

pub proof fn lemma_lookup_last_some<X>(s: Seq<(Seq<char>, X)>, n: Seq<char>)
    requires
        lookup_last(s, n) is Some,
    ensures
        exists|i: int| 0 <= i < s.len() && (#[trigger] s[i]).0 == n,
    decreases s.len(),
{
    if s.last().0 == n {
        assert(s[s.len() - 1].0 == n);
    } else {
        lemma_lookup_last_some(s.drop_last(), n);
        let k = choose|k: int| 0 <= k < s.len() - 1 && (#[trigger] s.drop_last()[k]).0 == n;
        assert(s[k].0 == n);
    }
}

/// The index of the last entry named `name`.
pub fn find_last<V>(entries: &Vec<(LanguageName, V)>, name: LanguageName) -> (r: Option<usize>)
    ensures
        match r {
            Some(i) => i < entries@.len() && entries@[i as int].0@ == name@
                && forall|j: int| i < j < entries@.len() ==> (#[trigger] entries@[j]).0@ != name@,
            None => forall|j: int| 0 <= j < entries@.len() ==> (#[trigger] entries@[j]).0@ != name@,
        },
{
    let mut i = entries.len();
    while i > 0
        invariant
            i <= entries@.len(),
            forall|j: int| i <= j < entries@.len() ==> (#[trigger] entries@[j]).0@ != name@,
        decreases i,
    {
        if str_eq(entries[i - 1].0.as_str(), name.as_str()) {
            return Some(i - 1);
        }
        i = i - 1;
    }
    None
}

/// A whole-file config in the first format: languages by name.
#[derive(Debug)]
pub struct MonolithicConfigV1 {
    pub languages: Vec<(String, LanguageConfigV1)>,
}

/// A whole-file config in the second format.
#[derive(Debug)]
pub struct MonolithicConfigV2 {
    pub version: u64,
    pub languages: Vec<(String, LanguageConfigV1)>,
}

/// A whole-file config in the third format.
#[derive(Debug)]
pub struct MonolithicConfigV3 {
    pub version: u64,
    pub languages: Vec<(String, LanguageConfigV3)>,
}

impl MonolithicConfigV2 {
    /// A first-format config is a second-format config of version 1.
    pub fn from_v1(value: MonolithicConfigV1) -> (r: Self)
        ensures
            r.version == 1,
            r.languages == value.languages,
    {
        MonolithicConfigV2 { version: 1, languages: value.languages }
    }
}

impl MonolithicConfigV3 {
    /// Each language's config converted to the third format.
    pub fn from_v2(value: MonolithicConfigV2) -> (r: Self)
        ensures
            r.version == value.version,
            r.languages@.len() == value.languages@.len(),
            forall|i: int| 0 <= i < r.languages@.len() ==> {
                &&& (#[trigger] r.languages@[i]).0 == value.languages@[i].0
                &&& r.languages@[i].1.as_v4_model() == LanguageConfigV3::from_v1_spec(value.languages@[i].1)
            },
    {
        let ghost orig = value.languages@;
        let mut languages: Vec<(String, LanguageConfigV3)> = Vec::new();
        let mut rest = value.languages;
        while rest.len() > 0
            invariant
                rest@.len() + languages@.len() == orig.len(),
                rest@ == orig.skip(languages@.len() as int),
                forall|j: int| 0 <= j < languages@.len() ==> {
                    &&& (#[trigger] languages@[j]).0 == orig[j].0
                    &&& languages@[j].1.as_v4_model() == LanguageConfigV3::from_v1_spec(orig[j].1)
                },
            decreases rest@.len(),
        {
            let i = languages.len();
            let (name, config) = rest.remove(0);
            assert(orig.skip(i as int).drop_first() == orig.skip(i + 1));
            languages.push((name, LanguageConfigV3::from_v1(config)));
        }
        MonolithicConfigV3 { version: value.version, languages }
    }
}

/// The language that a name in a whole-file config of the given version stands for:
/// the language of that exact name, or, in versions 1 and 2, the legacy name.
pub open spec fn monolithic_name(version: u64, name: Seq<char>) -> Option<Seq<char>> {
    if language_known(name) {
        Some(resolve_name(name))
    } else if version <= 2 {
        legacy_language(unicode_lowercase(name))
    } else {
        None
    }
}

/// A whole-file config with its languages resolved.
#[derive(Debug)]
pub struct MonolithicConfig {
    pub version: ConfigFormat,
    pub languages: Vec<(LanguageName, LanguageConfig)>,
}

impl MonolithicConfig {
    /// Each language's name and config, in order; a later entry for a name wins.
    pub open spec fn entries(&self) -> Seq<(Seq<char>, ConfigModel)> {
        self.languages@.map_values(|e: (LanguageName, LanguageConfig)| (e.0@, e.1.model()))
    }

    /// Resolve the language names of a version 3 (or converted) whole-file config.
    pub fn try_from_v3(value: MonolithicConfigV3) -> (r: Result<Self, ConfigParseError>)
        ensures
            r is Err <==> exists|i: int| 0 <= i < value.languages@.len()
                && monolithic_name(value.version, (#[trigger] value.languages@[i]).0@) is None,
            r matches Err(e) ==> exists|i: int| 0 <= i < value.languages@.len() && {
                &&& monolithic_name(value.version, (#[trigger] value.languages@[i]).0@) is None
                &&& e@ == ConfigErrorView::UnknownLanguage(value.languages@[i].0@)
                &&& forall|j: int| 0 <= j < i ==> monolithic_name(value.version, (#[trigger] value.languages@[j]).0@) is Some
            },
            r matches Ok(m) ==> m.version == ConfigFormat::V3 && m.entries().len() == value.languages@.len()
                && forall|i: int| 0 <= i < value.languages@.len() ==> #[trigger] m.entries()[i] == (
                    monolithic_name(value.version, value.languages@[i].0@)->Some_0,
                    value.languages@[i].1.as_v4_model(),
                ),
    {
        let version = value.version;
        let ghost orig = value.languages@;
        let mut languages: Vec<(LanguageName, LanguageConfig)> = Vec::new();
        let mut rest = value.languages;
        while rest.len() > 0
            invariant
                rest@.len() + languages@.len() == orig.len(),
                rest@ == orig.skip(languages@.len() as int),
                orig == value.languages@,
                version == value.version,
                forall|j: int| 0 <= j < languages@.len() ==> monolithic_name(version, (#[trigger] orig[j]).0@) is Some,
                forall|j: int| 0 <= j < languages@.len() ==> (#[trigger] languages@[j]).0@ == monolithic_name(version, orig[j].0@)->Some_0
                    && languages@[j].1.model() == orig[j].1.as_v4_model(),
            decreases rest@.len(),
        {
            let k = languages.len();
            let (name, config) = rest.remove(0);
            assert(orig.skip(k as int).drop_first() == orig.skip(k + 1));
            assert(name@ == orig[k as int].0@);
            let resolved = match LanguageName::from_name(name.as_str()) {
                Ok(l) => Some(l),
                Err(_) => if version <= 2 {
                    match LanguageName::from_legacy(name.as_str()) {
                        Ok(l) => Some(l),
                        Err(_) => None,
                    }
                } else {
                    None
                },
            };
            match resolved {
                Some(l) => {
                    languages.push((l, LanguageConfigV4::from_v3(config)));
                },
                None => {
                    assert(monolithic_name(version, orig[k as int].0@) is None);
                    assert(exists|i: int| 0 <= i < orig.len() && monolithic_name(version, (#[trigger] orig[i]).0@) is None);
                    return Err(ConfigParseError::UnknownLanguage(name));
                },
            }
        }
        let m = MonolithicConfig { version: ConfigFormat::V3, languages };
        assert forall|i: int| 0 <= i < orig.len() implies #[trigger] m.entries()[i] == (
            monolithic_name(version, orig[i].0@)->Some_0,
            orig[i].1.as_v4_model(),
        ) by {
            assert(m.languages@[i].0@ == monolithic_name(version, orig[i].0@)->Some_0);
        }
        Ok(m)
    }
}

/// A config, or why it could not be had.
pub open spec fn result_model(r: Result<LanguageConfig, ConfigParseError>) -> Result<ConfigModel, ConfigErrorView> {
    match r {
        Ok(c) => Ok(c.model()),
        Err(e) => Err(e@),
    }
}

/// Where a [`ConfigLoader`] finds configs, by language name: the built-in
/// defaults and the user's per-language files (each already read, or the error
/// met reading it), and the languages of a whole-file config.
pub ghost struct ConfigSources {
    pub defaults: Seq<(Seq<char>, Result<ConfigModel, ConfigErrorView>)>,
    pub files: Seq<(Seq<char>, Result<ConfigModel, ConfigErrorView>)>,
    pub monolithic: Seq<(Seq<char>, ConfigModel)>,
}

/// What the cache of a [`ConfigLoader`] records of a language.
pub ghost enum CacheModel {
    Failed,
    InProgress,
    Loaded(ConfigModel),
}

/// The user's config for language `n`: its own file, else its part of the whole-file config.
pub open spec fn user_config(s: ConfigSources, n: Seq<char>) -> Option<Result<ConfigModel, ConfigErrorView>> {
    match lookup_last(s.files, n) {
        Some(r) => Some(r),
        None => match lookup_last(s.monolithic, n) {
            Some(c) => Some(Ok(c)),
            None => None,
        },
    }
}

/// The config of language `n` before `extends` is followed: the default with the
/// user's fields put over it, or whichever of the two exists; the default's error
/// comes first, then the user's.
pub open spec fn merged_source(s: ConfigSources, n: Seq<char>) -> Option<Result<ConfigModel, ConfigErrorView>> {
    match lookup_last(s.defaults, n) {
        Some(Err(e)) => Some(Err(e)),
        Some(Ok(d)) => match user_config(s, n) {
            Some(Err(e)) => Some(Err(e)),
            Some(Ok(u)) => Some(Ok(replace_spec(d, u))),
            None => Some(Ok(d)),
        },
        None => user_config(s, n),
    }
}

pub open spec fn names_of<X>(s: Seq<(Seq<char>, X)>) -> Set<Seq<char>> {
    s.map_values(|e: (Seq<char>, X)| e.0).to_set()
}

/// Every language that some source has a config for.
pub open spec fn source_names(s: ConfigSources) -> Set<Seq<char>> {
    names_of(s.defaults) + names_of(s.files) + names_of(s.monolithic)
}

/// How many languages with a config the cache has not seen yet.
pub open spec fn unseen(s: ConfigSources, cache: Seq<(Seq<char>, CacheModel)>) -> nat {
    (source_names(s) - names_of(cache)).len()
}

pub proof fn lemma_in_names<X>(s: Seq<(Seq<char>, X)>, n: Seq<char>)
    requires
        lookup_last(s, n) is Some,
    ensures
        names_of(s).contains(n),
{
    lemma_lookup_last_some(s, n);
    let i = choose|i: int| 0 <= i < s.len() && (#[trigger] s[i]).0 == n;
    assert(s.map_values(|e: (Seq<char>, X)| e.0)[i] == n);
}

pub proof fn lemma_not_in_names<X>(s: Seq<(Seq<char>, X)>, n: Seq<char>)
    requires
        lookup_last(s, n) is None,
    ensures
        !names_of(s).contains(n),
    decreases s.len(),
{
    if s.len() > 0 {
        lemma_not_in_names(s.drop_last(), n);
        let names = s.map_values(|e: (Seq<char>, X)| e.0);
        assert(names.drop_last() == s.drop_last().map_values(|e: (Seq<char>, X)| e.0));
        if names.contains(n) {
            let i = choose|i: int| 0 <= i < names.len() && names[i] == n;
            assert(names.drop_last()[i] == n);
        }
    }
}

/// Recording a new language with a config in the cache leaves one fewer unseen.
pub proof fn lemma_unseen_decreases(s: ConfigSources, cache: Seq<(Seq<char>, CacheModel)>, n: Seq<char>, e: CacheModel)
    requires
        lookup_last(cache, n) is None,
        merged_source(s, n) is Some,
    ensures
        unseen(s, cache.push((n, e))) < unseen(s, cache),
{
    lemma_not_in_names(cache, n);
    if lookup_last(s.defaults, n) is Some {
        lemma_in_names(s.defaults, n);
    } else if lookup_last(s.files, n) is Some {
        lemma_in_names(s.files, n);
    } else {
        lemma_in_names(s.monolithic, n);
    }
    let pushed = cache.push((n, e));
    let names = pushed.map_values(|x: (Seq<char>, CacheModel)| x.0);

    let cn = cache.map_values(|x: (Seq<char>, CacheModel)| x.0);
    assert(names =~= cn.push(n));
    cn.lemma_push_to_set_commute(n);
    assert(names_of(pushed) =~= names_of(cache).insert(n));
    let all = source_names(s);
    assert(all.finite()) by {
        vstd::seq_lib::seq_to_set_is_finite(s.defaults.map_values(|x: (Seq<char>, Result<ConfigModel, ConfigErrorView>)| x.0));
        vstd::seq_lib::seq_to_set_is_finite(s.files.map_values(|x: (Seq<char>, Result<ConfigModel, ConfigErrorView>)| x.0));
        vstd::seq_lib::seq_to_set_is_finite(s.monolithic.map_values(|x: (Seq<char>, ConfigModel)| x.0));
    }
    assert((all - names_of(pushed)) =~= (all - names_of(cache)).remove(n));
    assert((all - names_of(cache)).contains(n));
}

/// What loading the config of language `n` gives, from the given cache: a recorded
/// failure or result is given back; a language being loaded further up an
/// `extends` chain is a cycle; otherwise the merged config is put on top of the
/// config of the language it extends, which is loaded the same way.
pub open spec fn load_outcome(s: ConfigSources, cache: Seq<(Seq<char>, CacheModel)>, n: Seq<char>) -> Result<ConfigModel, ConfigErrorView>
    decreases unseen(s, cache),
{
    match lookup_last(cache, n) {
        Some(CacheModel::Failed) => Err(ConfigErrorView::HasFailedBefore(n)),
        Some(CacheModel::InProgress) => Err(ConfigErrorView::ExtendsCycle(n)),
        Some(CacheModel::Loaded(c)) => Ok(c),
        None => match merged_source(s, n) {
            None => Err(ConfigErrorView::HasFailedBefore(n)),
            Some(Err(e)) => Err(e),
            Some(Ok(m)) => match m.extends {
                None => Ok(m),
                Some(x) => if !language_known(x) {
                    Err(ConfigErrorView::ExtendsUnknownLanguage(n, x))
                } else {
                    proof {
                        lemma_unseen_decreases(s, cache, n, CacheModel::InProgress);
                    }
                    match load_outcome(s, cache.push((n, CacheModel::InProgress)), resolve_name(x)) {
                        Ok(b) => Ok(rebase_spec(m, b)),
                        Err(e) => Err(e),
                    }
                },
            },
        },
    }
}

/// No language is marked as being loaded: so it is between two calls of
/// [`ConfigLoader::load_config`].
pub open spec fn settled(cache: Seq<(Seq<char>, CacheModel)>) -> bool {
    forall|n: Seq<char>| #[trigger] lookup_last(cache, n) != Some(CacheModel::InProgress)
}

/// What the cache holds for a language.
pub enum ConfigCacheEntry {
    HasFailedBefore,
    InProgress,
    Loaded(Rc<LanguageConfig>),
}

impl ConfigCacheEntry {
    pub open spec fn model(&self) -> CacheModel {
        match self {
            ConfigCacheEntry::HasFailedBefore => CacheModel::Failed,
            ConfigCacheEntry::InProgress => CacheModel::InProgress,
            ConfigCacheEntry::Loaded(c) => CacheModel::Loaded((**c).model()),
        }
    }
}

/// Loads per-language configs, following `extends`, and remembers each outcome.
pub struct ConfigLoader {
    defaults: Vec<(LanguageName, Result<LanguageConfig, ConfigParseError>)>,
    files: Vec<(LanguageName, Result<LanguageConfig, ConfigParseError>)>,
    monolithic_config: Option<MonolithicConfig>,
    cache: Vec<(LanguageName, ConfigCacheEntry)>,
}

pub open spec fn results_view(v: Seq<(LanguageName, Result<LanguageConfig, ConfigParseError>)>) -> Seq<(Seq<char>, Result<ConfigModel, ConfigErrorView>)> {
    v.map_values(|e: (LanguageName, Result<LanguageConfig, ConfigParseError>)| (e.0@, result_model(e.1)))
}

impl ConfigLoader {
    /// Where this loader finds configs.
    pub closed spec fn sources(&self) -> ConfigSources {
        ConfigSources {
            defaults: results_view(self.defaults@),
            files: results_view(self.files@),
            monolithic: match self.monolithic_config {
                Some(m) => m.entries(),
                None => Seq::empty(),
            },
        }
    }

    /// What the loader has recorded, in order; the last entry for a language counts.
    pub closed spec fn cache(&self) -> Seq<(Seq<char>, CacheModel)> {
        self.cache@.map_values(|e: (LanguageName, ConfigCacheEntry)| (e.0@, e.1.model()))
    }

    /// A loader over the given defaults, per-language user configs and whole-file config.
    pub fn new(
        defaults: Vec<(LanguageName, Result<LanguageConfig, ConfigParseError>)>,
        files: Vec<(LanguageName, Result<LanguageConfig, ConfigParseError>)>,
        monolithic_config: Option<MonolithicConfig>,
    ) -> (r: Self)
        ensures
            r.sources() == (ConfigSources {
                defaults: results_view(defaults@),
                files: results_view(files@),
                monolithic: match monolithic_config {
                    Some(m) => m.entries(),
                    None => Seq::empty(),
                },
            }),
            r.cache().len() == 0,
            settled(r.cache()),
    {
        let r = ConfigLoader { defaults, files, monolithic_config, cache: Vec::new() };
        assert(r.cache() =~= Seq::empty());
        r
    }

    fn copy_result(r: &Result<LanguageConfig, ConfigParseError>) -> (out: Result<LanguageConfig, ConfigParseError>)
        ensures
            result_model(out) == result_model(*r),
    {
        match r {
            Ok(c) => Ok(c.duplicate()),
            Err(e) => Err(e.duplicate()),
        }
    }

    fn lookup(entries: &Vec<(LanguageName, Result<LanguageConfig, ConfigParseError>)>, n: LanguageName) -> (r: Option<Result<LanguageConfig, ConfigParseError>>)
        ensures
            match r {
                Some(x) => lookup_last(results_view(entries@), n@) == Some(result_model(x)),
                None => lookup_last(results_view(entries@), n@) is None,
            },
    {
        let ghost v = results_view(entries@);
        match find_last(entries, n) {
            Some(i) => {
                proof {
                    assert forall|j: int| i < j < v.len() implies #[trigger] v[j].0 != n@ by {
                        assert(v[j].0 == entries@[j].0@);
                    }
                    lemma_lookup_last_at(v, n@, i as int);
                }
                Some(Self::copy_result(&entries[i].1))
            },
            None => {
                proof {
                    assert forall|j: int| 0 <= j < v.len() implies #[trigger] v[j].0 != n@ by {
                        assert(v[j].0 == entries@[j].0@);
                    }
                    lemma_lookup_last_none(v, n@);
                }
                None
            },
        }
    }

    fn user_config(&self, n: LanguageName) -> (r: Option<Result<LanguageConfig, ConfigParseError>>)
        ensures
            match r {
                Some(x) => user_config(self.sources(), n@) == Some(result_model(x)),
                None => user_config(self.sources(), n@) is None,
            },
    {
        match Self::lookup(&self.files, n) {
            Some(x) => Some(x),
            None => match &self.monolithic_config {
                Some(m) => {
                    let ghost v = m.entries();
                    match find_last(&m.languages, n) {
                        Some(i) => {
                            proof {
                                assert forall|j: int| i < j < v.len() implies #[trigger] v[j].0 != n@ by {
                                    assert(v[j].0 == m.languages@[j].0@);
                                }
                                lemma_lookup_last_at(v, n@, i as int);
                            }
                            Some(Ok(m.languages[i].1.duplicate()))
                        },
                        None => {
                            proof {
                                assert forall|j: int| 0 <= j < v.len() implies #[trigger] v[j].0 != n@ by {
                                    assert(v[j].0 == m.languages@[j].0@);
                                }
                                lemma_lookup_last_none(v, n@);
                            }
                            None
                        },
                    }
                },
                None => {
                    proof { lemma_lookup_last_none(Seq::<(Seq<char>, ConfigModel)>::empty(), n@); }
                    None
                },
            },
        }
    }

    fn merged_source(&self, n: LanguageName) -> (r: Option<Result<LanguageConfig, ConfigParseError>>)
        ensures
            match r {
                Some(x) => merged_source(self.sources(), n@) == Some(result_model(x)),
                None => merged_source(self.sources(), n@) is None,
            },
    {
        match Self::lookup(&self.defaults, n) {
            Some(Err(e)) => Some(Err(e)),
            Some(Ok(d)) => match self.user_config(n) {
                Some(Err(e)) => Some(Err(e)),
                Some(Ok(u)) => {
                    let mut d = d;
                    d.replace(u);
                    Some(Ok(d))
                },
                None => Some(Ok(d)),
            },
            None => self.user_config(n),
        }
    }

    fn cache_lookup(&self, n: LanguageName) -> (r: Option<usize>)
        ensures
            match r {
                Some(i) => i < self.cache@.len() && lookup_last(self.cache(), n@) == Some(self.cache@[i as int].1.model()),
                None => lookup_last(self.cache(), n@) is None,
            },
    {
        let ghost v = self.cache();
        match find_last(&self.cache, n) {
            Some(i) => {
                proof {
                    assert forall|j: int| i < j < v.len() implies #[trigger] v[j].0 != n@ by {
                        assert(v[j].0 == self.cache@[j].0@);
                    }
                    lemma_lookup_last_at(v, n@, i as int);
                }
                Some(i)
            },
            None => {
                proof {
                    assert forall|j: int| 0 <= j < v.len() implies #[trigger] v[j].0 != n@ by {
                        assert(v[j].0 == self.cache@[j].0@);
                    }
                    lemma_lookup_last_none(v, n@);
                }
                None
            },
        }
    }

    fn record(&mut self, n: LanguageName, e: ConfigCacheEntry)
        ensures
            final(self).sources() == old(self).sources(),
            final(self).cache() == old(self).cache().push((n@, e.model())),
    {
        let ghost before = self.cache();
        self.cache.push((n, e));
        assert(self.cache() =~= before.push((n@, e.model())));
    }

    /// The config of `language_name`, with the configs it extends put under it.
    /// Every outcome is recorded, so the same language is never loaded twice.
    pub fn load_config(&mut self, language_name: LanguageName) -> (r: Result<Rc<LanguageConfig>, ConfigParseError>)
        ensures
            final(self).sources() == old(self).sources(),
            match r {
                Ok(c) => load_outcome(old(self).sources(), old(self).cache(), language_name@) == Ok::<ConfigModel, ConfigErrorView>((*c).model()),
                Err(e) => load_outcome(old(self).sources(), old(self).cache(), language_name@) == Err::<ConfigModel, ConfigErrorView>(e@),
            },
            forall|n: Seq<char>| (#[trigger] lookup_last(old(self).cache(), n)) is Some
                ==> lookup_last(final(self).cache(), n) == lookup_last(old(self).cache(), n),
            lookup_last(old(self).cache(), language_name@) is None ==> lookup_last(final(self).cache(), language_name@) == Some(
                match r {
                    Ok(c) => CacheModel::Loaded((*c).model()),
                    Err(_) => CacheModel::Failed,
                },
            ),
            lookup_last(old(self).cache(), language_name@) is Some ==> final(self).cache() == old(self).cache(),
            forall|n: Seq<char>| #[trigger] lookup_last(old(self).cache(), n) != Some(CacheModel::InProgress)
                ==> lookup_last(final(self).cache(), n) != Some(CacheModel::InProgress),
            settled(old(self).cache()) ==> settled(final(self).cache()),
            settled(old(self).cache()) && r is Err ==> lookup_last(final(self).cache(), language_name@) == Some(CacheModel::Failed),
        decreases unseen(old(self).sources(), old(self).cache()),
    {
        match self.cache_lookup(language_name) {
            Some(i) => {
                return match &self.cache[i].1 {
                    ConfigCacheEntry::HasFailedBefore => Err(ConfigParseError::HasFailedBefore(language_name)),
                    ConfigCacheEntry::InProgress => Err(ConfigParseError::ExtendsCycle(language_name)),
                    ConfigCacheEntry::Loaded(c) => Ok(Rc::clone(c)),
                };
            },
            None => {},
        }
        let ghost s0 = self.sources();
        let ghost c0 = self.cache();
        let source = self.merged_source(language_name);
        let result: Result<LanguageConfig, ConfigParseError> = match source {
            None => Err(ConfigParseError::HasFailedBefore(language_name)),
            Some(Err(e)) => Err(e),
            Some(Ok(merged)) => {
                let extends = copy_opt_string(&merged.extends);
                match extends {
                    None => Ok(merged),
                    Some(x) => match LanguageName::from_name(x.as_str()) {
                        Err(_) => Err(ConfigParseError::ExtendsUnknownLanguage(language_name, x)),
                        Ok(base_language) => {
                            self.record(language_name, ConfigCacheEntry::InProgress);
                            proof {
                                lemma_unseen_decreases(s0, c0, language_name@, CacheModel::InProgress);
                            }
                            let ghost c1 = self.cache();
                            let sub = self.load_config(base_language);
                            proof {
                                assert(c1.drop_last() == c0);
                                assert forall|n: Seq<char>| (#[trigger] lookup_last(c0, n)) is Some
                                    implies lookup_last(self.cache(), n) == lookup_last(c0, n) by {
                                    assert(lookup_last(c1, n) == lookup_last(c0, n));
                                }
                                assert forall|n: Seq<char>|
                                    n != language_name@ && #[trigger] lookup_last(c0, n) != Some(CacheModel::InProgress)
                                    implies lookup_last(self.cache(), n) != Some(CacheModel::InProgress) by {
                                    assert(lookup_last(c1, n) == lookup_last(c0, n));
                                }
                            }
                            match sub {
                                Ok(base) => {
                                    let mut merged = merged;
                                    merged.rebase(&*base);
                                    Ok(merged)
                                },
                                Err(e) => Err(e),
                            }
                        },
                    },
                }
            },
        };
        let ghost c2 = self.cache();
        assert(forall|n: Seq<char>| (#[trigger] lookup_last(c0, n)) is Some ==> lookup_last(c2, n) == lookup_last(c0, n));
        assert(forall|n: Seq<char>|
            n != language_name@ && #[trigger] lookup_last(c0, n) != Some(CacheModel::InProgress)
                ==> lookup_last(c2, n) != Some(CacheModel::InProgress));
        match result {
            Ok(config) => {
                let config = Rc::new(config);
                self.record(language_name, ConfigCacheEntry::Loaded(Rc::clone(&config)));
                proof { lemma_lookup_last_at(self.cache(), language_name@, self.cache().len() - 1); }
                assert forall|n: Seq<char>| (#[trigger] lookup_last(c0, n)) is Some
                    implies lookup_last(self.cache(), n) == lookup_last(c0, n) by {
                    assert(self.cache().drop_last() == c2);
                }
                assert forall|n: Seq<char>| #[trigger] lookup_last(c0, n) != Some(CacheModel::InProgress)
                    implies lookup_last(self.cache(), n) != Some(CacheModel::InProgress) by {
                    assert(self.cache().drop_last() == c2);
                }
                assert forall|n: Seq<char>| settled(c0) implies #[trigger] lookup_last(self.cache(), n) != Some(CacheModel::InProgress) by {
                    assert(lookup_last(c0, n) != Some(CacheModel::InProgress));
                }
                Ok(config)
            },
            Err(e) => {
                self.record(language_name, ConfigCacheEntry::HasFailedBefore);
                proof { lemma_lookup_last_at(self.cache(), language_name@, self.cache().len() - 1); }
                assert forall|n: Seq<char>| (#[trigger] lookup_last(c0, n)) is Some
                    implies lookup_last(self.cache(), n) == lookup_last(c0, n) by {
                    assert(self.cache().drop_last() == c2);
                }
                assert forall|n: Seq<char>| #[trigger] lookup_last(c0, n) != Some(CacheModel::InProgress)
                    implies lookup_last(self.cache(), n) != Some(CacheModel::InProgress) by {
                    assert(self.cache().drop_last() == c2);
                }
                assert forall|n: Seq<char>| settled(c0) implies #[trigger] lookup_last(self.cache(), n) != Some(CacheModel::InProgress) by {
                    assert(lookup_last(c0, n) != Some(CacheModel::InProgress));
                }
                Err(e)
            },
        }
    }
}

/// The model of a config that sets no field.
pub open spec fn empty_model(version: u64) -> ConfigModel {
    ConfigModel {
        version,
        parser: None,
        extends: None,
        definition_query: None,
        sibling_node_types: None,
        parent_query: None,
        recurse_query: None,
        import_query: None,
        injection_query: None,
    }
}

/// Replacing with a config that sets no field changes nothing.
pub proof fn law_replace_with_nothing_keeps(m: ConfigModel, version: u64)
    ensures
        replace_spec(m, empty_model(version)) == m,
{
}

/// Replacing twice with the same config is replacing once.
pub proof fn law_replace_idempotent(m: ConfigModel, r: ConfigModel)
    ensures
        replace_spec(replace_spec(m, r), r) == replace_spec(m, r),
{
}

/// A config that sets no field of its own, put on top of the config it
/// extends, is that config (under its own version).
pub proof fn law_rebase_of_nothing_is_base(base: ConfigModel, version: u64)
    ensures
        rebase_spec(empty_model(version), base) == (ConfigModel { version, ..base }),
{
}

/// An extension query that does not start with `...` replaces the base query
/// (without its leading white space), whatever the base was.
pub proof fn law_plain_extension_replaces(b1: Option<Seq<char>>, b2: Option<Seq<char>>, e: Seq<char>)
    requires
        !starts_with_ellipsis(trim_leading_white_space(e)),
    ensures
        combine_queries_spec(b1, Some(e)) == combine_queries_spec(b2, Some(e)),
        combine_queries_spec(b1, Some(e)) == Some(trim_leading_white_space(e)),
{
}

/// Whether `result` is the query that a config's own query `own` makes of the
/// query `base` of the config it extends: with no query of its own, the base
/// query; with one that starts with `...` once its leading white space is
/// dropped, the base query (if any) followed by the rest after the `...`;
/// with any other, its own query without the leading white space.
pub open spec fn extends_query(base: Option<Seq<char>>, own: Option<Seq<char>>, result: Option<Seq<char>>) -> bool {
    match own {
        None => result == base,
        Some(e) => {
            let t = trim_leading_white_space(e);
            let prefix = match base {
                Some(b) => b,
                None => Seq::empty(),
            };
            if t.len() >= 3 && t.subrange(0, 3) == "..."@ {
                result == Some(prefix + t.subrange(3, t.len() as int))
            } else {
                result == Some(t)
            }
        },
    }
}

/// Each of the five queries of a config put on top of the config it extends
/// is made by [`extends_query`] from the two configs' queries: a query that
/// starts with `...` is appended to the base query, any other replaces it.
pub proof fn law_rebase_extends_each_query(m: ConfigModel, base: ConfigModel)
    ensures
        extends_query(base.definition_query, m.definition_query, rebase_spec(m, base).definition_query),
        extends_query(base.parent_query, m.parent_query, rebase_spec(m, base).parent_query),
        extends_query(base.recurse_query, m.recurse_query, rebase_spec(m, base).recurse_query),
        extends_query(base.import_query, m.import_query, rebase_spec(m, base).import_query),
        extends_query(base.injection_query, m.injection_query, rebase_spec(m, base).injection_query),
{
    lemma_extends_query(base.definition_query, m.definition_query);
    lemma_extends_query(base.parent_query, m.parent_query);
    lemma_extends_query(base.recurse_query, m.recurse_query);
    lemma_extends_query(base.import_query, m.import_query);
    lemma_extends_query(base.injection_query, m.injection_query);
}

/// The other fields of a config put on top of the config it extends: its own
/// version, the base's `extends`, its own parser or else the base's; and its
/// sibling node types, or else the base's, where a list that starts with
/// `...` keeps its other types (the last one moved into the marker's place)
/// followed by all of the base's types.
pub proof fn law_rebase_other_fields(m: ConfigModel, base: ConfigModel)
    ensures
        rebase_spec(m, base).version == m.version,
        rebase_spec(m, base).extends == base.extends,
        rebase_spec(m, base).parser == if m.parser is Some { m.parser } else { base.parser },
        m.sibling_node_types is None ==> rebase_spec(m, base).sibling_node_types == base.sibling_node_types,
        ({
            let v = m.sibling_node_types->Some_0;
            m.sibling_node_types is Some && (v.len() == 0 || v[0] != "..."@)
                ==> rebase_spec(m, base).sibling_node_types == Some(v)
        }),
        ({
            let v = m.sibling_node_types->Some_0;
            let bs = match base.sibling_node_types {
                Some(b) => b,
                None => Seq::empty(),
            };
            let w = rebase_spec(m, base).sibling_node_types->Some_0;
            m.sibling_node_types is Some && v.len() > 0 && v[0] == "..."@ ==> {
                &&& rebase_spec(m, base).sibling_node_types is Some
                &&& w.len() == v.len() - 1 + bs.len()
                &&& v.len() > 1 ==> w[0] == v[v.len() - 1]
                &&& forall|i: int| 0 < i < v.len() - 1 ==> #[trigger] w[i] == v[i]
                &&& forall|j: int| 0 <= j < bs.len() ==> #[trigger] w[v.len() - 1 + j] == bs[j]
            }
        }),
{
    if let Some(v) = m.sibling_node_types {
        if v.len() > 0 && v[0] == "..."@ {
            let sw = swap_remove_first(v);
            assert(sw.len() == v.len() - 1);
            if base.sibling_node_types is None {
                assert(sw + Seq::<Seq<char>>::empty() =~= sw);
            }
        }
    }
}

proof fn lemma_extends_query(base: Option<Seq<char>>, own: Option<Seq<char>>)
    ensures
        extends_query(base, own, combine_queries_spec(base, own)),
{
    reveal_strlit("...");
    if let Some(e) = own {
        let t = trim_leading_white_space(e);
        if t.len() >= 3 {
            assert(starts_with_ellipsis(t) <==> t.subrange(0, 3) == "..."@) by {
                if starts_with_ellipsis(t) {
                    assert(t.subrange(0, 3) =~= "..."@);
                }
                if t.subrange(0, 3) == "..."@ {
                    assert(t.subrange(0, 3)[0] == t[0]);
                    assert(t.subrange(0, 3)[1] == t[1]);
                    assert(t.subrange(0, 3)[2] == t[2]);
                }
            }
            assert(t.skip(3) =~= t.subrange(3, t.len() as int));
            if base is None {
                assert(Seq::<char>::empty() + t.subrange(3, t.len() as int) =~= t.subrange(3, t.len() as int));
            }
        }
    }
}

/// A config loaded once is served again, unchanged, from the cache; a failure
/// is reported again as having failed before.
pub proof fn law_loaded_config_served_again(s: ConfigSources, cache: Seq<(Seq<char>, CacheModel)>, n: Seq<char>)
    requires
        lookup_last(cache, n) matches Some(e) && !(e is InProgress),
    ensures
        lookup_last(cache, n) == Some(CacheModel::Failed) ==> load_outcome(s, cache, n) == Err::<ConfigModel, ConfigErrorView>(ConfigErrorView::HasFailedBefore(n)),
        lookup_last(cache, n) matches Some(CacheModel::Loaded(c)) ==> load_outcome(s, cache, n) == Ok::<ConfigModel, ConfigErrorView>(c),
{
}

/// What a file in the config directory is.
#[derive(Debug)]
pub enum ConfigFileKind {
    /// `dook.yml` or `dook.json`: a whole-file config in an older format.
    Monolithic,
    /// `<language>.yml`: the config of one language.
    Language(LanguageName),
    /// Anything else, which is not read.
    Other,
}

/// What the config file named `name` holds (see [`ConfigFileKind`]): a file
/// `<stem>.yml` is a language's config when hyperpolyglot knows a language
/// named `<stem>`.
pub open spec fn config_file_kind(name: Seq<char>) -> Option<Option<Seq<char>>> {
    if name == "dook.yml"@ || name == "dook.json"@ {
        Some(None)
    } else if name.len() > 4 && name.skip(name.len() - 4) == ".yml"@ && language_known(name.take(name.len() - 4)) {
        Some(Some(resolve_name(name.take(name.len() - 4))))
    } else {
        None
    }
}

/// What a file in the config directory is, from its name.
pub fn classify_config_file(name: &str) -> (r: ConfigFileKind)
    ensures
        match config_file_kind(name@) {
            Some(None) => r is Monolithic,
            Some(Some(l)) => r matches ConfigFileKind::Language(n) && n@ == l,
            None => r is Other,
        },
{
    proof {
        reveal_strlit("dook.yml");
        reveal_strlit("dook.json");
        reveal_strlit(".yml");
    }
    if str_eq(name, "dook.yml") || str_eq(name, "dook.json") {
        return ConfigFileKind::Monolithic;
    }
    let n = name.unicode_len();
    if n > 4 {
        let ext = name.substring_char(n - 4, n);
        assert(ext@ == name@.skip(n - 4));
        if str_eq(ext, ".yml") {
            let stem = name.substring_char(0, n - 4);
            assert(stem@ == name@.take(n - 4));
            return match LanguageName::from_name(stem) {
                Ok(l) => ConfigFileKind::Language(l),
                Err(_) => ConfigFileKind::Other,
            };
        }
    }
    ConfigFileKind::Other
}

} // verus!
