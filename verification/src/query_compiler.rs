//! A language's queries, compiled against its grammar, and the cache that keeps them.
use vstd::prelude::*;
use vstd::string::StrSliceExecFns;
use vstd::string::StringExecFns;
use std::rc::Rc;
use crate::config::{
    load_outcome, lookup_last, lemma_lookup_last_at, ConfigErrorView, ConfigLoader, ConfigModel,
    ConfigParseError, ConfigSources, CacheModel, LanguageConfig, ParserSource, describe_config_error,
    opt_view, strings_view,
};
use crate::language_name::{hyperpolyglot_group, language_known, resolve_name, LanguageName};
use crate::syntax::{
    self, first_index_of, named_kind_id_of, query_capture_names, query_compiled, query_property_settings,
    PropertySetting, PropertyView,
};
use crate::text::{debug_quoted, debug_string, str_eq};

verus! {

/// The query that finds definitions: `@name` captures the defined name and
/// `@def` the whole definition.
pub struct DefinitionQuery {
    pub query: tree_sitter::Query,
    pub index_name: u32,
    pub index_def: u32,
}

/// The query that recognizes a definition's ancestors worth showing a header
/// line of; `@exclude` marks where the header stops.
pub struct ParentQuery {
    pub query: tree_sitter::Query,
    pub index_exclude: Option<u32>,
}

/// The query that finds the names a definition calls (`@name`).
pub struct RecurseQuery {
    pub query: tree_sitter::Query,
    pub index_name: u32,
}

/// The query that finds imports: the imported `@name` and its `@origin`.
pub struct ImportQuery {
    pub query: tree_sitter::Query,
    pub index_name: u32,
    pub index_origin: u32,
}

/// The query that finds fragments in another language (`@injection.content`),
/// with what each pattern says of the fragment's language.
pub struct InjectionQuery {
    pub query: tree_sitter::Query,
    pub index_range: u32,
    pub language_hints_by_pattern_index: Vec<InjectionLanguageHint>,
}

/// What a pattern of an injection query says of the injected language.
#[derive(Clone)]
pub enum InjectionLanguageHint {
    Absent,
    /// The language is given by name.
    Fixed(String),
    /// The language is named by the text of this capture.
    Capture(usize),
}

/// An [`InjectionLanguageHint`] with its name as a character sequence.
pub ghost enum HintModel {
    Absent,
    Fixed(Seq<char>),
    Capture(usize),
}

impl View for InjectionLanguageHint {
    type V = HintModel;

    open spec fn view(&self) -> HintModel {
        match self {
            InjectionLanguageHint::Absent => HintModel::Absent,
            InjectionLanguageHint::Fixed(s) => HintModel::Fixed(s@),
            InjectionLanguageHint::Capture(i) => HintModel::Capture(*i),
        }
    }
}

/// The language hint that a pattern's property settings give, read in order:
/// each `injection.language` setting names the language by its value, or by a
/// capture if it names one.
pub open spec fn pattern_hint(props: Seq<PropertyView>) -> HintModel
    decreases props.len(),
{
    if props.len() == 0 {
        HintModel::Absent
    } else {
        let before = pattern_hint(props.drop_last());
        let p = props.last();
        if p.0 == "injection.language"@ {
            match p.2 {
                Some(c) => HintModel::Capture(c),
                None => match p.1 {
                    Some(v) => HintModel::Fixed(v),
                    None => before,
                },
            }
        } else {
            before
        }
    }
}

/// The language hint of one pattern, from its property settings.
pub fn pattern_language_hint(props: &Vec<PropertySetting>) -> (r: InjectionLanguageHint)
    ensures
        r@ == pattern_hint(props@.map_values(|p: PropertySetting| p@)),
{
    let ghost views = props@.map_values(|p: PropertySetting| p@);
    let mut hint = InjectionLanguageHint::Absent;
    let mut i: usize = 0;
    proof {
        reveal_strlit("injection.language");
        assert(views.take(0) =~= Seq::<PropertyView>::empty());
    }
    while i < props.len()
        invariant
            i <= props.len(),
            views == props@.map_values(|p: PropertySetting| p@),
            hint@ == pattern_hint(views.take(i as int)),
        decreases props.len() - i,
    {
        let p = &props[i];
        assert(views.take(i + 1).drop_last() =~= views.take(i as int));
        assert(views.take(i + 1).last() == p@);
        if str_eq(p.key.as_str(), "injection.language") {
            match &p.value {
                Some(v) => {
                    hint = InjectionLanguageHint::Fixed(v.clone());
                },
                None => {},
            }
            match p.capture_id {
                Some(c) => {
                    hint = InjectionLanguageHint::Capture(c);
                },
                None => {},
            }
        }
        i = i + 1;
    }
    assert(views.take(props.len() as int) =~= views);
    hint
}

/// The language hint of each pattern of an injection query.
pub fn language_hints(query: &tree_sitter::Query) -> (r: Vec<InjectionLanguageHint>)
    ensures
        r@.len() == query_property_settings(*query).len(),
        forall|i: int| 0 <= i < r@.len() ==> (#[trigger] r@[i])@ == pattern_hint(query_property_settings(*query)[i]),
{
    let n = syntax::pattern_count(query);
    let mut hints: Vec<InjectionLanguageHint> = Vec::new();
    let mut i: usize = 0;
    while i < n
        invariant
            i <= n,
            n == query_property_settings(*query).len(),
            hints@.len() == i,
            forall|j: int| 0 <= j < i ==> (#[trigger] hints@[j])@ == pattern_hint(query_property_settings(*query)[j]),
        decreases n - i,
    {
        let props = syntax::property_settings(query, i);
        hints.push(pattern_language_hint(&props));
        i = i + 1;
    }
    hints
}

/// How a language's captured names are cleaned up before they are compared.
pub enum NameTransform {
    /// Drop leading backslashes (TeX commands).
    TrimLeadingBackslashes,
    /// Drop single and double quotes at both ends (quoted YAML keys).
    TrimQuotes,
}

/// `s` without the leading characters that `drop` holds of.
pub open spec fn trim_leading(s: Seq<char>, drop: spec_fn(char) -> bool) -> Seq<char>
    decreases s.len(),
{
    if s.len() > 0 && drop(s[0]) {
        trim_leading(s.drop_first(), drop)
    } else {
        s
    }
}

/// `s` without the trailing characters that `drop` holds of.
pub open spec fn trim_trailing(s: Seq<char>, drop: spec_fn(char) -> bool) -> Seq<char>
    decreases s.len(),
{
    if s.len() > 0 && drop(s.last()) {
        trim_trailing(s.drop_last(), drop)
    } else {
        s
    }
}

pub open spec fn is_backslash(c: char) -> bool {
    c == '\\'
}

pub open spec fn is_quote(c: char) -> bool {
    c == '\'' || c == '"'
}

/// Whether the transform drops `c`: a quote when `quotes`, else a backslash.
fn trimmed_char(quotes: bool, c: char) -> (r: bool)
    ensures
        r == if quotes { is_quote(c) } else { is_backslash(c) },
{
    if quotes { c == '\'' || c == '"' } else { c == '\\' }
}

impl NameTransform {
    /// What the transform makes of `name`.
    pub open spec fn spec_apply(self, name: Seq<char>) -> Seq<char> {
        match self {
            NameTransform::TrimLeadingBackslashes => trim_leading(name, |c: char| is_backslash(c)),
            NameTransform::TrimQuotes => trim_trailing(
                trim_leading(name, |c: char| is_quote(c)),
                |c: char| is_quote(c),
            ),
        }
    }

    /// The name, cleaned up.
    pub fn apply(&self, name: &str) -> (r: String)
        ensures
            r@ == self.spec_apply(name@),
    {
        let n = name.unicode_len();
        let quotes = match self {
            NameTransform::TrimLeadingBackslashes => false,
            NameTransform::TrimQuotes => true,
        };
        let ghost drop = if quotes { |c: char| is_quote(c) } else { |c: char| is_backslash(c) };
        let mut start: usize = 0;
        assert(name@.skip(0) =~= name@);
        while start < n && trimmed_char(quotes, name.get_char(start))
            invariant
                n == name@.len(),
                start <= n,
                drop == (if quotes { |c: char| is_quote(c) } else { |c: char| is_backslash(c) }),
                trim_leading(name@, drop) == trim_leading(name@.skip(start as int), drop),
            decreases n - start,
        {
            assert(name@.skip(start as int).drop_first() =~= name@.skip(start + 1));
            start = start + 1;
        }
        let mut end: usize = n;
        if quotes {
            assert(name@.subrange(start as int, n as int) =~= name@.skip(start as int));
            while end > start && trimmed_char(true, name.get_char(end - 1))
                invariant
                    n == name@.len(),
                    start <= end <= n,
                    drop == |c: char| is_quote(c),
                    trim_trailing(name@.skip(start as int), drop)
                        == trim_trailing(name@.subrange(start as int, end as int), drop),
                decreases end - start,
            {
                assert(name@.subrange(start as int, end as int).drop_last()
                    =~= name@.subrange(start as int, end - 1));
                end = end - 1;
            }
        }
        assert(name@.subrange(start as int, n as int) =~= name@.skip(start as int));
        String::from_str(name.substring_char(start, end))
    }
}

/// The transform that a language's names need, if any.
pub open spec fn name_transform_for(language_name: Seq<char>) -> Option<NameTransform> {
    if language_name == "TeX"@ {
        Some(NameTransform::TrimLeadingBackslashes)
    } else if language_name == "YAML"@ {
        Some(NameTransform::TrimQuotes)
    } else {
        None
    }
}

/// Why a language's queries could not be had.
#[derive(Debug)]
pub enum GetLanguageInfoError {
    ConfigParseError(ConfigParseError),
    LanguageIsNotInConfig(LanguageName),
    ParserNotConfigured,
    /// The parser loader's message.
    LoaderError(String),
    QueryCompileFailed {
        query_source: String,
        query_error: tree_sitter::QueryError,
    },
    UnrecognizedNodeType(String),
    RequiredCaptureMissing {
        query_source: String,
        capture_name: &'static str,
        config_field: &'static str,
    },
    DefinitionQueryMissing,
}

/// Everything needed to search files of one language.
pub struct LanguageInfo {
    pub language: tree_sitter::Language,
    pub definition_query: DefinitionQuery,
    /// Node types (never 0) whose nodes just before a definition belong to it.
    pub sibling_node_types: Vec<u16>,
    pub parent_query: Option<ParentQuery>,
    pub recurse_query: Option<RecurseQuery>,
    pub import_query: Option<ImportQuery>,
    pub injection_query: Option<InjectionQuery>,
    pub name_transform: Option<NameTransform>,
}

/// The index of the first capture called `name` in `query`.
pub open spec fn capture_index(query: tree_sitter::Query, name: Seq<char>) -> Option<nat> {
    first_index_of(query_capture_names(query), name)
}

/// Whether the query of config field `field` must capture `capture`.
pub open spec fn required_capture_of(field: Seq<char>, capture: Seq<char>) -> bool {
    ||| field == "definition_query"@ && (capture == "name"@ || capture == "def"@)
    ||| field == "recurse_query"@ && capture == "name"@
    ||| field == "import_query"@ && (capture == "name"@ || capture == "origin"@)
    ||| field == "injection_query"@ && capture == "injection.content"@
}

/// Whether `e` says that the query `source` of config field `field` does not
/// compile, or lacks a capture that the field needs.
pub open spec fn query_error_for(e: GetLanguageInfoError, field: Seq<char>, source: Seq<char>) -> bool {
    match e {
        GetLanguageInfoError::QueryCompileFailed { query_source, .. } => query_source@ == source,
        GetLanguageInfoError::RequiredCaptureMissing { query_source, capture_name, config_field } =>
            query_source@ == source && config_field@ == field && required_capture_of(field, capture_name@),
        _ => false,
    }
}

/// Whether `e` is an error about the optional query `source` of field `field`.
pub open spec fn opt_query_error_for(e: GetLanguageInfoError, field: Seq<char>, source: Option<Seq<char>>) -> bool {
    match source {
        Some(s) => query_error_for(e, field, s),
        None => false,
    }
}

/// Whether `e` is an error that [`LanguageInfo::new`] can give for `config`:
/// each error names a query, capture or node type that the config holds.
pub open spec fn error_fits_config(e: GetLanguageInfoError, config: LanguageConfig) -> bool {
    let m = config.model();
    match e {
        GetLanguageInfoError::DefinitionQueryMissing => m.definition_query is None,
        GetLanguageInfoError::UnrecognizedNodeType(n) => match m.sibling_node_types {
            Some(types) => types.contains(n@),
            None => false,
        },
        _ => {
            ||| opt_query_error_for(e, "definition_query"@, m.definition_query)
            ||| opt_query_error_for(e, "parent_query"@, m.parent_query)
            ||| opt_query_error_for(e, "recurse_query"@, m.recurse_query)
            ||| opt_query_error_for(e, "import_query"@, m.import_query)
            ||| opt_query_error_for(e, "injection_query"@, m.injection_query)
        },
    }
}

/// The first of the `required` capture names that the query lacks, if any.
pub open spec fn first_missing_capture(query: tree_sitter::Query, required: Seq<Seq<char>>) -> Option<Seq<char>>
    decreases required.len(),
{
    if required.len() == 0 {
        None
    } else if capture_index(query, required[0]) is None {
        Some(required[0])
    } else {
        first_missing_capture(query, required.drop_first())
    }
}

/// What is wrong with the query `source` that must capture `required`:
/// `Some(None)` where it does not compile, `Some(Some(c))` where it lacks the
/// capture `c` (the first of `required` it lacks), `None` where nothing is.
pub open spec fn query_problem(language: tree_sitter::Language, source: Seq<char>, required: Seq<Seq<char>>) -> Option<Option<Seq<char>>> {
    match query_compiled(language, source) {
        None => Some(None),
        Some(q) => match first_missing_capture(q, required) {
            Some(c) => Some(Some(c)),
            None => None,
        },
    }
}

/// [`query_problem`] of an optional query; a missing query has none.
pub open spec fn opt_query_problem(language: tree_sitter::Language, source: Option<Seq<char>>, required: Seq<Seq<char>>) -> Option<Option<Seq<char>>> {
    match source {
        Some(s) => query_problem(language, s, required),
        None => None,
    }
}

/// Whether `e` reports the problem `p` of the query `source` of config field `field`.
pub open spec fn reports_problem(e: GetLanguageInfoError, field: Seq<char>, source: Seq<char>, p: Option<Seq<char>>) -> bool {
    match p {
        None => e matches GetLanguageInfoError::QueryCompileFailed { query_source, .. } && query_source@ == source,
        Some(c) => e matches GetLanguageInfoError::RequiredCaptureMissing { query_source, capture_name, config_field }
            && query_source@ == source && capture_name@ == c && config_field@ == field,
    }
}

/// The first of the config's queries, in the order they are compiled, that
/// has a problem: its field, its source, and the problem.
pub open spec fn first_query_problem(language: tree_sitter::Language, m: ConfigModel) -> Option<(Seq<char>, Seq<char>, Option<Seq<char>>)> {
    if let Some(p) = opt_query_problem(language, m.definition_query, seq!["name"@, "def"@]) {
        Some(("definition_query"@, m.definition_query->Some_0, p))
    } else if let Some(p) = opt_query_problem(language, m.parent_query, Seq::empty()) {
        Some(("parent_query"@, m.parent_query->Some_0, p))
    } else if let Some(p) = opt_query_problem(language, m.recurse_query, seq!["name"@]) {
        Some(("recurse_query"@, m.recurse_query->Some_0, p))
    } else if let Some(p) = opt_query_problem(language, m.import_query, seq!["name"@, "origin"@]) {
        Some(("import_query"@, m.import_query->Some_0, p))
    } else if let Some(p) = opt_query_problem(language, m.injection_query, seq!["injection.content"@]) {
        Some(("injection_query"@, m.injection_query->Some_0, p))
    } else {
        None
    }
}

/// The first of the node type names that the grammar does not know.
pub open spec fn first_unknown_type(language: tree_sitter::Language, names: Seq<Seq<char>>) -> Option<Seq<char>>
    decreases names.len(),
{
    if names.len() == 0 {
        None
    } else if named_kind_id_of(language, names[0]) == 0 {
        Some(names[0])
    } else {
        first_unknown_type(language, names.drop_first())
    }
}

/// Compiles one query of the config, or says which query failed.
fn compile(language: &tree_sitter::Language, query_source: &String) -> (r: Result<
    tree_sitter::Query,
    GetLanguageInfoError,
>)
    ensures
        r is Ok <==> query_compiled(*language, query_source@) is Some,
        r matches Ok(q) ==> query_compiled(*language, query_source@) == Some(q),
        r matches Err(e) ==> e matches GetLanguageInfoError::QueryCompileFailed { query_source: s, .. }
            && s@ == query_source@,
{
    match syntax::compile_query(language, query_source.as_str()) {
        Ok(q) => Ok(q),
        Err(query_error) => Err(GetLanguageInfoError::QueryCompileFailed { query_source: query_source.clone(), query_error }),
    }
}

/// The index of a capture that the config field's query must have.
fn required_capture(
    query: &tree_sitter::Query,
    capture_name: &'static str,
    query_source: &String,
    config_field: &'static str,
) -> (r: Result<u32, GetLanguageInfoError>)
    ensures
        match capture_index(*query, capture_name@) {
            Some(i) => r == Ok::<u32, GetLanguageInfoError>(i as u32) && i < 0x1_0000_0000,
            None => r matches Err(GetLanguageInfoError::RequiredCaptureMissing { query_source: s, capture_name: c, config_field: f })
                && s@ == query_source@ && c@ == capture_name@ && f@ == config_field@,
        },
{
    match syntax::capture_index_for_name(query, capture_name) {
        Some(i) => Ok(i),
        None => Err(GetLanguageInfoError::RequiredCaptureMissing { query_source: query_source.clone(), capture_name, config_field }),
    }
}

/// The grammar's numbers for the named node types, or the first name it does not know.
fn resolve_node_types(language: &tree_sitter::Language, names: &Vec<String>) -> (r: Result<
    Vec<u16>,
    GetLanguageInfoError,
>)
    ensures
        r matches Ok(ids) ==> ids@.len() == names@.len() && forall|i: int| 0 <= i < ids@.len()
            ==> ids@[i] != 0 && ids@[i] == named_kind_id_of(*language, strings_view(names@)[i]),
        r matches Err(e) ==> e matches GetLanguageInfoError::UnrecognizedNodeType(n) && strings_view(names@).contains(n@),
        match first_unknown_type(*language, strings_view(names@)) {
            Some(t) => r matches Err(GetLanguageInfoError::UnrecognizedNodeType(n)) && n@ == t,
            None => r is Ok,
        },
{
    let ghost all = strings_view(names@);
    let mut ids: Vec<u16> = Vec::new();
    let mut i: usize = 0;
    assert(all.skip(0) =~= all);
    while i < names.len()
        invariant
            i <= names.len(),
            all == strings_view(names@),
            ids@.len() == i,
            forall|j: int| 0 <= j < ids@.len() ==> ids@[j] != 0 && ids@[j] == named_kind_id_of(*language, all[j]),
            first_unknown_type(*language, all) == first_unknown_type(*language, all.skip(i as int)),
        decreases names.len() - i,
    {
        let id = syntax::named_node_kind_id(language, names[i].as_str());
        assert(all[i as int] == names@[i as int]@);
        assert(all.skip(i as int)[0] == all[i as int]);
        assert(all.skip(i as int).drop_first() =~= all.skip(i + 1));
        if id == 0 {
            return Err(GetLanguageInfoError::UnrecognizedNodeType(names[i].clone()));
        }
        ids.push(id);
        i = i + 1;
    }
    assert(all.skip(i as int) =~= Seq::<Seq<char>>::empty());
    Ok(ids)
}

impl DefinitionQuery {
    /// The capture indices are those of `@name` and `@def` in the query.
    pub open spec fn indices_fit(&self) -> bool {
        &&& capture_index(self.query, "name"@) == Some(self.index_name as nat)
        &&& capture_index(self.query, "def"@) == Some(self.index_def as nat)
    }
}

impl ParentQuery {
    /// The excluded capture is `@exclude`, if the query has one.
    pub open spec fn indices_fit(&self) -> bool {
        match capture_index(self.query, "exclude"@) {
            Some(i) => self.index_exclude == Some(i as u32),
            None => self.index_exclude is None,
        }
    }
}

impl RecurseQuery {
    /// The capture index is that of `@name` in the query.
    pub open spec fn indices_fit(&self) -> bool {
        capture_index(self.query, "name"@) == Some(self.index_name as nat)
    }
}

impl ImportQuery {
    /// The capture indices are those of `@name` and `@origin` in the query.
    pub open spec fn indices_fit(&self) -> bool {
        &&& capture_index(self.query, "name"@) == Some(self.index_name as nat)
        &&& capture_index(self.query, "origin"@) == Some(self.index_origin as nat)
    }
}

impl InjectionQuery {
    /// The capture index is that of `@injection.content`, and there is one
    /// language hint per pattern, read from the pattern's property settings.
    pub open spec fn indices_fit(&self) -> bool {
        &&& capture_index(self.query, "injection.content"@) == Some(self.index_range as nat)
        &&& self.language_hints_by_pattern_index@.len() == query_property_settings(self.query).len()
        &&& forall|i: int| 0 <= i < self.language_hints_by_pattern_index@.len()
            ==> (#[trigger] self.language_hints_by_pattern_index@[i])@ == pattern_hint(query_property_settings(self.query)[i])
    }
}

fn compile_definition_query(language: &tree_sitter::Language, source: &String) -> (r: Result<
    DefinitionQuery,
    GetLanguageInfoError,
>)
    ensures
        r matches Ok(d) ==> d.indices_fit() && query_compiled(*language, source@) == Some(d.query),
        r matches Err(e) ==> query_error_for(e, "definition_query"@, source@),
        match query_problem(*language, source@, seq!["name"@, "def"@]) {
            None => r is Ok,
            Some(p) => r matches Err(e) && reports_problem(e, "definition_query"@, source@, p),
        },
{
    proof {
        reveal_strlit("name");
        reveal_strlit("def");
        reveal_strlit("definition_query");
        reveal_with_fuel(first_missing_capture, 3);
        assert(seq!["name"@, "def"@].drop_first() =~= seq!["def"@]);
        assert(seq!["def"@].drop_first() =~= Seq::<Seq<char>>::empty());
    }
    let query = compile(language, source)?;
    let index_name = required_capture(&query, "name", source, "definition_query")?;
    let index_def = required_capture(&query, "def", source, "definition_query")?;
    Ok(DefinitionQuery { query, index_name, index_def })
}

fn compile_parent_query(language: &tree_sitter::Language, source: &Option<String>) -> (r: Result<
    Option<ParentQuery>,
    GetLanguageInfoError,
>)
    ensures
        r matches Ok(p) ==> (p is Some == source is Some) && (p matches Some(q) ==> q.indices_fit()
            && query_compiled(*language, opt_view(*source)->Some_0) == Some(q.query)),
        r matches Err(e) ==> opt_query_error_for(e, "parent_query"@, opt_view(*source)),
        match opt_query_problem(*language, opt_view(*source), Seq::empty()) {
            None => r is Ok,
            Some(p) => r matches Err(e) && reports_problem(e, "parent_query"@, opt_view(*source)->Some_0, p),
        },
{
    match source {
        None => Ok(None),
        Some(source) => {
            let query = compile(language, source)?;
            let index_exclude = syntax::capture_index_for_name(&query, "exclude");
            proof { reveal_strlit("exclude"); }
            Ok(Some(ParentQuery { query, index_exclude }))
        },
    }
}

fn compile_recurse_query(language: &tree_sitter::Language, source: &Option<String>) -> (r: Result<
    Option<RecurseQuery>,
    GetLanguageInfoError,
>)
    ensures
        r matches Ok(p) ==> (p is Some == source is Some) && (p matches Some(q) ==> q.indices_fit()
            && query_compiled(*language, opt_view(*source)->Some_0) == Some(q.query)),
        r matches Err(e) ==> opt_query_error_for(e, "recurse_query"@, opt_view(*source)),
        match opt_query_problem(*language, opt_view(*source), seq!["name"@]) {
            None => r is Ok,
            Some(p) => r matches Err(e) && reports_problem(e, "recurse_query"@, opt_view(*source)->Some_0, p),
        },
{
    proof {
        reveal_strlit("name");
        reveal_strlit("recurse_query");
        reveal_with_fuel(first_missing_capture, 2);
        assert(seq!["name"@].drop_first() =~= Seq::<Seq<char>>::empty());
    }
    match source {
        None => Ok(None),
        Some(source) => {
            let query = compile(language, source)?;
            let index_name = required_capture(&query, "name", source, "recurse_query")?;
            Ok(Some(RecurseQuery { query, index_name }))
        },
    }
}

fn compile_import_query(language: &tree_sitter::Language, source: &Option<String>) -> (r: Result<
    Option<ImportQuery>,
    GetLanguageInfoError,
>)
    ensures
        r matches Ok(p) ==> (p is Some == source is Some) && (p matches Some(q) ==> q.indices_fit()
            && query_compiled(*language, opt_view(*source)->Some_0) == Some(q.query)),
        r matches Err(e) ==> opt_query_error_for(e, "import_query"@, opt_view(*source)),
        match opt_query_problem(*language, opt_view(*source), seq!["name"@, "origin"@]) {
            None => r is Ok,
            Some(p) => r matches Err(e) && reports_problem(e, "import_query"@, opt_view(*source)->Some_0, p),
        },
{
    proof {
        reveal_strlit("name");
        reveal_strlit("origin");
        reveal_strlit("import_query");
        reveal_with_fuel(first_missing_capture, 3);
        assert(seq!["name"@, "origin"@].drop_first() =~= seq!["origin"@]);
        assert(seq!["origin"@].drop_first() =~= Seq::<Seq<char>>::empty());
    }
    match source {
        None => Ok(None),
        Some(source) => {
            let query = compile(language, source)?;
            let index_name = required_capture(&query, "name", source, "import_query")?;
            let index_origin = required_capture(&query, "origin", source, "import_query")?;
            Ok(Some(ImportQuery { query, index_name, index_origin }))
        },
    }
}

fn compile_injection_query(language: &tree_sitter::Language, source: &Option<String>) -> (r: Result<
    Option<InjectionQuery>,
    GetLanguageInfoError,
>)
    ensures
        r matches Ok(p) ==> (p is Some == source is Some) && (p matches Some(q) ==> q.indices_fit()
            && query_compiled(*language, opt_view(*source)->Some_0) == Some(q.query)),
        r matches Err(e) ==> opt_query_error_for(e, "injection_query"@, opt_view(*source)),
        match opt_query_problem(*language, opt_view(*source), seq!["injection.content"@]) {
            None => r is Ok,
            Some(p) => r matches Err(e) && reports_problem(e, "injection_query"@, opt_view(*source)->Some_0, p),
        },
{
    proof {
        reveal_strlit("injection.content");
        reveal_strlit("injection_query");
        reveal_with_fuel(first_missing_capture, 2);
        assert(seq!["injection.content"@].drop_first() =~= Seq::<Seq<char>>::empty());
    }
    match source {
        None => Ok(None),
        Some(source) => {
            let query = compile(language, source)?;
            let language_hints_by_pattern_index = language_hints(&query);
            let index_range = required_capture(&query, "injection.content", source, "injection_query")?;
            Ok(Some(InjectionQuery { query, index_range, language_hints_by_pattern_index }))
        },
    }
}

/// An error about one of the config's queries is an error that fits the config.
proof fn lemma_query_error_fits(e: GetLanguageInfoError, config: LanguageConfig)
    requires
        ({
            let m = config.model();
            ||| opt_query_error_for(e, "definition_query"@, m.definition_query)
            ||| opt_query_error_for(e, "parent_query"@, m.parent_query)
            ||| opt_query_error_for(e, "recurse_query"@, m.recurse_query)
            ||| opt_query_error_for(e, "import_query"@, m.import_query)
            ||| opt_query_error_for(e, "injection_query"@, m.injection_query)
        }),
    ensures
        error_fits_config(e, config),
{
}

/// What [`LanguageInfo::new`] builds from the grammar `language` and the
/// config `m` of the language `name`: each query compiled from the config's
/// source for it, with the indices of its captures; each sibling node type by
/// the grammar's number for it; and the language's name transform.
pub open spec fn info_fits(info: LanguageInfo, language: tree_sitter::Language, name: Seq<char>, m: ConfigModel) -> bool {
    &&& info.language == language
    &&& m.definition_query is Some
    &&& info.definition_query.indices_fit()
    &&& query_compiled(language, m.definition_query->Some_0) == Some(info.definition_query.query)
    &&& info.parent_query is Some == m.parent_query is Some
    &&& (info.parent_query matches Some(q) ==> q.indices_fit() && query_compiled(language, m.parent_query->Some_0) == Some(q.query))
    &&& info.recurse_query is Some == m.recurse_query is Some
    &&& (info.recurse_query matches Some(q) ==> q.indices_fit() && query_compiled(language, m.recurse_query->Some_0) == Some(q.query))
    &&& info.import_query is Some == m.import_query is Some
    &&& (info.import_query matches Some(q) ==> q.indices_fit() && query_compiled(language, m.import_query->Some_0) == Some(q.query))
    &&& info.injection_query is Some == m.injection_query is Some
    &&& (info.injection_query matches Some(q) ==> q.indices_fit()
        && query_compiled(language, m.injection_query->Some_0) == Some(q.query))
    &&& info.sibling_node_types@.len() == match m.sibling_node_types {
        Some(v) => v.len(),
        None => 0,
    }
    &&& forall|i: int| 0 <= i < info.sibling_node_types@.len() ==> info.sibling_node_types@[i] != 0
        && info.sibling_node_types@[i] == named_kind_id_of(language, m.sibling_node_types->Some_0[i])
    &&& info.name_transform == name_transform_for(name)
}

/// Whether `e` is what [`LanguageInfo::new`] reports for the grammar
/// `language` and the config `m`: no definition query; else the first query
/// problem; else the first node type the grammar does not know.
pub open spec fn info_failure(e: GetLanguageInfoError, language: tree_sitter::Language, m: ConfigModel) -> bool {
    match m.definition_query {
        None => e is DefinitionQueryMissing,
        Some(_) => match first_query_problem(language, m) {
            Some((field, source, p)) => reports_problem(e, field, source, p),
            None => match first_unknown_type(language, match m.sibling_node_types {
                Some(v) => v,
                None => Seq::empty(),
            }) {
                Some(t) => e matches GetLanguageInfoError::UnrecognizedNodeType(n) && n@ == t,
                None => false,
            },
        },
    }
}

impl LanguageInfo {
    /// Compiles the config's queries against `language` and resolves its node types.
    ///
    /// Fails when the config has no definition query; otherwise when a query
    /// does not compile, lacks a capture that its field needs, or names a node
    /// type that the grammar does not have.
    pub fn new(language: tree_sitter::Language, language_name: LanguageName, config: &LanguageConfig) -> (r: Result<
        Self,
        GetLanguageInfoError,
    >)
        ensures
            config.definition_query is None ==> r matches Err(GetLanguageInfoError::DefinitionQueryMissing),
            config.definition_query is Some ==> match first_query_problem(language, config.model()) {
                Some((field, source, p)) => r matches Err(e) && reports_problem(e, field, source, p),
                None => match first_unknown_type(language, match config.model().sibling_node_types {
                    Some(v) => v,
                    None => Seq::empty(),
                }) {
                    Some(t) => r matches Err(GetLanguageInfoError::UnrecognizedNodeType(n)) && n@ == t,
                    None => r is Ok,
                },
            },
            r matches Err(e) ==> error_fits_config(e, *config),
            r matches Ok(info) ==> info_fits(info, language, language_name@, config.model()),
            r matches Err(e) ==> info_failure(e, language, config.model()),
    {
        proof {
            reveal_strlit("TeX");
            reveal_strlit("YAML");
        }
        let definition_query = match &config.definition_query {
            None => {
                return Err(GetLanguageInfoError::DefinitionQueryMissing);
            },
            Some(source) => match compile_definition_query(&language, source) {
                Ok(q) => q,
                Err(e) => {
                    proof { lemma_query_error_fits(e, *config); }
                    return Err(e);
                },
            },
        };
        let parent_query = match compile_parent_query(&language, &config.parent_query) {
            Ok(q) => q,
            Err(e) => {
                proof { lemma_query_error_fits(e, *config); }
                return Err(e);
            },
        };
        let recurse_query = match compile_recurse_query(&language, &config.recurse_query) {
            Ok(q) => q,
            Err(e) => {
                proof { lemma_query_error_fits(e, *config); }
                return Err(e);
            },
        };
        let import_query = match compile_import_query(&language, &config.import_query) {
            Ok(q) => q,
            Err(e) => {
                proof { lemma_query_error_fits(e, *config); }
                return Err(e);
            },
        };
        let injection_query = match compile_injection_query(&language, &config.injection_query) {
            Ok(q) => q,
            Err(e) => {
                proof { lemma_query_error_fits(e, *config); }
                return Err(e);
            },
        };
        let sibling_node_types = match &config.sibling_node_types {
            None => Vec::new(),
            Some(v) => match resolve_node_types(&language, v) {
                Ok(ids) => ids,
                Err(e) => {
                    return Err(e);
                },
            },
        };
        let name_transform = if str_eq(language_name.as_str(), "TeX") {
            Some(NameTransform::TrimLeadingBackslashes)
        } else if str_eq(language_name.as_str(), "YAML") {
            Some(NameTransform::TrimQuotes)
        } else {
            None
        };
        Ok(LanguageInfo {
            language,
            definition_query,
            sibling_node_types,
            parent_query,
            recurse_query,
            import_query,
            injection_query,
            name_transform,
        })
    }
}

/// Why a language's info could not be had.
#[derive(Debug)]
pub enum QueryCompilerError {
    /// An earlier attempt for this language failed.
    HasFailedBefore(LanguageName),
    GetLanguageInfoError(LanguageName, GetLanguageInfoError),
}

/// The message for a [`GetLanguageInfoError`]; `query_error` stands for what
/// tree-sitter says of a query that does not compile.
pub open spec fn describe_info_error(e: GetLanguageInfoError, query_error: Seq<char>) -> Seq<char> {
    match e {
        GetLanguageInfoError::ConfigParseError(c) => "failed to load config: "@ + describe_config_error(c@),
        GetLanguageInfoError::LanguageIsNotInConfig(l) => "language "@ + l@ + " not found in any config"@,
        GetLanguageInfoError::ParserNotConfigured => "no parser configured for language or any of its ancestors"@,
        GetLanguageInfoError::LoaderError(m) => "failed to load parser: "@ + m@,
        GetLanguageInfoError::QueryCompileFailed { query_source, .. } =>
            "cannot compile query "@ + debug_quoted(query_source@) + ": "@ + query_error,
        GetLanguageInfoError::UnrecognizedNodeType(n) => debug_quoted(n@) + " is not a node type the parser recognizes"@,
        GetLanguageInfoError::RequiredCaptureMissing { query_source, capture_name, config_field } =>
            config_field@ + " requires capturing @"@ + capture_name@ + " not found in "@ + debug_quoted(query_source@),
        GetLanguageInfoError::DefinitionQueryMissing => "no config defines definition_query for this language"@,
    }
}

impl GetLanguageInfoError {
    /// The message that tells a user what went wrong.
    pub fn describe(&self) -> (r: String)
        ensures
            exists|query_error: Seq<char>| r@ == describe_info_error(*self, query_error),
    {
        proof {
            reveal_strlit("failed to load config: ");
            reveal_strlit("language ");
            reveal_strlit(" not found in any config");
            reveal_strlit("failed to load parser: ");
            reveal_strlit("cannot compile query ");
            reveal_strlit(": ");
            reveal_strlit(" is not a node type the parser recognizes");
            reveal_strlit(" requires capturing @");
            reveal_strlit(" not found in ");
        }
        let r = match self {
            GetLanguageInfoError::ConfigParseError(c) =>
                String::from_str("failed to load config: ").concat(c.describe().as_str()),
            GetLanguageInfoError::LanguageIsNotInConfig(l) =>
                String::from_str("language ").concat(l.as_str()).concat(" not found in any config"),
            GetLanguageInfoError::ParserNotConfigured =>
                String::from_str("no parser configured for language or any of its ancestors"),
            GetLanguageInfoError::LoaderError(m) => String::from_str("failed to load parser: ").concat(m.as_str()),
            GetLanguageInfoError::QueryCompileFailed { query_source, query_error } => {
                let message = syntax::query_error_message(query_error);
                let r = String::from_str("cannot compile query ")
                    .concat(debug_string(query_source.as_str()).as_str())
                    .concat(": ")
                    .concat(message.as_str());
                assert(r@ == describe_info_error(*self, message@));
                r
            },
            GetLanguageInfoError::UnrecognizedNodeType(n) =>
                debug_string(n.as_str()).concat(" is not a node type the parser recognizes"),
            GetLanguageInfoError::RequiredCaptureMissing { query_source, capture_name, config_field } =>
                String::from_str(config_field)
                    .concat(" requires capturing @")
                    .concat(capture_name)
                    .concat(" not found in ")
                    .concat(debug_string(query_source.as_str()).as_str()),
            GetLanguageInfoError::DefinitionQueryMissing =>
                String::from_str("no config defines definition_query for this language"),
        };
        proof {
            if !(*self is QueryCompileFailed) {
                assert(r@ == describe_info_error(*self, Seq::<char>::empty()));
            }
        }
        r
    }
}

impl QueryCompilerError {
    /// Whether `text` is the message for this error; `query_error` stands for
    /// what tree-sitter says of a query that does not compile.
    pub open spec fn describes(&self, text: Seq<char>) -> bool {
        match self {
            QueryCompilerError::HasFailedBefore(l) => text == "skipping due to previous error for language "@ + l@,
            QueryCompilerError::GetLanguageInfoError(l, e) =>
                exists|query_error: Seq<char>| text == "in "@ + l@ + ": "@ + describe_info_error(*e, query_error),
        }
    }

    /// The message that tells a user what went wrong.
    pub fn describe(&self) -> (r: String)
        ensures
            self.describes(r@),
    {
        proof {
            reveal_strlit("skipping due to previous error for language ");
            reveal_strlit("in ");
            reveal_strlit(": ");
        }
        match self {
            QueryCompilerError::HasFailedBefore(l) =>
                String::from_str("skipping due to previous error for language ").concat(l.as_str()),
            QueryCompilerError::GetLanguageInfoError(l, e) => {
                let d = e.describe();
                let r = String::from_str("in ").concat(l.as_str()).concat(": ").concat(d.as_str());
                let ghost q = choose|query_error: Seq<char>| d@ == describe_info_error(*e, query_error);
                assert(r@ == "in "@ + l@ + ": "@ + describe_info_error(*e, q));
                r
            },
        }
    }
}

/// What a request for a language's info asks of its caller next.
pub enum LanguageInfoStep {
    /// The answer.
    Done(Result<Rc<LanguageInfo>, QueryCompilerError>),
    /// Load the parser of `language_name` from `parser_source`, and hand the
    /// outcome to [`QueryCompiler::parser_loaded`].
    LoadParser {
        language_name: LanguageName,
        parser_source: ParserSource,
    },
    /// `language_name` could not be had, for `reason`; its parent language
    /// stands in for it. Go on with [`QueryCompiler::fall_back`].
    FallBack {
        language_name: LanguageName,
        parent: LanguageName,
        reason: GetLanguageInfoError,
    },
}

/// What the cache holds for a language: its info, or `None` after a failure.
pub type Answer = Option<Rc<LanguageInfo>>;

/// The cache entry that an answer leaves.
pub open spec fn answer_entry(r: Result<Rc<LanguageInfo>, QueryCompilerError>) -> Answer {
    match r {
        Ok(info) => Some(info),
        Err(_) => None,
    }
}

/// What the cache answers for a language it holds.
pub open spec fn cached_answer(n: LanguageName, e: Answer) -> Result<Rc<LanguageInfo>, QueryCompilerError> {
    match e {
        Some(info) => Ok(info),
        None => Err(QueryCompilerError::HasFailedBefore(n)),
    }
}

/// No answer already in `before` changes in `after`.
pub open spec fn keeps_answers(before: Seq<(Seq<char>, Answer)>, after: Seq<(Seq<char>, Answer)>) -> bool {
    forall|n: Seq<char>| (#[trigger] lookup_last(before, n)) is Some ==> lookup_last(after, n) == lookup_last(before, n)
}

/// Compiles each language's queries once, falling back to a parent language
/// when a language's own config or parser fails, and remembers every outcome.
///
/// Loading a parser is the caller's work: a request goes step by step, each
/// step saying what is needed next (see [`LanguageInfoStep`]).
pub struct QueryCompiler {
    config_loader: ConfigLoader,
    cache: Vec<(LanguageName, Answer)>,
    /// Languages that failed and wait for their parent's answer, outermost first.
    waiting: Vec<LanguageName>,
    /// The parent language to try next.
    next: Option<LanguageName>,
    /// The language whose parser was asked for, with its config.
    pending: Option<(LanguageName, Rc<LanguageConfig>)>,
}

impl QueryCompiler {
    /// What the compiler has recorded, in order; the last entry for a language counts.
    pub closed spec fn answers(&self) -> Seq<(Seq<char>, Answer)> {
        self.cache@.map_values(|e: (LanguageName, Answer)| (e.0@, e.1))
    }

    /// The languages that wait for the answer of the language being tried.
    pub closed spec fn waiting(&self) -> Seq<Seq<char>> {
        self.waiting@.map_values(|l: LanguageName| l@)
    }

    /// The parent language to try next, after a [`LanguageInfoStep::FallBack`].
    pub closed spec fn next_language(&self) -> Option<LanguageName> {
        self.next
    }

    /// The language whose parser was asked for, after a [`LanguageInfoStep::LoadParser`].
    pub closed spec fn pending_language(&self) -> Option<LanguageName> {
        match self.pending {
            Some(p) => Some(p.0),
            None => None,
        }
    }

    /// The config of the language whose parser was asked for.
    pub closed spec fn pending_config(&self) -> Option<ConfigModel> {
        match self.pending {
            Some(p) => Some((*p.1).model()),
            None => None,
        }
    }

    /// The language the request under way was made for: the first one that
    /// fell back, or else the one whose parser is awaited.
    pub open spec fn request(&self) -> Option<Seq<char>> {
        if self.waiting().len() > 0 {
            Some(self.waiting()[0])
        } else {
            match self.pending_language() {
                Some(l) => Some(l@),
                None => None,
            }
        }
    }

    /// Where the config loader finds configs.
    pub closed spec fn config_sources(&self) -> ConfigSources {
        self.config_loader.sources()
    }

    /// The configs loaded so far.
    pub closed spec fn config_cache(&self) -> Seq<(Seq<char>, CacheModel)> {
        self.config_loader.cache()
    }

    /// No request is under way.
    pub open spec fn is_idle(&self) -> bool {
        &&& self.waiting().len() == 0
        &&& self.next_language() is None
        &&& self.pending_language() is None
    }

    /// The compiler's invariant: the languages under way have no answer yet.
    pub closed spec fn wf(&self) -> bool {
        &&& forall|i: int| 0 <= i < self.waiting().len() ==> lookup_last(self.answers(), #[trigger] self.waiting()[i]) is None
        &&& (self.pending matches Some(p) ==> lookup_last(self.answers(), p.0@) is None)
        &&& !(self.pending is Some && self.next is Some)
    }

    /// A compiler over the given config loader, with nothing compiled yet.
    pub fn new(config_loader: ConfigLoader) -> (r: Self)
        ensures
            r.wf(),
            r.is_idle(),
            r.answers() == Seq::<(Seq<char>, Answer)>::empty(),
            r.config_sources() == config_loader.sources(),
            r.config_cache() == config_loader.cache(),
    {
        let r = QueryCompiler { config_loader, cache: Vec::new(), waiting: Vec::new(), next: None, pending: None };
        assert(r.answers() =~= Seq::<(Seq<char>, Answer)>::empty());
        assert(r.waiting() =~= Seq::<Seq<char>>::empty());
        r
    }

    fn cache_lookup(&self, n: LanguageName) -> (r: Option<usize>)
        ensures
            match r {
                Some(i) => i < self.cache@.len() && lookup_last(self.answers(), n@) == Some(self.cache@[i as int].1),
                None => lookup_last(self.answers(), n@) is None,
            },
    {
        let mut i = self.cache.len();
        while i > 0
            invariant
                i <= self.cache@.len(),
                forall|j: int| i <= j < self.cache@.len() ==> #[trigger] self.cache@[j].0@ != n@,
            decreases i,
        {
            i = i - 1;
            if self.cache[i].0 == n {
                proof {
                    assert forall|j: int| i < j < self.answers().len() implies #[trigger] self.answers()[j].0 != n@ by {
                        assert(self.answers()[j].0 == self.cache@[j].0@);
                    }
                    lemma_lookup_last_at(self.answers(), n@, i as int);
                }
                return Some(i);
            }
        }
        proof {
            assert forall|j: int| 0 <= j < self.answers().len() implies #[trigger] self.answers()[j].0 != n@ by {
                assert(self.answers()[j].0 == self.cache@[j].0@);
            }
            crate::config::lemma_lookup_last_none(self.answers(), n@);
        }
        None
    }

    /// Records `answer` for `n`.
    fn record(&mut self, n: LanguageName, answer: Answer)
        ensures
            final(self).answers() == old(self).answers().push((n@, answer)),
            final(self).waiting == old(self).waiting,
            final(self).next == old(self).next,
            final(self).pending == old(self).pending,
            final(self).config_loader == old(self).config_loader,
    {
        let ghost before = self.answers();
        self.cache.push((n, answer));
        assert(self.answers() =~= before.push((n@, answer)));
    }

    /// Another handle on the same answer.
    fn share(a: &Answer) -> (r: Answer)
        ensures
            r == *a,
    {
        match a {
            Some(info) => Some(Rc::clone(info)),
            None => None,
        }
    }

    /// Records `answer` for every waiting language, innermost first, and ends the request.
    fn finish(&mut self, answer: Answer)
        requires
            forall|i: int| 0 <= i < old(self).waiting().len() ==> {
                ||| lookup_last(old(self).answers(), #[trigger] old(self).waiting()[i]) is None
                ||| lookup_last(old(self).answers(), old(self).waiting()[i]) == Some(answer)
            },
            old(self).next is None,
            old(self).pending is None,
        ensures
            final(self).wf(),
            final(self).is_idle(),
            final(self).config_loader == old(self).config_loader,
            keeps_answers(old(self).answers(), final(self).answers()),
            old(self).waiting().len() == 0 ==> final(self).answers() == old(self).answers(),
            forall|i: int| 0 <= i < old(self).waiting().len()
                ==> lookup_last(final(self).answers(), #[trigger] old(self).waiting()[i]) == Some(answer),
    {
        let ghost a0 = self.answers();
        let ghost w0 = self.waiting();
        while self.waiting.len() > 0
            invariant
                self.next is None,
                self.pending is None,
                self.config_loader == old(self).config_loader,
                self.waiting().len() <= w0.len(),
                self.waiting() == w0.take(self.waiting().len() as int),
                forall|i: int| 0 <= i < w0.len() ==> {
                    ||| lookup_last(a0, #[trigger] w0[i]) is None
                    ||| lookup_last(a0, w0[i]) == Some(answer)
                },
                w0.len() == 0 ==> self.answers() == a0,
                keeps_answers(a0, self.answers()),
                forall|n: Seq<char>| (#[trigger] lookup_last(a0, n)) is None ==> (lookup_last(self.answers(), n) is None
                    || lookup_last(self.answers(), n) == Some(answer)),
                forall|i: int| self.waiting().len() <= i < w0.len() ==> lookup_last(self.answers(), #[trigger] w0[i]) == Some(answer),
            decreases self.waiting@.len(),
        {
            let ghost wb = self.waiting();
            let n = self.waiting.pop().unwrap();
            let ghost w = self.waiting();
            let ghost a = self.answers();
            assert(w =~= wb.drop_last());
            assert(n@ == wb[wb.len() - 1]);
            assert(wb[wb.len() - 1] == w0[w.len() as int]);
            assert(w =~= w0.take(w.len() as int));
            self.record(n, Self::share(&answer));
            proof {
                lemma_lookup_last_at(self.answers(), n@, self.answers().len() - 1);
                assert forall|m: Seq<char>| m != n@ implies lookup_last(#[trigger] self.answers(), m) == lookup_last(a, m) by {
                    assert(self.answers().drop_last() == a);
                }
                assert(lookup_last(a0, n@) is None || lookup_last(a0, n@) == Some(answer));
            }
        }
        assert(self.waiting() =~= Seq::<Seq<char>>::empty());
    }
}

/// Whether `reason` is why the config of language `n` gives no parser to load:
/// the config could not be loaded, or it names no parser.
pub open spec fn config_failure(sources: ConfigSources, config_cache: Seq<(Seq<char>, CacheModel)>, n: Seq<char>, reason: GetLanguageInfoError) -> bool {
    match load_outcome(sources, config_cache, n) {
        Err(ce) => reason matches GetLanguageInfoError::ConfigParseError(e) && e@ == ce,
        Ok(c) => c.parser is None && reason is ParserNotConfigured,
    }
}

/// The parent language that stands in for `n` when `n` fails.
pub open spec fn fallback_of(n: LanguageName, p: LanguageName) -> bool {
    hyperpolyglot_group(n@) matches Some(g) && p@ == resolve_name(g)
}

/// Whether `n` has a parent language that hyperpolyglot knows.
pub open spec fn has_fallback(n: LanguageName) -> bool {
    hyperpolyglot_group(n@) matches Some(g) && language_known(g)
}

impl QueryCompiler {
    /// What holds after every step: the invariant, the same config sources, and
    /// every answer recorded before kept. A finished request leaves the
    /// compiler idle, with its answer recorded for every language that waited on it.
    pub open spec fn step_holds(old: Self, new: Self, r: LanguageInfoStep) -> bool {
        &&& new.wf()
        &&& new.config_sources() == old.config_sources()
        &&& keeps_answers(old.answers(), new.answers())
        &&& (r matches LanguageInfoStep::Done(a) ==> {
            &&& new.is_idle()
            &&& forall|i: int| 0 <= i < old.waiting().len()
                ==> lookup_last(new.answers(), #[trigger] old.waiting()[i]) == Some(answer_entry(a))
            &&& old.request() matches Some(q) ==> lookup_last(new.answers(), q) == Some(answer_entry(a))
        })
        &&& (!(r is Done) && old.request() is Some ==> new.request() == old.request())
        &&& (r matches LanguageInfoStep::LoadParser { language_name, .. } ==> {
            &&& new.pending_language() == Some(language_name)
            &&& new.next_language() is None
            &&& new.waiting() == old.waiting()
        })
        &&& (r matches LanguageInfoStep::FallBack { language_name, parent, .. } ==> {
            &&& fallback_of(language_name, parent)
            &&& new.next_language() == Some(parent)
            &&& new.pending_language() is None
            &&& new.waiting() == old.waiting().push(language_name@)
        })
    }

    /// The failure of `n` for `reason`: its parent stands in for it if it has
    /// one; otherwise the failure is recorded and is the answer.
    fn fail(&mut self, n: LanguageName, reason: GetLanguageInfoError) -> (r: LanguageInfoStep)
        requires
            old(self).wf(),
            old(self).next is None,
            old(self).pending is None,
            lookup_last(old(self).answers(), n@) is None,
        ensures
            Self::step_holds(*old(self), *final(self), r),
            has_fallback(n) ==> (r matches LanguageInfoStep::FallBack { language_name, reason: e, .. }
                && language_name == n && e == reason),
            !has_fallback(n) ==> r == LanguageInfoStep::Done(Err(QueryCompilerError::GetLanguageInfoError(n, reason)))
                && lookup_last(final(self).answers(), n@) == Some(None::<Rc<LanguageInfo>>),
    {
        match n.parent() {
            Some(parent) => {
                let ghost w = self.waiting();
                self.waiting.push(n);
                assert(self.waiting() =~= w.push(n@));
                self.next = Some(parent);
                LanguageInfoStep::FallBack { language_name: n, parent, reason }
            },
            None => {
                let ghost a = self.answers();
                self.record(n, None);
                proof {
                    lemma_lookup_last_at(self.answers(), n@, self.answers().len() - 1);
                    assert forall|m: Seq<char>| m != n@ implies lookup_last(#[trigger] self.answers(), m) == lookup_last(a, m) by {
                        assert(self.answers().drop_last() == a);
                    }
                }
                let ghost mid = self.answers();
                self.finish(None);
                proof {
                    assert(lookup_last(mid, n@) is Some);
                }
                LanguageInfoStep::Done(Err(QueryCompilerError::GetLanguageInfoError(n, reason)))
            },
        }
    }

    /// Tries language `n`: from the cache, else from its config.
    fn attempt(&mut self, n: LanguageName) -> (r: LanguageInfoStep)
        requires
            old(self).wf(),
            old(self).next is None,
            old(self).pending is None,
        ensures
            Self::step_holds(*old(self), *final(self), r),
            lookup_last(old(self).answers(), n@) matches Some(e) ==> r == LanguageInfoStep::Done(cached_answer(n, e))
                && final(self).config_cache() == old(self).config_cache()
                && (old(self).waiting().len() == 0 ==> final(self).answers() == old(self).answers()),
            lookup_last(old(self).answers(), n@) is None ==> {
                &&& r matches LanguageInfoStep::LoadParser { language_name, parser_source } ==> language_name == n
                    && (load_outcome(old(self).config_sources(), old(self).config_cache(), n@) matches Ok(c)
                    && c.parser == Some(parser_source) && final(self).pending_config() == Some(c))
                &&& r matches LanguageInfoStep::FallBack { language_name, reason, .. } ==> language_name == n
                    && config_failure(old(self).config_sources(), old(self).config_cache(), n@, reason)
                &&& r matches LanguageInfoStep::Done(a) ==> a matches Err(QueryCompilerError::GetLanguageInfoError(l, reason))
                    && l == n && config_failure(old(self).config_sources(), old(self).config_cache(), n@, reason)
                    && lookup_last(final(self).answers(), n@) == Some(None::<Rc<LanguageInfo>>)
            },
    {
        match self.cache_lookup(n) {
            Some(i) => {
                let answer = Self::share(&self.cache[i].1);
                let result = match &answer {
                    Some(info) => Ok(Rc::clone(info)),
                    None => Err(QueryCompilerError::HasFailedBefore(n)),
                };
                self.finish(answer);
                return LanguageInfoStep::Done(result);
            },
            None => {},
        }
        let ghost sources = self.config_sources();
        let ghost config_cache = self.config_cache();
        match self.config_loader.load_config(n) {
            Err(e) => self.fail(n, GetLanguageInfoError::ConfigParseError(e)),
            Ok(config) => match &config.parser {
                None => self.fail(n, GetLanguageInfoError::ParserNotConfigured),
                Some(parser_source) => {
                    let parser_source = parser_source.duplicate();
                    self.pending = Some((n, config));
                    LanguageInfoStep::LoadParser { language_name: n, parser_source }
                },
            },
        }
    }

    /// Starts a request for the info of `language_name`.
    pub fn get_language_info(&mut self, language_name: LanguageName) -> (r: LanguageInfoStep)
        requires
            old(self).wf(),
            old(self).is_idle(),
        ensures
            Self::step_holds(*old(self), *final(self), r),
            lookup_last(old(self).answers(), language_name@) matches Some(e)
                ==> r == LanguageInfoStep::Done(cached_answer(language_name, e))
                && final(self).answers() == old(self).answers()
                && final(self).config_cache() == old(self).config_cache(),
            lookup_last(old(self).answers(), language_name@) is None ==> {
                &&& r matches LanguageInfoStep::LoadParser { language_name: l, parser_source } ==> l == language_name
                    && (load_outcome(old(self).config_sources(), old(self).config_cache(), l@) matches Ok(c)
                    && c.parser == Some(parser_source) && final(self).pending_config() == Some(c))
                &&& r matches LanguageInfoStep::FallBack { language_name: l, reason, .. } ==> l == language_name
                    && config_failure(old(self).config_sources(), old(self).config_cache(), l@, reason)
                &&& r matches LanguageInfoStep::Done(a) ==> a matches Err(QueryCompilerError::GetLanguageInfoError(l, reason))
                    && l == language_name
                    && config_failure(old(self).config_sources(), old(self).config_cache(), l@, reason)
                    && lookup_last(final(self).answers(), language_name@) == Some(None::<Rc<LanguageInfo>>)
            },
            r matches LanguageInfoStep::Done(a) ==> lookup_last(final(self).answers(), language_name@) == Some(answer_entry(a)),
            !(r is Done) ==> final(self).request() == Some(language_name@),
    {
        self.attempt(language_name)
    }

    /// Goes on with the parent language after a [`LanguageInfoStep::FallBack`].
    pub fn fall_back(&mut self) -> (r: LanguageInfoStep)
        requires
            old(self).wf(),
            old(self).next_language() is Some,
        ensures
            Self::step_holds(*old(self), *final(self), r),
            r matches LanguageInfoStep::LoadParser { language_name, parser_source } ==> language_name == old(self).next_language()->0
                && (load_outcome(old(self).config_sources(), old(self).config_cache(), language_name@) matches Ok(c)
                && c.parser == Some(parser_source) && final(self).pending_config() == Some(c)),
    {
        let parent = self.next.take().unwrap();
        self.attempt(parent)
    }

    /// Goes on after a [`LanguageInfoStep::LoadParser`], with the loaded parser
    /// or the loader's message: compiles the language's queries, or falls back.
    pub fn parser_loaded(&mut self, loaded: Result<tree_sitter::Language, String>) -> (r: LanguageInfoStep)
        requires
            old(self).wf(),
            old(self).pending_language() is Some,
        ensures
            Self::step_holds(*old(self), *final(self), r),
            ({
                let n = old(self).pending_language()->0;
                &&& r matches LanguageInfoStep::Done(Ok(info)) ==> lookup_last(final(self).answers(), n@) == Some(Some(info))
                    && (loaded matches Ok(language) && info_fits(*info, language, n@, old(self).pending_config()->0))
                &&& r matches LanguageInfoStep::Done(Err(e)) ==> e matches QueryCompilerError::GetLanguageInfoError(l, _) && l == n
                    && lookup_last(final(self).answers(), n@) == Some(None::<Rc<LanguageInfo>>)
                &&& r matches LanguageInfoStep::FallBack { language_name, .. } ==> language_name == n
                &&& r is LoadParser ==> false
                &&& loaded matches Err(m) ==> match r {
                    LanguageInfoStep::FallBack { reason, .. } => reason == GetLanguageInfoError::LoaderError(m),
                    LanguageInfoStep::Done(a) => a == Err::<Rc<LanguageInfo>, QueryCompilerError>(
                        QueryCompilerError::GetLanguageInfoError(n, GetLanguageInfoError::LoaderError(m))),
                    _ => false,
                }
                &&& loaded matches Ok(language) ==> match r {
                    LanguageInfoStep::FallBack { reason, .. } => info_failure(reason, language, old(self).pending_config()->0),
                    LanguageInfoStep::Done(Err(QueryCompilerError::GetLanguageInfoError(_, reason))) =>
                        info_failure(reason, language, old(self).pending_config()->0),
                    _ => true,
                }
            }),
    {
        let (n, config) = self.pending.take().unwrap();
        let outcome = match loaded {
            Err(message) => Err(GetLanguageInfoError::LoaderError(message)),
            Ok(language) => LanguageInfo::new(language, n, &*config),
        };
        match outcome {
            Err(e) => self.fail(n, e),
            Ok(info) => self.succeed(n, info),
        }
    }

    /// Records the info of `n` as the answer for it and for every language waiting on it.
    fn succeed(&mut self, n: LanguageName, info: LanguageInfo) -> (r: LanguageInfoStep)
        requires
            old(self).wf(),
            old(self).next is None,
            old(self).pending is None,
            lookup_last(old(self).answers(), n@) is None,
        ensures
            Self::step_holds(*old(self), *final(self), r),
            r matches LanguageInfoStep::Done(Ok(i)) && lookup_last(final(self).answers(), n@) == Some(Some(i)) && *i == info,
    {
        let info = Rc::new(info);
        let ghost a = self.answers();
        self.record(n, Some(Rc::clone(&info)));
        proof {
            lemma_lookup_last_at(self.answers(), n@, self.answers().len() - 1);
            assert forall|m: Seq<char>| m != n@ implies lookup_last(#[trigger] self.answers(), m) == lookup_last(a, m) by {
                assert(self.answers().drop_last() == a);
            }
        }
        let ghost mid = self.answers();
        self.finish(Some(Rc::clone(&info)));
        proof {
            assert(lookup_last(mid, n@) is Some);
        }
        LanguageInfoStep::Done(Ok(info))
    }
}

/// A request answered with `a` and made again later gets the same answer
/// from the cache: the same info, or "has failed before" after a failure
/// (see [`QueryCompiler::get_language_info`]).
pub proof fn law_request_answered_again(
    answered: Seq<(Seq<char>, Answer)>,
    later: Seq<(Seq<char>, Answer)>,
    n: LanguageName,
    a: Result<Rc<LanguageInfo>, QueryCompilerError>,
)
    requires
        lookup_last(answered, n@) == Some(answer_entry(a)),
        keeps_answers(answered, later),
    ensures
        lookup_last(later, n@) is Some,
        cached_answer(n, lookup_last(later, n@)->0) == match a {
            Ok(info) => Ok::<Rc<LanguageInfo>, QueryCompilerError>(info),
            Err(_) => Err(QueryCompilerError::HasFailedBefore(n)),
        },
{
}

/// Answers are kept over any number of steps: what one step keeps, the next keeps too.
pub proof fn law_answers_kept_over_steps(
    a: Seq<(Seq<char>, Answer)>,
    b: Seq<(Seq<char>, Answer)>,
    c: Seq<(Seq<char>, Answer)>,
)
    requires
        keeps_answers(a, b),
        keeps_answers(b, c),
    ensures
        keeps_answers(a, c),
{
}

/// Once a language has an answer, every later state of the compiler holds
/// that same answer, so every later request for the language gets it again
/// from the cache (see [`QueryCompiler::get_language_info`]): the same info,
/// or "has failed before".
pub proof fn law_answer_served_again(
    before: Seq<(Seq<char>, Answer)>,
    later: Seq<(Seq<char>, Answer)>,
    n: LanguageName,
)
    requires
        lookup_last(before, n@) is Some,
        keeps_answers(before, later),
    ensures
        lookup_last(later, n@) == lookup_last(before, n@),
        cached_answer(n, lookup_last(later, n@)->0) == cached_answer(n, lookup_last(before, n@)->0),
{
}

} // verus!
