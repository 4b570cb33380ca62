use dook::config::{ConfigLoader, LanguageConfig, ParserSource};
use dook::dumptree::dump_tree;
use dook::main_search::{
    search_one_file_with_one_injection, PassStep, SearchParams, SearchResult, SingleFileSearch,
};
use dook::pattern::Pattern;
use dook::query_compiler::{
    GetLanguageInfoError, InjectionLanguageHint, LanguageInfo, LanguageInfoStep, QueryCompiler, QueryCompilerError,
};
use dook::searches::{
    find_definition, find_injections, find_names, injections_in_matches, names_in_matches, node_text, MatchSpans,
    ParsedFile,
};
use dook::LanguageName;

const SOURCE: &str = "import os
from pkg.mod import helper

# a comment about A
class A:
    # about f
    @staticmethod
    def f(x):
        return helper(x)

    def g(self):
        return 1

def helper(y):
    q = \"select 1\"
    return y
";

fn python() -> tree_sitter::Language {
    tree_sitter_python::LANGUAGE.into()
}

fn python_config() -> LanguageConfig {
    let mut c = LanguageConfig::empty(4);
    c.parser = Some(ParserSource::Static("Python".to_string()));
    c.definition_query = Some(
        "(function_definition name: (identifier) @name) @def\n(class_definition name: (identifier) @name) @def".to_string(),
    );
    c.sibling_node_types = Some(vec!["comment".to_string(), "decorator".to_string()]);
    c.parent_query = Some("(class_definition body: (_) @exclude)".to_string());
    c.recurse_query = Some("(call function: (identifier) @name)".to_string());
    c.import_query = Some("(import_from_statement module_name: (dotted_name) @origin name: (dotted_name) @name)".to_string());
    c.injection_query = Some("((string (string_content) @injection.content) (#set! injection.language \"sql\"))".to_string());
    c
}

fn info() -> LanguageInfo {
    LanguageInfo::new(python(), LanguageName::python(), &python_config()).unwrap()
}

fn tree() -> tree_sitter::Tree {
    ParsedFile::from_bytes_and_language(SOURCE.as_bytes(), LanguageName::python(), &python()).unwrap().tree
}

fn pattern(p: &str) -> Pattern {
    Pattern::new(p, false).unwrap()
}

fn lines(u: &dook::RangeUnion) -> Vec<(usize, usize)> {
    u.merged_ranges(0).into_iter().map(|r| (r.start, r.end)).collect()
}

#[test]
fn language_info_resolves_captures_and_hints() {
    let info = info();
    assert_eq!(info.sibling_node_types.len(), 2);
    assert!(info.sibling_node_types.iter().all(|t| *t != 0));
    assert!(info.parent_query.as_ref().unwrap().index_exclude.is_some());
    let injection = info.injection_query.as_ref().unwrap();
    assert_eq!(injection.language_hints_by_pattern_index.len(), 1);
    assert!(matches!(&injection.language_hints_by_pattern_index[0], InjectionLanguageHint::Fixed(s) if s == "sql"));
    assert!(info.name_transform.is_none());
    let tex = LanguageInfo::new(python(), LanguageName::tex(), &python_config()).unwrap();
    assert_eq!(tex.name_transform.unwrap().apply("\\\\section"), "section");
    let yaml = LanguageInfo::new(python(), LanguageName::yaml(), &python_config()).unwrap();
    assert_eq!(yaml.name_transform.unwrap().apply("'\"key\"'"), "key");
}

#[test]
fn language_info_errors() {
    let mut c = python_config();
    c.definition_query = None;
    assert!(matches!(LanguageInfo::new(python(), LanguageName::python(), &c), Err(GetLanguageInfoError::DefinitionQueryMissing)));
    let mut c = python_config();
    c.definition_query = Some("(function_definition) @name".to_string());
    match LanguageInfo::new(python(), LanguageName::python(), &c) {
        Err(e @ GetLanguageInfoError::RequiredCaptureMissing { .. }) => {
            assert_eq!(e.describe(), "definition_query requires capturing @def not found in \"(function_definition) @name\"")
        }
        other => panic!("unexpected {:?}", other.map(|_| ())),
    }
    let mut c = python_config();
    c.recurse_query = Some("(no_such_node) @name".to_string());
    match LanguageInfo::new(python(), LanguageName::python(), &c) {
        Err(GetLanguageInfoError::QueryCompileFailed { query_source, .. }) => assert_eq!(query_source, "(no_such_node) @name"),
        other => panic!("unexpected {:?}", other.map(|_| ())),
    }
    let mut c = python_config();
    c.sibling_node_types = Some(vec!["comment".to_string(), "no_such_node".to_string()]);
    match LanguageInfo::new(python(), LanguageName::python(), &c) {
        Err(e @ GetLanguageInfoError::UnrecognizedNodeType(_)) => {
            assert_eq!(e.describe(), "\"no_such_node\" is not a node type the parser recognizes")
        }
        other => panic!("unexpected {:?}", other.map(|_| ())),
    }
}

#[test]
fn names_are_sorted_and_unique() {
    let names = find_names(SOURCE.as_bytes(), &tree(), &info(), &pattern("."));
    assert_eq!(names, vec!["A", "f", "g", "helper"]);
    let names = find_names(SOURCE.as_bytes(), &tree(), &info(), &pattern("^[fg]$"));
    assert_eq!(names, vec!["f", "g"]);
}

#[test]
fn definition_brings_decorators_and_class_header() {
    let r = find_definition(SOURCE.as_bytes(), &tree(), &info(), &pattern("^f$"), true);
    // the class header runs to the end of what precedes the class body: the
    // comment before the body's first statement is not inside the body node
    assert_eq!(lines(&r.ranges), vec![(4, 9)]);
    assert_eq!(r.recurse_names, vec!["helper"]);
    assert!(r.import_origins.is_empty());
    let r = find_definition(SOURCE.as_bytes(), &tree(), &info(), &pattern("^f$"), false);
    assert!(r.recurse_names.is_empty());
}

#[test]
fn definition_brings_the_comment_before_it() {
    let r = find_definition(SOURCE.as_bytes(), &tree(), &info(), &pattern("^A$"), true);
    assert_eq!(lines(&r.ranges), vec![(3, 12)]);
}

#[test]
fn imports_say_where_a_name_comes_from() {
    let r = find_definition(SOURCE.as_bytes(), &tree(), &info(), &pattern("^helper$"), true);
    assert_eq!(lines(&r.ranges), vec![(13, 16)]);
    assert_eq!(r.import_origins, vec!["pkg.mod"]);
    assert!(r.recurse_names.is_empty());
}

#[test]
fn injections_carry_their_hint() {
    let found = find_injections(SOURCE.as_bytes(), &tree(), &info(), &pattern("select"));
    assert_eq!(found.len(), 1);
    assert_eq!(found[0].language_hint.as_deref(), Some("sql"));
    assert_eq!(node_text(SOURCE.as_bytes(), &found[0].range).as_deref(), Some("select 1"));
    assert!(found[0].context.is_empty());
    assert!(find_injections(SOURCE.as_bytes(), &tree(), &info(), &pattern("nothing here")).is_empty());
}

#[test]
fn query_compiler_loads_once_and_remembers() {
    let loader = ConfigLoader::new(vec![(LanguageName::python(), Ok(python_config()))], vec![], None);
    let mut qc = QueryCompiler::new(loader);
    match qc.get_language_info(LanguageName::python()) {
        LanguageInfoStep::LoadParser { language_name, parser_source } => {
            assert_eq!(language_name.as_str(), "Python");
            assert!(matches!(parser_source, ParserSource::Static(ref s) if s == "Python"));
        }
        _ => panic!("the parser is needed first"),
    }
    let first = match qc.parser_loaded(Ok(python())) {
        LanguageInfoStep::Done(Ok(info)) => info,
        _ => panic!("the info should compile"),
    };
    match qc.get_language_info(LanguageName::python()) {
        LanguageInfoStep::Done(Ok(info)) => assert!(std::rc::Rc::ptr_eq(&info, &first)),
        _ => panic!("the info is cached"),
    }
}

#[test]
fn query_compiler_falls_back_to_the_parent_language() {
    let loader = ConfigLoader::new(vec![], vec![], None);
    let mut qc = QueryCompiler::new(loader);
    match qc.get_language_info(LanguageName::tsx()) {
        LanguageInfoStep::FallBack { language_name, parent, reason } => {
            assert_eq!(language_name.as_str(), "TSX");
            assert_eq!(parent.as_str(), "TypeScript");
            assert_eq!(reason.describe(), "failed to load config: failed to load TSX config earlier");
        }
        _ => panic!("TSX falls back to TypeScript"),
    }
    match qc.fall_back() {
        LanguageInfoStep::Done(Err(e)) => {
            assert_eq!(e.describe(), "in TypeScript: failed to load config: failed to load TypeScript config earlier")
        }
        _ => panic!("TypeScript has no config either"),
    }
    match qc.get_language_info(LanguageName::tsx()) {
        LanguageInfoStep::Done(Err(e @ QueryCompilerError::HasFailedBefore(_))) => {
            assert_eq!(e.describe(), "skipping due to previous error for language TSX")
        }
        _ => panic!("the failure is remembered"),
    }
}

#[test]
fn query_compiler_reports_loader_errors() {
    let loader = ConfigLoader::new(vec![(LanguageName::python(), Ok(python_config()))], vec![], None);
    let mut qc = QueryCompiler::new(loader);
    assert!(matches!(qc.get_language_info(LanguageName::python()), LanguageInfoStep::LoadParser { .. }));
    match qc.parser_loaded(Err("no network".to_string())) {
        LanguageInfoStep::Done(Err(e)) => assert_eq!(e.describe(), "in Python: failed to load parser: no network"),
        _ => panic!("Python has no parent language"),
    }
}

#[test]
fn single_file_search_runs_every_pass() {
    let info = info();
    let local = pattern("^helper$");
    let current = pattern("helper|select");
    let params = SearchParams { local_pattern: &local, current_pattern: &current, only_names: false, recurse: false };
    let bytes = SOURCE.as_bytes();
    let mut search = SingleFileSearch::new(LanguageName::python());
    let mut passes = 0;
    let mut skipped = 0;
    loop {
        match search.next_pass(bytes) {
            PassStep::Finished => break,
            PassStep::Skip { .. } => skipped += 1,
            PassStep::Search { language_name, injection } => {
                let pass = search_one_file_with_one_injection(&params, &info, bytes, language_name, injection.as_ref()).unwrap();
                passes += 1;
                search.record_pass(pass);
            }
        }
    }
    // the injected "sql" fragment names no language that hyperpolyglot knows by that name
    assert_eq!(passes, 1);
    assert_eq!(skipped, 1);
    let results = search.into_results();
    assert_eq!(lines(&results.ranges), vec![(13, 16)]);
    assert_eq!(results.import_origins.len(), 1);
    assert_eq!(results.import_origins[0].0.as_str(), "Python");
    assert_eq!(results.import_origins[0].1, "pkg.mod");
}

#[test]
fn only_names_pass_lists_names() {
    let info = info();
    let local = pattern("^(f|g)$");
    let current = pattern("zzz");
    let params = SearchParams { local_pattern: &local, current_pattern: &current, only_names: true, recurse: false };
    let pass = search_one_file_with_one_injection(&params, &info, SOURCE.as_bytes(), LanguageName::python(), None).unwrap();
    match pass.search_result {
        SearchResult::Names(names) => assert_eq!(names, vec!["f", "g"]),
        _ => panic!("only names were asked for"),
    }
    assert!(pass.injections.is_empty());
}

#[test]
fn dump_shows_fields_and_leaves() {
    let source = b"x = 1\n";
    let tree = ParsedFile::from_bytes_and_language(source, LanguageName::python(), &python()).unwrap().tree;
    let expected = "(module\n (expression_statement\n  (assignment\n   left: (identifier = \"x\")\n   \"=\"\n   right: (integer = \"1\")\n   )\n  )\n )\n)\n";
    assert_eq!(dump_tree(&tree, source, false), expected);
    let colored = dump_tree(&tree, source, true);
    assert!(colored.starts_with("\x1b[1;37m(\x1b[1;34mmodule\x1b[m\n"));
}

#[test]
fn names_can_be_matched_ignoring_case() {
    let upper = Pattern::new("^F$", true).unwrap();
    assert_eq!(find_names(SOURCE.as_bytes(), &tree(), &info(), &upper), vec!["f".to_string()]);
    let exact = Pattern::new("^F$", false).unwrap();
    assert!(find_names(SOURCE.as_bytes(), &tree(), &info(), &exact).is_empty());
}

fn span(start: usize, end: usize) -> tree_sitter::Range {
    tree_sitter::Range {
        start_byte: start,
        end_byte: end,
        start_point: tree_sitter::Point::new(0, start),
        end_point: tree_sitter::Point::new(0, end),
    }
}

fn sample_matches() -> Vec<MatchSpans> {
    vec![
        MatchSpans { pattern_index: 0, captures: vec![(0, span(4, 7)), (1, span(8, 11)), (0, span(0, 3))] },
        MatchSpans { pattern_index: 1, captures: vec![(0, span(12, 15)), (0, span(0, 3)), (0, span(9, 40))] },
    ]
}

const SAMPLE: &str = "abc foo bar xyz";

#[test]
fn names_of_given_matches() {
    let names = names_in_matches(SAMPLE.as_bytes(), &sample_matches(), 0, &pattern("^[a-f]|z"));
    assert_eq!(names, vec!["abc".to_string(), "foo".to_string(), "xyz".to_string()]);
    let names = names_in_matches(SAMPLE.as_bytes(), &sample_matches(), 1, &pattern("."));
    assert_eq!(names, vec!["bar".to_string()]);
    assert!(names_in_matches(SAMPLE.as_bytes(), &vec![], 0, &pattern(".")).is_empty());
}

#[test]
fn injections_of_given_matches() {
    let hints = vec![InjectionLanguageHint::Capture(1), InjectionLanguageHint::Fixed("sql".to_string())];
    let found = injections_in_matches(SAMPLE.as_bytes(), &sample_matches(), 0, &hints, &pattern("o|x"));
    assert_eq!(found.len(), 2);
    assert_eq!((found[0].range.start_byte, found[0].range.end_byte), (4, 7));
    assert_eq!(found[0].language_hint.as_deref(), Some("bar"));
    assert_eq!((found[1].range.start_byte, found[1].range.end_byte), (12, 15));
    assert_eq!(found[1].language_hint.as_deref(), Some("sql"));
    assert!(found.iter().all(|i| i.context.is_empty()));
}
