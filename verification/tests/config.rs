use dook::config::{
    classify_config_file, combine_queries, ConfigFileKind, ConfigFormat, ConfigLoader, ConfigParseError,
    LanguageConfig, LanguageConfigV1, LanguageConfigV3, MonolithicConfig, MonolithicConfigV1,
    MonolithicConfigV2, MonolithicConfigV3, ParserSource,
};
use dook::multi_line_string::MultiLineString;
use dook::LanguageName;

fn empty_v1() -> LanguageConfigV1 {
    LanguageConfigV1 {
        parser: None,
        match_patterns: vec![],
        sibling_patterns: vec![],
        parent_patterns: vec![],
        parent_exclusions: vec![],
        recurse_patterns: None,
        import_patterns: None,
        comments: None,
    }
}

fn resolve_v2(v2: MonolithicConfigV2) -> MonolithicConfig {
    MonolithicConfig::try_from_v3(MonolithicConfigV3::from_v2(v2)).unwrap()
}

#[test]
fn v1_vs_v2() {
    let v1 = MonolithicConfigV1 { languages: vec![("python".to_string(), empty_v1())] };
    let v1 = resolve_v2(MonolithicConfigV2::from_v1(v1));
    let v2 = MonolithicConfigV2 { version: 2, languages: vec![("python".to_string(), empty_v1())] };
    let v2 = resolve_v2(v2);
    assert_eq!(format!("{:?}", v1), format!("{:?}", v2));
}

#[test]
fn v2_vs_v3() {
    let mut python_v2 = empty_v1();
    python_v2.match_patterns = vec![MultiLineString::new("(function_definition name: (_) @name) @def".to_string())];
    let v2 = resolve_v2(MonolithicConfigV2 { version: 2, languages: vec![("pYtHOn".to_string(), python_v2)] });
    let python_v3 = LanguageConfigV3 {
        parser: None,
        extends: None,
        definition_query: Some("(function_definition name: (_) @name) @def".to_string()),
        sibling_node_types: Some(vec![]),
        parent_query: None,
        recurse_query: None,
        import_query: None,
        injection_query: None,
    };
    let v3 = MonolithicConfig::try_from_v3(MonolithicConfigV3 {
        version: 3,
        languages: vec![("Python".to_string(), python_v3)],
    })
    .unwrap();
    assert_eq!(format!("{:?}", v2), format!("{:?}", v3));
}

#[test]
fn v3_with_unknown_language_is_refused() {
    let config = LanguageConfigV3::from_v1(empty_v1());
    let r = MonolithicConfig::try_from_v3(MonolithicConfigV3 { version: 3, languages: vec![("klingon".to_string(), config)] });
    match r {
        Err(e) => assert_eq!(e.describe(), "unknown language: klingon"),
        Ok(_) => panic!("klingon is no language"),
    }
}

#[test]
fn v1_patterns_become_queries() {
    let mut v1 = empty_v1();
    v1.match_patterns = vec![MultiLineString::new("(a) @def".to_string()), MultiLineString::new("(b) @def".to_string())];
    v1.parent_patterns = vec!["class_definition".to_string(), "function_definition".to_string()];
    let v3 = LanguageConfigV3::from_v1(v1);
    assert_eq!(v3.definition_query.as_deref(), Some("(a) @def\n(b) @def"));
    assert_eq!(v3.parent_query.as_deref(), Some("(class_definition)\n(function_definition)"));
    assert_eq!(v3.sibling_node_types, Some(vec![]));
    let v4 = LanguageConfig::from_v3(v3);
    assert_eq!(v4.version, 4);
}

#[test]
fn config_format_from_version() {
    assert_eq!(ConfigFormat::from_version(None).unwrap(), ConfigFormat::V1);
    assert_eq!(ConfigFormat::from_version(Some(3)).unwrap(), ConfigFormat::V3);
    match ConfigFormat::from_version(Some(7)) {
        Err(e) => assert_eq!(e.describe(), "Value is out of range"),
        Ok(_) => panic!("version 7 does not exist"),
    }
    assert_eq!(ConfigFormat::V2.as_str(), "2");
}

#[test]
fn combine_queries_appends_after_ellipsis() {
    let base = "(a) @def".to_string();
    assert_eq!(combine_queries(Some(&base), Some("  ...\n(b) @def".to_string())).as_deref(), Some("(a) @def\n(b) @def"));
    assert_eq!(combine_queries(Some(&base), Some("  (c) @def".to_string())).as_deref(), Some("(c) @def"));
    assert_eq!(combine_queries(Some(&base), None).as_deref(), Some("(a) @def"));
    assert_eq!(combine_queries(None, Some("...(d)".to_string())).as_deref(), Some("(d)"));
    assert_eq!(combine_queries(None, None), None);
}

fn config_with(definition_query: &str) -> LanguageConfig {
    let mut c = LanguageConfig::empty(4);
    c.definition_query = Some(definition_query.to_string());
    c
}

#[test]
fn rebase_puts_own_fields_over_base() {
    let mut base = config_with("(a) @def");
    base.parser = Some(ParserSource::Static("Python".to_string()));
    base.sibling_node_types = Some(vec!["comment".to_string()]);
    base.parent_query = Some("(class)".to_string());
    let mut own = config_with("...\n(b) @def");
    own.sibling_node_types = Some(vec!["...".to_string(), "decorator".to_string()]);
    own.rebase(&base);
    assert_eq!(own.definition_query.as_deref(), Some("(a) @def\n(b) @def"));
    assert_eq!(own.sibling_node_types, Some(vec!["decorator".to_string(), "comment".to_string()]));
    assert_eq!(own.parent_query.as_deref(), Some("(class)"));
    assert!(matches!(own.parser, Some(ParserSource::Static(ref s)) if s == "Python"));
}

#[test]
fn replace_takes_set_fields() {
    let mut c = config_with("(a) @def");
    c.parent_query = Some("(class)".to_string());
    let mut r = LanguageConfig::empty(4);
    r.parent_query = Some("(module)".to_string());
    c.replace(r);
    assert_eq!(c.definition_query.as_deref(), Some("(a) @def"));
    assert_eq!(c.parent_query.as_deref(), Some("(module)"));
}

#[test]
fn load_config_follows_extends() {
    let mut typescript = config_with("(ts) @def");
    typescript.parser = Some(ParserSource::Static("TypeScript".to_string()));
    let mut tsx = config_with("...\n(tsx) @def");
    tsx.extends = Some("TypeScript".to_string());
    let mut loader = ConfigLoader::new(
        vec![(LanguageName::typescript(), Ok(typescript)), (LanguageName::tsx(), Ok(tsx))],
        vec![],
        None,
    );
    let loaded = loader.load_config(LanguageName::tsx()).unwrap();
    assert_eq!(loaded.definition_query.as_deref(), Some("(ts) @def\n(tsx) @def"));
    assert!(matches!(loaded.parser, Some(ParserSource::Static(ref s)) if s == "TypeScript"));
    // loaded once, served again
    let again = loader.load_config(LanguageName::tsx()).unwrap();
    assert_eq!(again.definition_query, loaded.definition_query);
}

#[test]
fn user_config_replaces_default_fields() {
    let default = config_with("(a) @def");
    let mut user = LanguageConfig::empty(4);
    user.recurse_query = Some("(call) @name".to_string());
    let mut loader = ConfigLoader::new(vec![(LanguageName::go(), Ok(default))], vec![(LanguageName::go(), Ok(user))], None);
    let loaded = loader.load_config(LanguageName::go()).unwrap();
    assert_eq!(loaded.definition_query.as_deref(), Some("(a) @def"));
    assert_eq!(loaded.recurse_query.as_deref(), Some("(call) @name"));
}

#[test]
fn extends_cycle_is_reported() {
    let mut c = config_with("(c) @def");
    c.extends = Some("C++".to_string());
    let mut cpp = config_with("(cpp) @def");
    cpp.extends = Some("C".to_string());
    let mut loader = ConfigLoader::new(vec![(LanguageName::c(), Ok(c)), (LanguageName::cplusplus(), Ok(cpp))], vec![], None);
    match loader.load_config(LanguageName::c()) {
        Err(e) => assert_eq!(e.describe(), "\"extends\" field in C config points into a cycle"),
        Ok(_) => panic!("a cycle has no config"),
    }
    match loader.load_config(LanguageName::c()) {
        Err(e) => assert_eq!(e.describe(), "failed to load C config earlier"),
        Ok(_) => panic!("a failure is remembered"),
    }
}

#[test]
fn extends_unknown_language_is_reported() {
    let mut go = config_with("(go) @def");
    go.extends = Some("Gopher".to_string());
    let mut loader = ConfigLoader::new(vec![(LanguageName::go(), Ok(go))], vec![], None);
    match loader.load_config(LanguageName::go()) {
        Err(e) => assert_eq!(e.describe(), "Go extends unknown language \"Gopher\""),
        Ok(_) => panic!("Gopher is no language"),
    }
}

#[test]
fn missing_config_has_failed_before() {
    let mut loader = ConfigLoader::new(vec![], vec![], None);
    match loader.load_config(LanguageName::rust()) {
        Err(ConfigParseError::HasFailedBefore(l)) => assert_eq!(l.as_str(), "Rust"),
        other => panic!("unexpected {:?}", other.map(|_| ())),
    }
}

#[test]
fn monolithic_config_is_used_without_a_file() {
    let config = LanguageConfigV3 {
        parser: None,
        extends: None,
        definition_query: Some("(m) @def".to_string()),
        sibling_node_types: None,
        parent_query: None,
        recurse_query: None,
        import_query: None,
        injection_query: None,
    };
    let m = MonolithicConfig::try_from_v3(MonolithicConfigV3 { version: 3, languages: vec![("Rust".to_string(), config)] }).unwrap();
    let mut loader = ConfigLoader::new(vec![], vec![], Some(m));
    assert_eq!(loader.load_config(LanguageName::rust()).unwrap().definition_query.as_deref(), Some("(m) @def"));
}

#[test]
fn config_parse_error_messages() {
    assert_eq!(ConfigParseError::UnknownVersion(ConfigFormat::V4).describe(), "unknown version: 4");
    assert_eq!(ConfigParseError::UnknownLanguage("klingon".to_string()).describe(), "unknown language: klingon");
    assert_eq!(ConfigParseError::NotUtf8("bad bytes".to_string()).describe(), "bad bytes");
}

#[test]
fn config_files_are_classified_by_name() {
    assert!(matches!(classify_config_file("dook.yml"), ConfigFileKind::Monolithic));
    assert!(matches!(classify_config_file("dook.json"), ConfigFileKind::Monolithic));
    match classify_config_file("Python.yml") {
        ConfigFileKind::Language(l) => assert_eq!(l.as_str(), "Python"),
        other => panic!("unexpected {:?}", other),
    }
    match classify_config_file("python.yml") {
        ConfigFileKind::Language(l) => assert_eq!(l.as_str(), "Python"),
        other => panic!("unexpected {:?}", other),
    }
    match classify_config_file("cxx.yml") {
        ConfigFileKind::Language(l) => assert_eq!(l.as_str(), "C++"),
        other => panic!("unexpected {:?}", other),
    }
    assert!(matches!(classify_config_file("klingon.yml"), ConfigFileKind::Other));
    assert!(matches!(classify_config_file("Python.yaml"), ConfigFileKind::Other));
    assert!(matches!(classify_config_file(".yml"), ConfigFileKind::Other));
}

#[test]
fn a_loaded_config_is_shared_not_copied() {
    let mut loader = ConfigLoader::new(vec![(LanguageName::go(), Ok(config_with("(go) @def")))], vec![], None);
    let first = loader.load_config(LanguageName::go()).unwrap();
    let second = loader.load_config(LanguageName::go()).unwrap();
    assert!(std::rc::Rc::ptr_eq(&first, &second));
}
