use dook::inputs::{detect_language_from_path, filter_candidates, Error, LoadedFile};
use dook::ipynb::{to_markdown, to_unaligned_markdown, Cell, CellType, Notebook, Output};
use dook::multi_line_string::MultiLineString;
use dook::subfiles::extract_subfiles;
use dook::LanguageName;

fn mls(s: &str) -> MultiLineString {
    MultiLineString::new(s.to_string())
}

fn notebook() -> Notebook {
    Notebook {
        language_name: "python".to_string(),
        cells: vec![
            Cell { cell_type: CellType::Markdown, source: mls("# Title"), outputs: None },
            Cell {
                cell_type: CellType::Code,
                source: mls("x = 1\nx"),
                outputs: Some(vec![Output {
                    text: Some(mls("out")),
                    traceback: None,
                    data: Some(vec![("text/html".to_string(), mls("<b>1</b>")), ("text/plain".to_string(), mls("1"))]),
                }]),
            },
        ],
    }
}

#[test]
fn notebook_as_markdown() {
    let expected = "# Title\n\n```python\nx = 1\nx\n```\n\n```\nout\n```\n\n```\n1\n```\n\n";
    assert_eq!(to_markdown(&notebook()), expected);
    assert_eq!(to_unaligned_markdown(&notebook()).unwrap(), expected.as_bytes());
}

#[test]
fn notebook_subfile_is_markdown() {
    let files = extract_subfiles(LanguageName::ipynb(), Some(&notebook()), Some("cat \"a.ipynb\"".to_string())).unwrap();
    assert_eq!(files.len(), 1);
    assert_eq!(files[0].language_name.as_str(), "Markdown");
    assert_eq!(files[0].recipe.as_deref(), Some("cat \"a.ipynb\" <to markdown>"));
    let stdin = extract_subfiles(LanguageName::ipynb(), Some(&notebook()), None).unwrap();
    assert_eq!(stdin[0].recipe.as_deref(), Some("STDIN <to markdown>"));
    assert!(extract_subfiles(LanguageName::python(), None, None).is_none());
}

#[test]
fn detection_results_become_languages_or_errors() {
    assert_eq!(detect_language_from_path(Ok(Some("Rust"))).unwrap().as_str(), "Rust");
    assert!(matches!(detect_language_from_path(Ok(None)), Err(Error::UnknownLanguage)));
    assert!(matches!(detect_language_from_path(Ok(Some("Klingon"))), Err(Error::UnsupportedLanguage(ref l)) if l == "Klingon"));
    assert!(matches!(detect_language_from_path(Err("gone".to_string())), Err(Error::UnreadableFile(ref m)) if m == "gone"));
}

#[test]
fn loaded_file_keeps_bytes_and_recipe() {
    let path = std::path::PathBuf::from("src/a.rs");
    let f = LoadedFile::load(&path, Ok(Some("Rust")), Ok(b"fn a() {}".to_vec())).unwrap();
    assert_eq!(f.bytes, b"fn a() {}");
    assert_eq!(f.recipe.as_deref(), Some("cat \"src/a.rs\""));
    assert_eq!(f.describe(), "\"cat \\\"src/a.rs\\\"\"");
    assert!(matches!(LoadedFile::load(&path, Ok(Some("Rust")), Err("denied".to_string())), Err(Error::UnreadableFile(_))));
    assert!(matches!(LoadedFile::load_stdin(Ok(vec![])), Err(Error::EmptyStdin)));
    assert!(matches!(LoadedFile::load_stdin(Ok(b"x".to_vec())), Err(Error::UnknownLanguage)));
}

#[test]
fn input_error_messages() {
    assert_eq!(Error::UnknownLanguage.describe(), "unknown language");
    assert_eq!(Error::UnsupportedLanguage("Klingon".to_string()).describe(), "unsupported language \"Klingon\"");
    assert_eq!(Error::EmptyStdin.describe(), "stdin is empty");
}

#[test]
fn candidates_narrow_to_the_common_ones() {
    assert_eq!(filter_candidates(vec![], vec!["C", "C++"]), vec!["C", "C++"]);
    assert_eq!(filter_candidates(vec!["C", "C++"], vec!["C++", "Objective-C"]), vec!["C++"]);
    assert_eq!(filter_candidates(vec!["C", "C++"], vec!["Go"]), vec!["C", "C++"]);
}
