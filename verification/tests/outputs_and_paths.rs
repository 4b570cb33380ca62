use dook::dep_resolution::dissimilarity;
use dook::outputs::{bat_arguments, plain_excerpt_text, OutputOptions, WrapMode};
use dook::paging::is_broken_pipe;
use dook::{LanguageName, RangeUnion};
use std::path::PathBuf;

#[test]
fn python_imports_prefer_matching_paths() {
    let p = PathBuf::from("./src/pkg/mod");
    assert_eq!(dissimilarity(LanguageName::python(), "pkg.mod", &p), -2);
    assert_eq!(dissimilarity(LanguageName::python(), "other.mod", &p), -1);
    assert_eq!(dissimilarity(LanguageName::python(), "x", &p), 0);
    assert_eq!(dissimilarity(LanguageName::rust(), "pkg.mod", &p), 0);
}

#[test]
fn bat_arguments_fill_one_line_gaps() {
    let mut ranges = RangeUnion::default();
    ranges.push(0..2);
    ranges.push(3..5);
    ranges.push(10..11);
    let options = OutputOptions { wrap: WrapMode::Never, plain: 1, use_color: false, terminal_size: Some((24, 80)) };
    assert_eq!(
        bat_arguments(&options, &ranges),
        vec![
            "--paging=never",
            "--wrap=never",
            "--color=never",
            "--terminal-width=80",
            "--plain",
            "--line-range=1:5",
            "--line-range=11:11",
        ]
    );
    let options = OutputOptions { wrap: WrapMode::Auto, plain: 0, use_color: true, terminal_size: None };
    assert_eq!(bat_arguments(&options, &ranges)[..3], ["--paging=never", "--wrap=auto", "--color=always"]);
}

#[test]
fn bat_arguments_accept_an_empty_range_at_the_end_inside_another() {
    let mut ranges = RangeUnion::default();
    ranges.push(5..usize::MAX);
    ranges.push(usize::MAX..usize::MAX);
    let options = OutputOptions { wrap: WrapMode::Never, plain: 0, use_color: false, terminal_size: None };
    let args = bat_arguments(&options, &ranges);
    assert_eq!(args.last().unwrap(), &format!("--line-range=6:{}", usize::MAX));
    assert_eq!(args.len(), 4);
}

#[test]
fn plain_excerpt_numbers_lines_and_separates_ranges() {
    let lines: Vec<Option<String>> = (1..=12).map(|i| Some(format!("line {i}"))).collect();
    let mut ranges = RangeUnion::default();
    ranges.push(1..2);
    ranges.push(9..11);
    let (text, stopped) = plain_excerpt_text("f.py", &lines, &ranges, true, Some((10, 11)));
    assert_eq!(
        text,
        "==========\nf.py\n==========\n  2 | line 2\n----------\n 10 | line 10\n 11 | line 11\n"
    );
    assert!(!stopped);
    let empty = RangeUnion::default();
    assert_eq!(plain_excerpt_text("f.py", &lines, &empty, true, None), (String::new(), false));
}

#[test]
fn plain_excerpt_stops_at_a_shown_line_that_is_not_text() {
    let mut lines: Vec<Option<String>> = (1..=6).map(|i| Some(format!("line {i}"))).collect();
    lines[1] = None;
    lines[4] = None;
    let mut ranges = RangeUnion::default();
    ranges.push(0..1);
    ranges.push(4..6);
    // line 2 is not shown, so it does no harm; line 5 is
    let (text, stopped) = plain_excerpt_text("f", &lines, &ranges, true, Some((5, 5)));
    assert_eq!(text, "====\nf\n====\n 1 | line 1\n----\n 5 | ");
    assert!(stopped);
    let (text, stopped) = plain_excerpt_text("f", &lines, &ranges, false, Some((5, 5)));
    assert_eq!(text, "====\nf\n====\nline 1\n----\n");
    assert!(stopped);
}

#[test]
fn broken_pipe_is_recognized() {
    let ok: std::io::Result<()> = Ok(());
    assert!(!is_broken_pipe(&ok));
    let e: std::io::Result<()> = Err(std::io::Error::from(std::io::ErrorKind::BrokenPipe));
    assert!(is_broken_pipe(&e));
    let e: std::io::Result<()> = Err(std::io::Error::from(std::io::ErrorKind::NotFound));
    assert!(!is_broken_pipe(&e));
}
