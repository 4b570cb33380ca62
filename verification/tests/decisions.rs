use dook::loader::{
    builtin_parser_named, expected_tarball_hash, tarball_hash_check, up_to_date, FileTime, TarballHashError,
};
use dook::cli::{
    answer_allows, download_decision, download_prompt, local_pattern_source, next_round_pattern, pager_command,
    pager_wanted, paging_enabled, paging_warnings, resolve_color, resolve_downloads_policy, stable_sort_order,
    names_to_print, unmatched_names, EnablementLevel,
};
use dook::paging::pager_args;
use dook::pattern::Pattern;
use dook::downloads_policy::DownloadsPolicy;
use dook::loader::{
    abi_version_supported, generate_log, repo_name, tarball_plan, trim_git_output, BuildFailure, BuildStep,
    GenerateOutput, GitFailure, GitStep, GitSync, ParserBuild,
};
use dook::outputs::WrapMode;
use dook::run_grep::{grep_command, RipGrepError};
use std::path::PathBuf;

#[test]
fn color_and_paging_follow_the_terminal_by_default() {
    assert_eq!(resolve_color(EnablementLevel::Auto, true), EnablementLevel::Always);
    assert_eq!(resolve_color(EnablementLevel::Auto, false), EnablementLevel::Never);
    assert_eq!(resolve_color(EnablementLevel::Never, true), EnablementLevel::Never);
    assert!(paging_enabled(EnablementLevel::Auto, 1, true));
    assert!(!paging_enabled(EnablementLevel::Auto, 2, true));
    assert!(!paging_enabled(EnablementLevel::Auto, 0, false));
    assert!(paging_enabled(EnablementLevel::Always, 5, false));
    assert_eq!(EnablementLevel::Always.as_str(), "always");
}

#[test]
fn downloads_policy_of_a_run() {
    assert_eq!(resolve_downloads_policy(true, Some(DownloadsPolicy::Yes), DownloadsPolicy::Yes, true), DownloadsPolicy::No);
    assert_eq!(resolve_downloads_policy(false, Some(DownloadsPolicy::Yes), DownloadsPolicy::No, true), DownloadsPolicy::Yes);
    assert_eq!(resolve_downloads_policy(false, None, DownloadsPolicy::Ask, true), DownloadsPolicy::Ask);
    assert_eq!(resolve_downloads_policy(false, None, DownloadsPolicy::Ask, false), DownloadsPolicy::No);
    assert!(pager_wanted(true, DownloadsPolicy::Yes));
    assert!(!pager_wanted(true, DownloadsPolicy::Ask));
}

#[test]
fn pager_commands() {
    assert_eq!(pager_command(None, WrapMode::Never), "less -RFS");
    assert_eq!(pager_command(Some("less"), WrapMode::Auto), "less -RF");
    assert_eq!(pager_command(Some("most"), WrapMode::Never), "most");
}

#[test]
fn local_pattern_is_anchored() {
    assert_eq!(local_pattern_source("foo|bar"), "^(foo|bar)$");
}

#[test]
fn recursion_needs_exactly_one_new_name() {
    let one = vec!["a.b".to_string(), "a.b".to_string()];
    assert_eq!(next_round_pattern(true, false, &one).as_deref(), Some("a\\.b"));
    let two = vec!["a".to_string(), "b".to_string()];
    assert_eq!(next_round_pattern(true, false, &two), None);
    assert_eq!(next_round_pattern(false, false, &one), None);
    assert_eq!(next_round_pattern(true, true, &one), None);
    assert_eq!(next_round_pattern(true, false, &vec![]), None);
    let split = vec!["a".to_string(), "b".to_string(), "a".to_string()];
    assert_eq!(next_round_pattern(true, false, &split), None);
}

#[test]
fn stable_order_keeps_ties_in_place() {
    assert_eq!(stable_sort_order(&vec![0, -2, 0, -1, -2]), vec![1, 4, 3, 0, 2]);
    assert_eq!(stable_sort_order(&vec![]), Vec::<usize>::new());
}

#[test]
fn downloads_ask_or_decide() {
    assert_eq!(download_decision(DownloadsPolicy::Yes), Some(true));
    assert_eq!(download_decision(DownloadsPolicy::No), Some(false));
    assert_eq!(download_decision(DownloadsPolicy::Ask), None);
    assert_eq!(download_prompt("https://x/y.git"), "download from \"https://x/y.git\"? (y/n): ");
    assert!(answer_allows("y") && answer_allows("Y"));
    assert!(!answer_allows("yes") && !answer_allows(""));
}

#[test]
fn paging_warning_names_the_settings_file() {
    let w = paging_warnings(true, DownloadsPolicy::Ask, Some("/home/u/.config/dook/downloads_policy.txt"));
    assert_eq!(w.len(), 2);
    assert!(w[0].starts_with("Paging was disabled"));
    assert_eq!(w[1], "Or write YES or NO to \"/home/u/.config/dook/downloads_policy.txt\"");
    assert!(paging_warnings(true, DownloadsPolicy::No, None).is_empty());
}

#[test]
fn grep_commands() {
    let (program, args) = grep_command(true, true, "fo+");
    assert_eq!(program, "rg");
    assert_eq!(args, vec!["-l", "--sort=path", "-0", "-i", "fo+", "./"]);
    let (program, args) = grep_command(false, false, "x");
    assert_eq!(program, "grep");
    assert_eq!(args, vec!["-lIErZ", "x", "./"]);
    assert_eq!(RipGrepError::FileNameUnparseable(vec![255, 0, 7]).describe(), "ripgrep returned unreadable filename: [255, 0, 7]");
    assert_eq!(RipGrepError::NotLaunched("no rg".to_string()).describe(), "failed to run ripgrep: no rg");
}

#[test]
fn repository_names() {
    assert_eq!(repo_name("https://github.com/tree-sitter/tree-sitter-python"), "tree-sitter-python");
    assert_eq!(repo_name("git@host:repo"), "repo");
    assert_eq!(repo_name("plain"), "plain");
    assert_eq!(repo_name("a:b/c"), "c");
}

#[test]
fn git_output_is_trimmed() {
    assert_eq!(trim_git_output(b"abc\r\n\n"), b"abc".to_vec());
    assert_eq!(trim_git_output(b"abc\r"), b"abc".to_vec());
}

#[test]
fn tarball_plans() {
    assert_eq!(tarball_plan(DownloadsPolicy::No, None), (false, true));
    assert_eq!(tarball_plan(DownloadsPolicy::Yes, Some(true)), (false, false));
    assert_eq!(tarball_plan(DownloadsPolicy::Yes, Some(false)), (true, true));
    assert_eq!(tarball_plan(DownloadsPolicy::Ask, None), (true, true));
}

#[test]
fn git_checkout_clones_then_checks_out() {
    let dest = PathBuf::from("/cache/repo");
    let (mut git, step) = GitSync::new("https://x/repo", "v1", &dest, DownloadsPolicy::Yes);
    assert!(matches!(step, GitStep::GetOriginUrl));
    assert!(matches!(git.origin_url(Err("no repo".to_string()), true), GitStep::Clone));
    match git.cloned(Ok(())) {
        GitStep::VerifyRevision { revision } => assert_eq!(revision, "v1^{commit}"),
        other => panic!("unexpected {:?}", other),
    }
    assert!(matches!(git.revision_checked(true), GitStep::GetHead));
    assert!(matches!(git.head(Ok(b"main\n".to_vec()), true), GitStep::Checkout));
    assert!(matches!(git.checked_out(Ok(())), GitStep::Done));
}

#[test]
fn git_checkout_refuses_other_remotes_and_asks_before_fetching() {
    let dest = PathBuf::from("/cache/repo");
    let (mut git, _) = GitSync::new("https://x/repo", "v1", &dest, DownloadsPolicy::Ask);
    match git.origin_url(Ok(b"https://y/repo\n".to_vec()), true) {
        GitStep::Failed(GitFailure::WrongRemote { existing_remote }) => assert_eq!(existing_remote, b"https://y/repo"),
        other => panic!("unexpected {:?}", other),
    }
    let (mut git, _) = GitSync::new("https://x/repo", "v1", &dest, DownloadsPolicy::Ask);
    assert!(matches!(git.origin_url(Ok(b"https://x/repo\n".to_vec()), true), GitStep::VerifyRevision { .. }));
    assert!(matches!(git.revision_checked(false), GitStep::AskToDownload));
    assert!(matches!(git.download_answer(true), GitStep::Fetch));
    match git.fetched(Err("offline".to_string())) {
        GitStep::Failed(GitFailure::CommandFailed { verb, message }) => {
            assert_eq!(verb, "fetch \"https://x/repo\" to \"/cache/repo\"");
            assert_eq!(message, "offline");
        }
        other => panic!("unexpected {:?}", other),
    }
    let (mut git, _) = GitSync::new("https://x/repo", "v1", &dest, DownloadsPolicy::No);
    assert!(matches!(git.origin_url(Err("none".to_string()), true), GitStep::Failed(GitFailure::NotAllowedToDownload)));
}

#[test]
fn git_checkout_done_when_head_is_the_revision() {
    let dest = PathBuf::from("/cache/repo");
    let (mut git, _) = GitSync::new("u", "abc123", &dest, DownloadsPolicy::Yes);
    git.origin_url(Ok(b"u".to_vec()), true);
    git.revision_checked(true);
    assert!(matches!(git.head(Ok(b"abc123\n".to_vec()), true), GitStep::Done));
}

#[test]
fn generator_output_is_logged_trimmed() {
    assert_eq!(generate_log(&b"  wrote parser.c \n".to_vec()), Some("tree-sitter generate: wrote parser.c".to_string()));
    assert_eq!(generate_log(&b" \n\t".to_vec()), None);
    assert_eq!(generate_log(&Vec::new()), None);
    assert_eq!(generate_log(&vec![0xff, 10]), Some("tree-sitter generate: [255, 10]".to_string()));
}

#[test]
fn grammar_abi_versions() {
    assert!(!abi_version_supported(12));
    assert!(abi_version_supported(13));
    assert!(abi_version_supported(15));
    assert!(!abi_version_supported(16));
}

#[test]
fn grammar_that_loads_is_done() {
    let (mut build, step) = ParserBuild::new(false, true);
    assert!(matches!(step, BuildStep::TryLoad));
    assert!(matches!(build.loaded(Some(14)), BuildStep::Done));
}

#[test]
fn grammar_of_an_old_abi_is_generated_and_rebuilt() {
    let (mut build, step) = ParserBuild::new(false, true);
    assert!(matches!(step, BuildStep::TryLoad));
    assert!(matches!(build.loaded(Some(12)), BuildStep::CheckParserC));
    assert!(matches!(build.parser_c_checked(Some(false)), BuildStep::Generate));
    let output = GenerateOutput { stdout: Vec::new(), stderr: Vec::new(), success: true, status: "exit status: 0".to_string() };
    assert!(matches!(build.generated(&Ok(output)), BuildStep::Rebuild));
    assert!(matches!(build.rebuilt(Ok(())), BuildStep::Done));
}

#[test]
fn forced_rebuild_skips_generation_when_parser_c_exists() {
    let (mut build, step) = ParserBuild::new(true, true);
    assert!(matches!(step, BuildStep::CheckParserC));
    assert!(matches!(build.parser_c_checked(Some(true)), BuildStep::Rebuild));
    match build.rebuilt(Err("cc failed".to_string())) {
        BuildStep::Failed(BuildFailure::CompileFailed(m)) => assert_eq!(m, "cc failed"),
        other => panic!("unexpected {other:?}"),
    }
    let (_, step) = ParserBuild::new(true, false);
    assert!(matches!(step, BuildStep::Rebuild));
}

#[test]
fn failed_generation_is_reported() {
    let (mut build, _) = ParserBuild::new(true, true);
    build.parser_c_checked(Some(false));
    let output = GenerateOutput { stdout: Vec::new(), stderr: Vec::new(), success: false, status: "exit status: 1".to_string() };
    match build.generated(&Ok(output)) {
        BuildStep::Failed(BuildFailure::GenerateFailed { status }) => assert_eq!(status, "exit status: 1"),
        other => panic!("unexpected {other:?}"),
    }
    let (mut build, _) = ParserBuild::new(true, true);
    build.parser_c_checked(Some(false));
    match build.generated(&Err("not found".to_string())) {
        BuildStep::Failed(BuildFailure::GeneratorNotFound(m)) => assert_eq!(m, "not found"),
        other => panic!("unexpected {other:?}"),
    }
}

#[test]
fn patterns_that_do_not_compile_are_refused() {
    let e = Pattern::new("(unclosed", false).err().unwrap();
    assert!(!e.message.is_empty());
    let p = Pattern::new("^(foo)$", true).unwrap();
    assert_eq!(p.as_str(), "^(foo)$");
}

#[test]
fn names_already_looked_up_are_not_recursed_into() {
    let seen = vec![Pattern::new("^(f)$", false).unwrap(), Pattern::new("^(helper)$", true).unwrap()];
    let names = vec!["f".to_string(), "g".to_string(), "HELPER".to_string(), "ff".to_string(), "g".to_string()];
    assert_eq!(unmatched_names(&seen, &names), vec!["g".to_string(), "ff".to_string(), "g".to_string()]);
    assert_eq!(unmatched_names(&vec![], &names), names);
}

#[test]
fn next_round_pattern_matches_the_name_literally() {
    let next = next_round_pattern(true, false, &vec!["a.b".to_string()]).unwrap();
    let p = Pattern::new(&next, false).unwrap();
    let names = vec!["xa.by".to_string(), "axb".to_string(), "a.b".to_string()];
    assert_eq!(unmatched_names(&vec![p], &names), vec!["axb".to_string()]);
}

#[test]
fn pager_arguments() {
    assert_eq!(pager_args("less", false), vec!["-RF".to_string()]);
    assert_eq!(pager_args("less", true), vec!["-RF".to_string(), "-S".to_string()]);
    assert!(pager_args("more", true).is_empty());
}

#[test]
fn tarball_hashes_are_checked() {
    let abc = "ba7816bf8f01cfea414140de5dae2223b00361a396177a9cb410ff61f20015ad";
    assert!(tarball_hash_check(abc, b"abc").is_ok());
    assert!(tarball_hash_check(&abc.to_uppercase(), b"abc").is_ok());
    match tarball_hash_check(&"00".repeat(32), b"abc") {
        Err(TarballHashError::WrongHash { recomputed_hash }) => assert_eq!(recomputed_hash, abc),
        other => panic!("unexpected {other:?}"),
    }
    assert!(matches!(tarball_hash_check("xyz", b"abc"), Err(TarballHashError::ExpectedHashIsInvalid(_))));
    assert!(matches!(expected_tarball_hash("zz"), Err(TarballHashError::ExpectedHashIsInvalid(_))));
    assert_eq!(expected_tarball_hash(abc).unwrap()[0], 0xba);
}

#[test]
fn names_are_printed_once_across_files() {
    let mut printed = vec!["a".to_string()];
    let first = names_to_print(&mut printed, &vec!["b".to_string(), "a".to_string(), "b".to_string(), "c".to_string()]);
    assert_eq!(first, vec!["b".to_string(), "c".to_string()]);
    assert_eq!(printed, vec!["a".to_string(), "b".to_string(), "c".to_string()]);
    assert!(names_to_print(&mut printed, &vec!["c".to_string()]).is_empty());
}

#[test]
fn built_files_are_up_to_date_when_newer() {
    assert!(up_to_date(FileTime::At(5), FileTime::At(3)));
    assert!(!up_to_date(FileTime::At(3), FileTime::At(3)));
    assert!(up_to_date(FileTime::At(-1), FileTime::Missing));
    assert!(!up_to_date(FileTime::Missing, FileTime::Missing));
    assert!(!up_to_date(FileTime::At(5), FileTime::Unknown));
    assert!(!up_to_date(FileTime::Unknown, FileTime::At(1)));
}

#[test]
fn python_is_the_built_in_parser() {
    assert!(builtin_parser_named("Python"));
    assert!(builtin_parser_named("python"));
    assert!(!builtin_parser_named("Rust"));
    assert!(!builtin_parser_named("klingon"));
}

#[test]
fn git_remote_that_is_no_platform_string_counts_as_empty() {
    let dest = PathBuf::from("/cache/repo");
    let (mut git, _) = GitSync::new("https://x/repo", "v1", &dest, DownloadsPolicy::Yes);
    match git.origin_url(Ok(b"https://x/repo\n".to_vec()), false) {
        GitStep::Failed(GitFailure::WrongRemote { existing_remote }) => assert!(existing_remote.is_empty()),
        other => panic!("unexpected {:?}", other),
    }
}
