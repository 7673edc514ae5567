use vcs_help::github::BookmarkEntry;
use vcs_help::github::BookmarkPattern;
use vcs_help::github::GhError;
use vcs_help::github::GithubCommand;
use vcs_help::github::GithubLinkArgs;
use vcs_help::github::LinkTarget;
use vcs_help::github::UserError;
use vcs_help::github::cmd_github;
use vcs_help::github::find_bookmarks;
use vcs_help::github::links_for_bookmarks;
use vcs_help::github::links_for_commits;
use vcs_help::github::parse_utf8_string;
use vcs_help::github::run_command;
use vcs_help::github::run_command_with_output;
use vcs_help::github::trim_end_whitespace;

fn tokens(ts: &[&str]) -> Vec<String> {
    ts.iter().map(|s| s.to_string()).collect()
}

fn exact(raw: &str) -> BookmarkPattern {
    BookmarkPattern { raw: raw.to_string(), exact: true }
}

fn glob(raw: &str) -> BookmarkPattern {
    BookmarkPattern { raw: raw.to_string(), exact: false }
}

fn entry(name: &str, local_present: bool, remote_tracking: bool) -> BookmarkEntry {
    BookmarkEntry { name: name.to_string(), local_present, remote_tracking }
}

#[test]
fn cmd_github_plans_bookmark_lookup() {
    let cmd = GithubCommand::Link(GithubLinkArgs {
        revision: Vec::new(),
        bookmark: Some(vec![exact("main"), glob("glob:release-*")]),
    });
    match cmd_github(&cmd) {
        LinkTarget::Bookmarks(pats) => {
            assert_eq!(pats.len(), 2);
            assert_eq!(pats[0].raw, "main");
            assert!(pats[0].exact);
            assert_eq!(pats[1].raw, "glob:release-*");
            assert!(!pats[1].exact);
        },
        _ => panic!("expected a bookmark lookup"),
    }
}

#[test]
fn cmd_github_plans_revision_resolution() {
    let cmd = GithubCommand::Link(GithubLinkArgs {
        revision: tokens(&["@-", "trunk()"]),
        bookmark: None,
    });
    match cmd_github(&cmd) {
        LinkTarget::Revisions(revs) => assert_eq!(revs, tokens(&["@-", "trunk()"])),
        _ => panic!("expected revision resolution"),
    }
}

#[test]
fn cmd_github_defaults_to_working_copy_revision() {
    let cmd = GithubCommand::Link(GithubLinkArgs { revision: Vec::new(), bookmark: None });
    assert!(matches!(cmd_github(&cmd), LinkTarget::DefaultRevision));
}

#[test]
fn links_for_commits_build_browse_invocations() {
    let invocations = links_for_commits(&tokens(&["abc123", "def456"]));
    assert_eq!(invocations.len(), 2);
    assert_eq!(invocations[0], tokens(&["browse", "--no-browser", "abc123"]));
    assert_eq!(invocations[1], tokens(&["browse", "--no-browser", "def456"]));
}

#[test]
fn links_for_bookmarks_build_branch_invocations() {
    let invocations = links_for_bookmarks(&tokens(&["main"]));
    assert_eq!(invocations.len(), 1);
    assert_eq!(invocations[0], tokens(&["browse", "--no-browser", "--branch", "main"]));
}

#[test]
fn find_bookmarks_filters_untracked_absent_entries() {
    let patterns = vec![glob("glob:rel*")];
    let candidates = vec![vec![
        entry("release-1", true, true),
        entry("release-2", false, false),
        entry("release-3", false, true),
    ]];
    let found = find_bookmarks(&patterns, &candidates).unwrap();
    let names: Vec<&str> = found.iter().map(|e| e.name.as_str()).collect();
    assert_eq!(names, vec!["release-1", "release-3"]);
}

#[test]
fn find_bookmarks_keeps_pattern_order() {
    let patterns = vec![exact("main"), exact("dev")];
    let candidates = vec![vec![entry("main", true, true)], vec![entry("dev", true, false)]];
    let found = find_bookmarks(&patterns, &candidates).unwrap();
    let names: Vec<&str> = found.iter().map(|e| e.name.as_str()).collect();
    assert_eq!(names, vec!["main", "dev"]);
}

#[test]
fn find_bookmarks_reports_missing_exact_name() {
    let patterns = vec![exact("main")];
    let candidates = vec![vec![entry("main", false, false)]];
    let err = find_bookmarks(&patterns, &candidates).unwrap_err();
    assert_eq!(err.message, "No such bookmark: main");
    assert!(err.hint.is_none());
}

#[test]
fn find_bookmarks_reports_missing_patterns_joined() {
    let patterns = vec![glob("glob:a*"), exact("b"), exact("c")];
    let candidates = vec![Vec::new(), vec![entry("b", true, true)], Vec::new()];
    let err = find_bookmarks(&patterns, &candidates).unwrap_err();
    assert_eq!(err.message, "No matching bookmarks for patterns: glob:a*, c");
}

#[test]
fn find_bookmarks_single_inexact_miss_uses_general_message() {
    let patterns = vec![glob("glob:rel*")];
    let candidates = vec![Vec::new()];
    let err = find_bookmarks(&patterns, &candidates).unwrap_err();
    assert_eq!(err.message, "No matching bookmarks for patterns: glob:rel*");
}

#[test]
fn run_command_success_passes_stdout_through() {
    let out = run_command(true, "exit status: 0".to_string(), b"raw bytes".to_vec(), &Vec::new())
        .unwrap();
    assert_eq!(out, b"raw bytes".to_vec());
}

#[test]
fn run_command_failure_carries_trimmed_stderr() {
    let err = run_command(
        false,
        "exit status: 1".to_string(),
        Vec::new(),
        &b"boom: not a repository\n".to_vec(),
    )
    .unwrap_err();
    match err {
        GhError::Command { ref exit_status, ref stderr } => {
            assert_eq!(exit_status, "exit status: 1");
            assert_eq!(stderr, "boom: not a repository");
        },
        _ => panic!("expected a command failure"),
    }
}

#[test]
fn run_command_with_output_trims_trailing_newline() {
    let link = run_command_with_output(b"https://example.com/owner/repo/commit/abc\n".to_vec())
        .unwrap();
    assert_eq!(link, "https://example.com/owner/repo/commit/abc");
}

#[test]
fn run_command_with_output_rejects_invalid_text() {
    let err = run_command_with_output(vec![0xff, 0xfe]).unwrap_err();
    assert!(matches!(err, GhError::BadResult));
}

#[test]
fn parse_utf8_string_decodes_valid_bytes() {
    assert_eq!(parse_utf8_string(b"plain\n".to_vec()).unwrap(), "plain\n");
    assert!(matches!(parse_utf8_string(vec![0xc0]).unwrap_err(), GhError::BadResult));
}

#[test]
fn trim_end_whitespace_strips_unicode_whitespace() {
    assert_eq!(trim_end_whitespace("abc \t\n"), "abc");
    assert_eq!(trim_end_whitespace("abc"), "abc");
    assert_eq!(trim_end_whitespace(" \n"), "");
    assert_eq!(trim_end_whitespace(""), "");
    assert_eq!(trim_end_whitespace("a\u{2009}b\u{2009}"), "a\u{2009}b");
}

#[test]
fn user_error_from_command_failure() {
    let e = UserError::from_gh(GhError::Command {
        exit_status: "exit status: 2".to_string(),
        stderr: "denied".to_string(),
    });
    assert_eq!(e.message, "gh command failed with exit status: 2: denied");
    assert!(e.hint.is_none());
}

#[test]
fn user_error_from_bad_result() {
    let e = UserError::from_gh(GhError::BadResult);
    assert_eq!(e.message, "Failed to parse response from gh");
    assert!(e.hint.is_none());
}

#[test]
fn user_error_from_io_failure_has_hint() {
    let e = UserError::from_gh(GhError::Io { message: "No such file or directory".to_string() });
    assert_eq!(e.message, "gh failed with error: No such file or directory");
    assert_eq!(
        e.hint.as_deref(),
        Some("Check the gh CLI is installed and `gh auth status` shows that you are logged in"),
    );
}
