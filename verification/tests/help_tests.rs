use vcs_help::alias::AliasTable;
use vcs_help::alias::resolve_alias;
use vcs_help::error::HelpError;
use vcs_help::help::HelpArgs;
use vcs_help::help::cmd_help;
use vcs_help::help::format_alias_definition;
use vcs_help::keyword::Keyword;
use vcs_help::keyword::KeywordTable;
use vcs_help::keyword::find_keyword;
use vcs_help::registry::CommandNode;
use vcs_help::registry::match_command_path;
use vcs_help::registry::validate_command_path;

fn leaf(name: &str, help: &str) -> CommandNode {
    CommandNode {
        name: name.to_string(),
        children: Vec::new(),
        help_plain: help.to_string(),
        help_ansi: format!("\u{1b}[1m{help}\u{1b}[0m"),
    }
}

fn node(name: &str, help: &str, children: Vec<CommandNode>) -> CommandNode {
    CommandNode {
        name: name.to_string(),
        children,
        help_plain: help.to_string(),
        help_ansi: format!("\u{1b}[1m{help}\u{1b}[0m"),
    }
}

fn sample_registry() -> CommandNode {
    node(
        "jj",
        "root help",
        vec![
            leaf("log", "log help"),
            node("git", "git help", vec![leaf("push", "push help"), leaf("fetch", "fetch help")]),
        ],
    )
}

fn alias_table(pairs: &[(&str, &[&str])]) -> AliasTable {
    let mut t = AliasTable::new();
    for (name, def) in pairs {
        let added = t.add(name.to_string(), def.iter().map(|s| s.to_string()).collect());
        assert!(added);
    }
    t
}

fn tokens(ts: &[&str]) -> Vec<String> {
    ts.iter().map(|s| s.to_string()).collect()
}

fn sample_keywords() -> KeywordTable {
    let mut t = KeywordTable::new();
    assert!(t.add(Keyword {
        name: "revsets".to_string(),
        description: "A functional language for selecting a set of revisions".to_string(),
        content: "revsets documentation body".to_string(),
    }));
    assert!(t.add(Keyword {
        name: "glossary".to_string(),
        description: "Definitions of various terms".to_string(),
        content: "glossary documentation body".to_string(),
    }));
    t
}

fn command_args(ts: &[&str]) -> HelpArgs {
    HelpArgs { command: tokens(ts), keyword: None }
}

#[test]
fn resolve_absent_name_is_none() {
    let t = alias_table(&[("b", &["log", "-r", "@"])]);
    let r = resolve_alias(&t, "log").unwrap();
    assert!(r.is_none());
    let r = resolve_alias(&t, "").unwrap();
    assert!(r.is_none());
    let empty = AliasTable::new();
    let r = resolve_alias(&empty, "b").unwrap();
    assert!(r.is_none());
}

#[test]
fn resolve_chain_expands_recursively() {
    let t = alias_table(&[("a", &["b", "x"]), ("b", &["log", "-r", "@"])]);
    let (original, expanded) = resolve_alias(&t, "a").unwrap().unwrap();
    assert_eq!(original, tokens(&["b", "x"]));
    assert_eq!(expanded, tokens(&["log", "-r", "@", "x"]));
}

#[test]
fn resolve_plain_alias_keeps_definition() {
    let t = alias_table(&[("b", &["log", "-r", "@"])]);
    let (original, expanded) = resolve_alias(&t, "b").unwrap().unwrap();
    assert_eq!(original, tokens(&["log", "-r", "@"]));
    assert_eq!(expanded, tokens(&["log", "-r", "@"]));
}

#[test]
fn resolve_direct_cycle_fails() {
    let t = alias_table(&[("a", &["a", "x"])]);
    let err = resolve_alias(&t, "a").unwrap_err();
    match err {
        HelpError::CyclicAlias { ref name } => assert_eq!(name, "a"),
        _ => panic!("expected a cyclic-alias error"),
    }
    assert_eq!(err.message(), "Recursive alias definition involving 'a'");
}

#[test]
fn resolve_indirect_cycle_fails() {
    let t = alias_table(&[("x", &["y"]), ("y", &["x"])]);
    let err = resolve_alias(&t, "x").unwrap_err();
    assert!(matches!(err, HelpError::CyclicAlias { .. }));
}

#[test]
fn match_empty_tokens_returns_root() {
    let root = sample_registry();
    let (n, depth) = match_command_path(&root, &Vec::new());
    assert_eq!(depth, 0);
    assert_eq!(n.name, "jj");
    let lone = leaf("solo", "solo help");
    let (n, depth) = match_command_path(&lone, &Vec::new());
    assert_eq!(depth, 0);
    assert_eq!(n.name, "solo");
}

#[test]
fn match_never_fails_on_flag_like_tokens() {
    let root = sample_registry();
    let (n, depth) = match_command_path(&root, &tokens(&["log", "-r", "@"]));
    assert_eq!(depth, 1);
    assert_eq!(n.name, "log");
    let (n, depth) = match_command_path(&root, &tokens(&["-r"]));
    assert_eq!(depth, 0);
    assert_eq!(n.name, "jj");
    let (n, depth) = match_command_path(&root, &tokens(&["nonsense", "log", ""]));
    assert_eq!(depth, 0);
    assert_eq!(n.name, "jj");
    let (n, depth) = match_command_path(&root, &tokens(&["git", "push", "--force"]));
    assert_eq!(depth, 2);
    assert_eq!(n.name, "push");
}

#[test]
fn help_for_alias_prints_banner_then_content() {
    let aliases = alias_table(&[("b", &["log", "-r", "@"])]);
    let root = sample_registry();
    let keywords = sample_keywords();
    let out = cmd_help(&command_args(&["b"]), &aliases, &root, &keywords, false).unwrap();
    assert_eq!(out, "Alias for \"log -r @\"\n\nlog help");
}

#[test]
fn help_for_cyclic_alias_writes_nothing() {
    let aliases = alias_table(&[("x", &["y"]), ("y", &["x"])]);
    let root = sample_registry();
    let keywords = sample_keywords();
    let err = cmd_help(&command_args(&["x"]), &aliases, &root, &keywords, false).unwrap_err();
    assert!(matches!(err, HelpError::CyclicAlias { .. }));
}

#[test]
fn help_tolerates_flags_after_separator() {
    let aliases = AliasTable::new();
    let root = sample_registry();
    let keywords = sample_keywords();
    let out = cmd_help(&command_args(&["log", "--", "-r"]), &aliases, &root, &keywords, false)
        .unwrap();
    assert_eq!(out, "log help");
}

#[test]
fn help_rejects_arguments_after_alias() {
    let aliases = alias_table(&[("b", &["log", "-r", "@"])]);
    let root = sample_registry();
    let keywords = sample_keywords();
    let err = cmd_help(&command_args(&["b", "extra"]), &aliases, &root, &keywords, false)
        .unwrap_err();
    match err {
        HelpError::ExtraneousAliasArguments { ref alias } => assert_eq!(alias, "b"),
        _ => panic!("expected an extraneous-arguments error"),
    }
    assert_eq!(err.message(), "Invalid arguments following alias 'b'");
}

#[test]
fn help_rejects_unknown_subcommand() {
    let aliases = AliasTable::new();
    let root = sample_registry();
    let keywords = sample_keywords();
    let err = cmd_help(&command_args(&["bogus"]), &aliases, &root, &keywords, false).unwrap_err();
    match err {
        HelpError::InvalidSubcommand { ref token } => assert_eq!(token, "bogus"),
        _ => panic!("expected an invalid-subcommand error"),
    }
    let err = cmd_help(&command_args(&["git", "bogus"]), &aliases, &root, &keywords, false)
        .unwrap_err();
    match err {
        HelpError::InvalidSubcommand { ref token } => assert_eq!(token, "bogus"),
        _ => panic!("expected an invalid-subcommand error"),
    }
}

#[test]
fn help_tolerates_positional_values_below_leaf() {
    let aliases = AliasTable::new();
    let root = sample_registry();
    let keywords = sample_keywords();
    let out = cmd_help(&command_args(&["log", "somefile"]), &aliases, &root, &keywords, false)
        .unwrap();
    assert_eq!(out, "log help");
}

#[test]
fn help_for_empty_request_is_root_help() {
    let aliases = AliasTable::new();
    let root = sample_registry();
    let keywords = sample_keywords();
    let out = cmd_help(&command_args(&[]), &aliases, &root, &keywords, false).unwrap();
    assert_eq!(out, "root help");
}

#[test]
fn help_color_selects_styled_rendering() {
    let aliases = AliasTable::new();
    let root = sample_registry();
    let keywords = sample_keywords();
    let out = cmd_help(&command_args(&["log"]), &aliases, &root, &keywords, true).unwrap();
    assert_eq!(out, "\u{1b}[1mlog help\u{1b}[0m");
}

#[test]
fn help_keyword_emits_content_verbatim() {
    let aliases = AliasTable::new();
    let root = sample_registry();
    let keywords = sample_keywords();
    let args = HelpArgs { command: Vec::new(), keyword: Some("revsets".to_string()) };
    let out = cmd_help(&args, &aliases, &root, &keywords, false).unwrap();
    assert_eq!(out, "revsets documentation body");
}

#[test]
fn help_unknown_keyword_is_not_found() {
    let aliases = AliasTable::new();
    let root = sample_registry();
    let keywords = sample_keywords();
    let args = HelpArgs { command: Vec::new(), keyword: Some("branches".to_string()) };
    let err = cmd_help(&args, &aliases, &root, &keywords, false).unwrap_err();
    match err {
        HelpError::NotFound { ref keyword } => assert_eq!(keyword, "branches"),
        _ => panic!("expected a not-found error"),
    }
    assert_eq!(err.message(), "No help entry found for keyword 'branches'");
}

#[test]
fn find_keyword_by_exact_name() {
    let keywords = sample_keywords();
    let k = find_keyword(&keywords, "glossary").unwrap();
    assert_eq!(k.content, "glossary documentation body");
    assert_eq!(k.description, "Definitions of various terms");
    assert!(find_keyword(&keywords, "glossar").is_none());
    assert!(find_keyword(&keywords, "").is_none());
}

#[test]
fn keyword_table_rejects_duplicate_names() {
    let mut t = sample_keywords();
    let added = t.add(Keyword {
        name: "revsets".to_string(),
        description: "again".to_string(),
        content: "other".to_string(),
    });
    assert!(!added);
    let k = find_keyword(&t, "revsets").unwrap();
    assert_eq!(k.content, "revsets documentation body");
}

#[test]
fn alias_table_rejects_duplicate_names() {
    let mut t = alias_table(&[("b", &["log"])]);
    assert!(!t.add("b".to_string(), tokens(&["status"])));
    let (original, _) = resolve_alias(&t, "b").unwrap().unwrap();
    assert_eq!(original, tokens(&["log"]));
}

#[test]
fn format_alias_definition_quotes_when_needed() {
    assert_eq!(format_alias_definition(&tokens(&["log", "-r", "@"])), "Alias for \"log -r @\"");
    assert_eq!(format_alias_definition(&tokens(&["a b", "c"])), "Alias for \"'a b' c\"");
}

#[test]
fn format_alias_definition_falls_back_on_nul() {
    let def = tokens(&["a\u{0}b"]);
    assert_eq!(format_alias_definition(&def), format!("Alias for {def:?}"));
}

#[test]
fn validate_reports_first_unknown_name() {
    let root = sample_registry();
    assert!(validate_command_path(&root, &tokens(&["git", "push"])).is_ok());
    assert!(validate_command_path(&root, &tokens(&["log", "--", "-r"])).is_ok());
    assert!(validate_command_path(&root, &tokens(&["log", "afile"])).is_ok());
    let err = validate_command_path(&root, &tokens(&["git", "shove"])).unwrap_err();
    match err {
        HelpError::InvalidSubcommand { ref token } => assert_eq!(token, "shove"),
        _ => panic!("expected an invalid-subcommand error"),
    }
    assert_eq!(err.message(), "Unrecognized subcommand 'shove'");
}

#[test]
fn help_banner_shows_configured_definition_not_expansion() {
    let aliases = alias_table(&[("a", &["b"]), ("b", &["log", "-r", "@"])]);
    let root = sample_registry();
    let keywords = sample_keywords();
    let out = cmd_help(&command_args(&["a"]), &aliases, &root, &keywords, false).unwrap();
    assert_eq!(out, "Alias for \"b\"\n\nlog help");
}

#[test]
fn help_for_alias_with_empty_definition_is_root_help() {
    let aliases = alias_table(&[("nothing", &[])]);
    let root = sample_registry();
    let keywords = sample_keywords();
    let out = cmd_help(&command_args(&["nothing"]), &aliases, &root, &keywords, false).unwrap();
    assert_eq!(out, "Alias for \"\"\n\nroot help");
}
