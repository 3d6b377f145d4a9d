use indexmap::IndexMap;
use koji::commit::{format_message, get_extracted_answers, get_message, Answers, CommitParts, FormatError};
use koji::config::{CommitType, Config, ConfigArgs, ConfigError, ConfigFile};
use koji::history::{first_line, get_existing_scopes, previous_summary, should_skip_prompt};

fn no_args() -> ConfigArgs {
    ConfigArgs {
        autocomplete: None,
        breaking_changes: None,
        emoji: None,
        issues: None,
        sign: None,
    }
}

fn empty_file() -> ConfigFile {
    ConfigFile {
        commit_types: Vec::new(),
        autocomplete: None,
        breaking_changes: None,
        emoji: None,
        issues: None,
        sign: None,
    }
}

fn two_type_config() -> Config {
    let mut commit_types = IndexMap::new();
    commit_types.insert("feat".to_string(), CommitType::new("feat", "A new feature", None));
    commit_types.insert("fix".to_string(), CommitType::new("fix", "A bug fix", None));
    Config {
        commit_types,
        autocomplete: false,
        breaking_changes: true,
        emoji: false,
        issues: true,
        sign: false,
    }
}

fn answers(scope: Option<&str>, breaking: bool, body: Option<&str>, footer: Option<&str>) -> Answers {
    Answers {
        commit_type: "fix".into(),
        scope: scope.map(|s| s.to_string()),
        summary: "handle timeout".into(),
        body: body.map(|s| s.to_string()),
        issue_footer: footer.map(|s| s.to_string()),
        is_breaking_change: breaking,
    }
}

#[test]
fn formats_type_scope_and_summary() {
    let config = two_type_config();
    let msg = format_message(answers(Some("api"), false, None, None), &config).unwrap();
    assert_eq!(msg, "fix(api): handle timeout");
}

#[test]
fn breaking_change_adds_mark() {
    let config = two_type_config();
    let msg = format_message(answers(Some("api"), true, None, None), &config).unwrap();
    assert_eq!(msg, "fix(api)!: handle timeout");
}

#[test]
fn no_scope_no_parentheses() {
    let config = two_type_config();
    let msg = format_message(answers(None, true, None, None), &config).unwrap();
    assert_eq!(msg, "fix!: handle timeout");
}

#[test]
fn body_and_footer_are_separated_by_blank_lines() {
    let config = two_type_config();
    let msg = format_message(answers(None, false, Some("line1\nline2"), Some("closes #42")), &config).unwrap();
    assert_eq!(msg, "fix: handle timeout\n\nline1\nline2\n\ncloses #42");
    let msg = format_message(answers(None, false, None, Some("closes #42")), &config).unwrap();
    assert_eq!(msg, "fix: handle timeout\n\ncloses #42");
    assert_eq!(msg.lines().last(), Some("closes #42"));
}

#[test]
fn format_is_deterministic() {
    let config = two_type_config();
    let a = format_message(answers(Some("api"), true, Some("b"), None), &config).unwrap();
    let b = format_message(answers(Some("api"), true, Some("b"), None), &config).unwrap();
    assert_eq!(a, b);
}

#[test]
fn unknown_type_is_a_format_error() {
    let config = two_type_config();
    let mut a = answers(None, false, None, None);
    a.commit_type = "wip".into();
    assert_eq!(format_message(a, &config), Err(FormatError::UnknownType("wip".into())));
    let mut a = answers(None, false, None, None);
    a.commit_type = "wip".into();
    assert!(get_extracted_answers(a, &config).is_err());
}

#[test]
fn two_type_choices_without_emoji() {
    let config = two_type_config();
    let choices = koji::choices::type_choices(&config);
    assert_eq!(choices, vec!["feat:   A new feature".to_string(), "fix:    A bug fix".to_string()]);
}

#[test]
fn get_message_writes_parts() {
    let parts = CommitParts {
        commit_type: "feat".into(),
        scope: Some("cli".into()),
        summary: "add flag".into(),
        body: None,
        footer: None,
        breaking: false,
    };
    assert_eq!(get_message(&parts), "feat(cli): add flag");
}

#[test]
fn formatted_message_parses_back() {
    let config = two_type_config();
    let msg = format_message(answers(Some("api"), true, Some("body text"), None), &config).unwrap();
    let parsed = conventional_commit_parser::parse(&msg).unwrap();
    assert_eq!(parsed.commit_type.as_ref(), "fix");
    assert_eq!(parsed.scope, Some("api".to_string()));
    assert_eq!(parsed.summary, "handle timeout");
    assert!(parsed.is_breaking_change);
}

#[test]
fn defaults_and_flag_priority() {
    let config = Config::new(no_args(), None).unwrap();
    assert_eq!(config.commit_types.len(), 11);
    assert!(config.emoji && config.breaking_changes && config.issues);
    assert!(!config.autocomplete && !config.sign);

    let mut file = empty_file();
    file.emoji = Some(false);
    file.sign = Some(true);
    let mut args = no_args();
    args.sign = Some(false);
    let config = Config::new(args, Some(file)).unwrap();
    assert!(!config.emoji);
    assert!(!config.sign);
}

#[test]
fn override_replaces_in_place_and_new_key_appends() {
    let base = Config::new(no_args(), None).unwrap();
    let mut file = empty_file();
    file.commit_types.push(CommitType::new("fix", "Repairs", None));
    file.commit_types.push(CommitType::new("wip", "Work in progress", Some("🚧")));
    let config = Config::new(no_args(), Some(file)).unwrap();
    let keys: Vec<&String> = config.commit_types.keys().collect();
    let base_keys: Vec<&String> = base.commit_types.keys().collect();
    assert_eq!(keys.len(), base_keys.len() + 1);
    assert_eq!(&keys[..base_keys.len()], &base_keys[..]);
    assert_eq!(keys.last().unwrap().as_str(), "wip");
    assert_eq!(config.commit_types.get("fix").unwrap().description, "Repairs");
    assert_eq!(config.commit_types.get("fix").unwrap().emoji, None);
    for k in base_keys.iter().filter(|k| k.as_str() != "fix") {
        assert_eq!(
            config.commit_types.get(k.as_str()).unwrap().description,
            base.commit_types.get(k.as_str()).unwrap().description
        );
    }
}

#[test]
fn incomplete_types_are_config_errors() {
    let mut file = empty_file();
    file.commit_types.push(CommitType::new("ok", "fine", None));
    file.commit_types.push(CommitType::new("", "no key", None));
    assert_eq!(Config::new(no_args(), Some(file)).err(), Some(ConfigError::MissingKey(1)));
    let mut file = empty_file();
    file.commit_types.push(CommitType::new("nodesc", "", None));
    assert_eq!(Config::new(no_args(), Some(file)).err(), Some(ConfigError::MissingDescription(0)));
}

#[test]
fn scopes_from_history_are_distinct_and_ordered() {
    let summaries = vec![
        "fix(api): a".to_string(),
        "not a conventional summary".to_string(),
        "feat(cli): b".to_string(),
        "chore: c".to_string(),
        "fix(api): d".to_string(),
    ];
    assert_eq!(get_existing_scopes(&summaries), vec!["api".to_string(), "cli".to_string()]);
}

#[test]
fn previous_summary_reads_description() {
    assert_eq!(previous_summary("feat(x): do it"), "do it");
    assert_eq!(previous_summary("garbage"), "");
}

#[test]
fn hook_skips_conventional_pending_message() {
    let line = first_line("chore: bump deps\n\nmore text\n");
    assert_eq!(line, "chore: bump deps");
    assert!(should_skip_prompt(true, &line));
    assert!(!should_skip_prompt(false, &line));
    assert!(!should_skip_prompt(true, "bump deps"));
}

#[test]
fn first_line_strips_carriage_return() {
    assert_eq!(first_line("a\r\nb"), "a");
    assert_eq!(first_line(""), "");
    assert_eq!(first_line("single"), "single");
}
