use koji::answers::{
    body_answer, scope_answer, scope_suggestions, validate_issue_reference, validate_summary,
    Validation,
};
use koji::choices::{format_commit_type_choice, transform_commit_type_choice, type_choices};
use koji::commit::Answers;
use koji::config::{Config, ConfigArgs};
use koji::questions::{create_prompt, Question, Reply, StepError};

fn no_args() -> ConfigArgs {
    ConfigArgs {
        autocomplete: None,
        breaking_changes: None,
        emoji: None,
        issues: None,
        sign: None,
    }
}

#[test]
fn test_transform_commit_type_choice() {
    let transformed = transform_commit_type_choice(
        "feat:       A code change that neither fixes a bug nor adds a feature",
    );

    assert_eq!(transformed, "feat");
}

#[test]
fn test_format_commit_type_choice() {
    let config = Config::new(no_args(), None).unwrap();
    let commit_types = config.commit_types;

    let choice = format_commit_type_choice(false, commit_types.get("ci").unwrap(), &commit_types);

    assert_eq!(
        choice,
        "ci:         Changes to our CI configuration files and scripts"
    );
}

#[test]
fn test_render_commit_type_choice_with_emoji() {
    let config = Config::new(no_args(), None).unwrap();
    let commit_types = config.commit_types;

    let choice = format_commit_type_choice(true, commit_types.get("ci").unwrap(), &commit_types);

    assert_eq!(
        choice,
        "ci:         🤖 Changes to our CI configuration files and scripts"
    );
}

#[test]
fn test_validate_summary() {
    let validated = validate_summary("needed more badges :badger:");

    assert!(validated.eq(&Validation::Valid));

    let validated = validate_summary("");

    assert!(validated.eq(&Validation::Invalid("A summary is required".into())));
}

#[test]
fn test_validate_issue_reference() {
    let validated = validate_issue_reference("closes #123");

    assert!(validated.eq(&Validation::Valid));

    let validated = validate_issue_reference("");

    assert!(validated.eq(&Validation::Invalid(
        "An issue reference is required".into()
    )));
}

#[test]
fn blank_summary_is_invalid() {
    assert_eq!(
        validate_summary(" \t "),
        Validation::Invalid("A summary is required".into())
    );
}

#[test]
fn transform_without_colon_keeps_everything() {
    assert_eq!(transform_commit_type_choice("fix"), "fix");
    assert_eq!(transform_commit_type_choice(""), "");
}

#[test]
fn every_type_is_rendered_and_aligned() {
    let config = Config::new(no_args(), None).unwrap();
    let choices = type_choices(&config);
    assert_eq!(choices.len(), config.commit_types.len());
    for (choice, (key, t)) in choices.iter().zip(config.commit_types.iter()) {
        assert!(choice.starts_with(&format!("{key}:")));
        let chars: Vec<char> = choice.chars().collect();
        // longest key is eight characters; with an emoji the text starts at 14
        let rest: String = chars[14..].iter().collect();
        assert_eq!(rest, t.description);
        assert_eq!(transform_commit_type_choice(choice), *key);
    }
}

#[test]
fn choices_without_emoji_align_descriptions() {
    let mut args = no_args();
    args.emoji = Some(false);
    let config = Config::new(args, None).unwrap();
    let choices = type_choices(&config);
    assert_eq!(choices[0], "feat:       A new feature");
    assert_eq!(choices[4], "refactor:   A code change that neither fixes a bug nor adds a feature");
}

#[test]
fn body_backslash_n_becomes_line_break() {
    let body = body_answer(Some("line1\\nline2".to_string())).unwrap();
    assert_eq!(body, "line1\nline2");
    assert!(!body.contains("\\n"));
    assert_eq!(body.lines().count(), 2);
}

#[test]
fn empty_body_is_none() {
    assert_eq!(body_answer(Some(String::new())), None);
    assert_eq!(body_answer(None), None);
}

#[test]
fn blank_scope_is_skipped() {
    assert_eq!(scope_answer(Some("   ".to_string())), None);
    assert_eq!(scope_answer(Some("api".to_string())), Some("api".to_string()));
    assert_eq!(scope_answer(None), None);
}

#[test]
fn suggestions_contain_typed_text() {
    let scopes = vec!["api".to_string(), "cli".to_string(), "apiary".to_string(), "Api".to_string()];
    assert_eq!(
        scope_suggestions(&scopes, "api"),
        vec!["api".to_string(), "apiary".to_string()]
    );
    assert_eq!(scope_suggestions(&scopes, "").len(), 4);
    assert!(scope_suggestions(&scopes, "zzz").is_empty());
}

fn run_flow(config: &Config, replies: Vec<Reply>) -> Answers {
    let mut prompt = create_prompt("", config);
    for reply in replies {
        assert_eq!(prompt.answer(reply), Ok(()));
    }
    prompt.finish().unwrap()
}

#[test]
fn flow_asks_questions_in_order() {
    let config = Config::new(no_args(), None).unwrap();
    let mut prompt = create_prompt("", &config);
    assert_eq!(prompt.current, Some(Question::SelectType));
    prompt.answer(Reply::Choice("fix:  A bug fix".into())).unwrap();
    assert_eq!(prompt.current, Some(Question::EnterScope));
    prompt.answer(Reply::Text(Some("api".into()))).unwrap();
    assert_eq!(prompt.current, Some(Question::EnterSummary));
    assert_eq!(
        prompt.answer(Reply::Text(Some("  ".into()))),
        Err(StepError::Invalid("A summary is required".into()))
    );
    assert_eq!(prompt.current, Some(Question::EnterSummary));
    assert_eq!(prompt.answer(Reply::Confirm(true)), Err(StepError::WrongReply));
    prompt.answer(Reply::Text(Some("handle timeout".into()))).unwrap();
    assert_eq!(prompt.current, Some(Question::EnterBody));
    prompt.answer(Reply::Text(None)).unwrap();
    assert_eq!(prompt.current, Some(Question::ConfirmBreaking));
    prompt.answer(Reply::Confirm(false)).unwrap();
    assert_eq!(prompt.current, Some(Question::ConfirmIssue));
    prompt.answer(Reply::Confirm(true)).unwrap();
    assert_eq!(prompt.current, Some(Question::EnterIssueReference));
    assert_eq!(
        prompt.answer(Reply::Text(Some(String::new()))),
        Err(StepError::Invalid("An issue reference is required".into()))
    );
    prompt.answer(Reply::Text(Some("closes #42".into()))).unwrap();
    assert_eq!(prompt.current, None);
    assert_eq!(prompt.answer(Reply::Confirm(true)), Err(StepError::Finished));
    let answers = prompt.finish().unwrap();
    assert_eq!(answers.issue_footer, Some("closes #42".to_string()));
    assert_eq!(answers.commit_type, "fix");
}

#[test]
fn flow_ends_after_body_when_both_confirmations_are_off() {
    let mut args = no_args();
    args.breaking_changes = Some(false);
    args.issues = Some(false);
    let config = Config::new(args, None).unwrap();
    let answers = run_flow(
        &config,
        vec![
            Reply::Choice("feat: x".into()),
            Reply::Text(None),
            Reply::Text(Some("add retry".into())),
            Reply::Text(None),
        ],
    );
    assert!(!answers.is_breaking_change);
    assert_eq!(answers.scope, None);
    assert_eq!(answers.issue_footer, None);
}

#[test]
fn declined_issue_ends_flow() {
    let config = Config::new(no_args(), None).unwrap();
    let mut prompt = create_prompt("", &config);
    for reply in vec![
        Reply::Choice("docs: y".into()),
        Reply::Text(None),
        Reply::Text(Some("s".into())),
        Reply::Text(None),
        Reply::Confirm(true),
        Reply::Confirm(false),
    ] {
        prompt.answer(reply).unwrap();
    }
    assert_eq!(prompt.current, None);
    let answers = prompt.finish().unwrap();
    assert!(answers.is_breaking_change);
    assert_eq!(answers.issue_footer, None);
}

#[test]
fn unfinished_flow_gives_no_answers() {
    let config = Config::new(no_args(), None).unwrap();
    let prompt = create_prompt("", &config);
    assert!(prompt.finish().is_none());
}

#[test]
fn summary_hint_comes_from_pending_message() {
    let config = Config::new(no_args(), None).unwrap();
    let prompt = create_prompt("fix(api): handle timeout", &config);
    assert_eq!(prompt.summary_placeholder, "handle timeout");
    let prompt = create_prompt("not conventional", &config);
    assert_eq!(prompt.summary_placeholder, "");
}

#[test]
fn suggestions_follow_autocomplete_flag() {
    let scopes = vec!["api".to_string(), "cli".to_string()];
    let config = Config::new(no_args(), None).unwrap();
    assert!(create_prompt("", &config).suggest(&scopes, "a").is_empty());
    let mut args = no_args();
    args.autocomplete = Some(true);
    let config = Config::new(args, None).unwrap();
    assert_eq!(create_prompt("", &config).suggest(&scopes, "a"), vec!["api".to_string()]);
}
