//! Assembling the commit message from the collected answers.

use vstd::prelude::*;
use crate::config::{Config, entries, has_key, opt_view, type_at, type_count};
use crate::text::push_char;

verus! {

/// The answers collected by one session.
#[derive(Debug, PartialEq, Eq)]
pub struct Answers {
    pub commit_type: String,
    pub scope: Option<String>,
    pub summary: String,
    pub body: Option<String>,
    pub issue_footer: Option<String>,
    pub is_breaking_change: bool,
}

/// What a conventional commit is made of.
pub struct CommitParts {
    pub commit_type: String,
    pub scope: Option<String>,
    pub summary: String,
    pub body: Option<String>,
    pub footer: Option<String>,
    pub breaking: bool,
}

/// The answers name a commit type that the configuration does not hold.
#[derive(Debug, PartialEq, Eq)]
pub enum FormatError {
    UnknownType(String),
}

/// `type(scope)!: summary`, the scope and the mark each only when present.
pub open spec fn header_line(
    commit_type: Seq<char>,
    scope: Option<Seq<char>>,
    breaking: bool,
    summary: Seq<char>,
) -> Seq<char> {
    commit_type + match scope {
        Some(s) => seq!['('] + s + seq![')'],
        None => Seq::empty(),
    } + if breaking {
        seq!['!']
    } else {
        Seq::empty()
    } + seq![':', ' '] + summary
}

/// A section after a blank line, or nothing.
pub open spec fn section(part: Option<Seq<char>>) -> Seq<char> {
    match part {
        Some(p) => seq!['\n', '\n'] + p,
        None => Seq::empty(),
    }
}

/// The whole message: the header, then the body and the footer, each after a
/// blank line when present.
pub open spec fn message_text(
    commit_type: Seq<char>,
    scope: Option<Seq<char>>,
    breaking: bool,
    summary: Seq<char>,
    body: Option<Seq<char>>,
    footer: Option<Seq<char>>,
) -> Seq<char> {
    header_line(commit_type, scope, breaking, summary) + section(body) + section(footer)
}

impl CommitParts {
    pub open spec fn text(&self) -> Seq<char> {
        message_text(
            self.commit_type@,
            opt_view(self.scope),
            self.breaking,
            self.summary@,
            opt_view(self.body),
            opt_view(self.footer),
        )
    }
}

impl Answers {
    /// The message that these answers make.
    pub open spec fn text(&self) -> Seq<char> {
        message_text(
            self.commit_type@,
            opt_view(self.scope),
            self.is_breaking_change,
            self.summary@,
            opt_view(self.body),
            opt_view(self.issue_footer),
        )
    }
}

fn append_section(out: &mut String, part: &Option<String>)
    ensures
        final(out)@ == old(out)@ + section(opt_view(*part)),
{
    match part {
        Some(p) => {
            push_char(out, '\n');
            push_char(out, '\n');
            out.append(p.as_str());
            assert(final(out)@ =~= old(out)@ + section(opt_view(*part)));
        },
        None => {
            assert(out@ =~= out@ + section(opt_view(*part)));
        },
    }
}

/// The formatted commit message.
pub fn get_message(parts: &CommitParts) -> (r: String)
    ensures
        r@ == parts.text(),
{
    let mut out = parts.commit_type.clone();
    match &parts.scope {
        Some(s) => {
            push_char(&mut out, '(');
            out.append(s.as_str());
            push_char(&mut out, ')');
        },
        None => {},
    }
    if parts.breaking {
        push_char(&mut out, '!');
    }
    push_char(&mut out, ':');
    push_char(&mut out, ' ');
    out.append(parts.summary.as_str());
    assert(out@ =~= header_line(parts.commit_type@, opt_view(parts.scope), parts.breaking, parts.summary@));
    append_section(&mut out, &parts.body);
    append_section(&mut out, &parts.footer);
    assert(out@ =~= parts.text());
    out
}

fn has_type(config: &Config, key: &String) -> (r: bool)
    ensures
        r == has_key(entries(config.commit_types), key@),
{
    let ghost s = entries(config.commit_types);
    let n = type_count(&config.commit_types);
    let mut i: usize = 0;
    while i < n
        invariant
            s == entries(config.commit_types),
            n == s.len(),
            i <= n,
            forall|j: int| 0 <= j < i ==> #[trigger] s[j].0 != key@,
        decreases n - i,
    {
        let (k, _t) = type_at(&config.commit_types, i);
        if *k == *key {
            return true;
        }
        i = i + 1;
    }
    false
}

/// The parts of the commit that `answers` describe; fails when the chosen type
/// is not one of the configuration's.
pub fn get_extracted_answers(answers: Answers, config: &Config) -> (r: Result<CommitParts, FormatError>)
    ensures
        has_key(entries(config.commit_types), answers.commit_type@) ==> (r matches Ok(p) && p.text()
            == answers.text()),
        !has_key(entries(config.commit_types), answers.commit_type@) ==> (r matches Err(
            FormatError::UnknownType(k),
        ) && k@ == answers.commit_type@),
{
    if has_type(config, &answers.commit_type) {
        Ok(
            CommitParts {
                commit_type: answers.commit_type,
                scope: answers.scope,
                summary: answers.summary,
                body: answers.body,
                footer: answers.issue_footer,
                breaking: answers.is_breaking_change,
            },
        )
    } else {
        Err(FormatError::UnknownType(answers.commit_type))
    }
}

/// The commit message for `answers`, or the error when their type is unknown.
pub fn format_message(answers: Answers, config: &Config) -> (r: Result<String, FormatError>)
    ensures
        has_key(entries(config.commit_types), answers.commit_type@) ==> (r matches Ok(m) && m@
            == answers.text()),
        !has_key(entries(config.commit_types), answers.commit_type@) ==> (r matches Err(
            FormatError::UnknownType(k),
        ) && k@ == answers.commit_type@),
{
    match get_extracted_answers(answers, config) {
        Ok(parts) => Ok(get_message(&parts)),
        Err(e) => Err(e),
    }
}

/// Formatting is deterministic: answers that hold the same text give the same
/// message.
pub proof fn lemma_format_deterministic(a: Answers, b: Answers)
    requires
        a.commit_type@ == b.commit_type@,
        opt_view(a.scope) == opt_view(b.scope),
        a.summary@ == b.summary@,
        opt_view(a.body) == opt_view(b.body),
        opt_view(a.issue_footer) == opt_view(b.issue_footer),
        a.is_breaking_change == b.is_breaking_change,
    ensures
        a.text() == b.text(),
{
}

} // verus!
