//! The question flow: which question comes next, and how each reply updates
//! the answers.

use vstd::prelude::*;
use crate::answers::{
    body_answer, matching_scopes, scope_answer, scope_suggestions, unescape_newlines,
};
use crate::choices::{choice_key, transform_commit_type_choice};
use crate::commit::Answers;
use crate::config::{Config, opt_view};
use crate::history::{previous_summary, previous_summary_of};
use crate::text::{blank, is_blank, string_views};

verus! {

/// The questions of a session, in the order in which they may be asked.
#[derive(Clone, Copy, Debug, PartialEq, Eq, Structural)]
pub enum Question {
    SelectType,
    EnterScope,
    EnterSummary,
    EnterBody,
    ConfirmBreaking,
    ConfirmIssue,
    EnterIssueReference,
}

/// A reply to a question: a selected choice, a text (`None` when skipped), or
/// a yes/no answer.
pub enum Reply {
    Choice(String),
    Text(Option<String>),
    Confirm(bool),
}

/// Why a reply was not taken.
#[derive(Debug, PartialEq, Eq)]
pub enum StepError {
    /// The reply failed the question's check; the question is asked again.
    Invalid(String),
    /// The reply is not of the kind the question asks for.
    WrongReply,
    /// Every question has been answered.
    Finished,
}

/// What the answers hold: type, scope, summary, body, issue footer, breaking.
pub type AnswersView = (
    Seq<char>,
    Option<Seq<char>>,
    Seq<char>,
    Option<Seq<char>>,
    Option<Seq<char>>,
    bool,
);

impl View for Answers {
    type V = AnswersView;

    open spec fn view(&self) -> AnswersView {
        (
            self.commit_type@,
            opt_view(self.scope),
            self.summary@,
            opt_view(self.body),
            opt_view(self.issue_footer),
            self.is_breaking_change,
        )
    }
}

/// The question that follows `q`; `confirmed` is the reply to a yes/no question.
pub open spec fn next_question(q: Question, breaking: bool, issues: bool, confirmed: bool) -> Option<
    Question,
> {
    match q {
        Question::SelectType => Some(Question::EnterScope),
        Question::EnterScope => Some(Question::EnterSummary),
        Question::EnterSummary => Some(Question::EnterBody),
        Question::EnterBody => if breaking {
            Some(Question::ConfirmBreaking)
        } else if issues {
            Some(Question::ConfirmIssue)
        } else {
            None
        },
        Question::ConfirmBreaking => if issues {
            Some(Question::ConfirmIssue)
        } else {
            None
        },
        Question::ConfirmIssue => if confirmed {
            Some(Question::EnterIssueReference)
        } else {
            None
        },
        Question::EnterIssueReference => None,
    }
}

/// Whether `reply` is of the kind that `q` asks for.
pub open spec fn fits(q: Question, reply: Reply) -> bool {
    match q {
        Question::SelectType => reply is Choice,
        Question::ConfirmBreaking | Question::ConfirmIssue => reply is Confirm,
        _ => reply is Text,
    }
}

/// Whether a fitting reply passes the question's check: a summary and an
/// issue reference must be given and not blank.
pub open spec fn passes(q: Question, reply: Reply) -> bool {
    match q {
        Question::EnterSummary | Question::EnterIssueReference => match reply {
            Reply::Text(Some(s)) => !is_blank(s@),
            _ => false,
        },
        _ => true,
    }
}

pub open spec fn confirmed(reply: Reply) -> bool {
    match reply {
        Reply::Confirm(b) => b,
        _ => false,
    }
}

pub open spec fn text_of(reply: Reply) -> Option<Seq<char>> {
    match reply {
        Reply::Text(t) => opt_view(t),
        _ => None,
    }
}

/// The scope kept from a scope reply.
pub open spec fn scope_kept(t: Option<Seq<char>>) -> Option<Seq<char>> {
    match t {
        Some(s) => if is_blank(s) {
            None
        } else {
            Some(s)
        },
        None => None,
    }
}

/// The body kept from a body reply.
pub open spec fn body_kept(t: Option<Seq<char>>) -> Option<Seq<char>> {
    match t {
        Some(s) => if s.len() == 0 {
            None
        } else {
            Some(unescape_newlines(s))
        },
        None => None,
    }
}

/// The answers after `q` took `reply`.
pub open spec fn answered(a: AnswersView, q: Question, reply: Reply) -> AnswersView {
    match q {
        Question::SelectType => match reply {
            Reply::Choice(c) => (choice_key(c@), a.1, a.2, a.3, a.4, a.5),
            _ => a,
        },
        Question::EnterScope => (a.0, scope_kept(text_of(reply)), a.2, a.3, a.4, a.5),
        Question::EnterSummary => (a.0, a.1, text_of(reply)->0, a.3, a.4, a.5),
        Question::EnterBody => (a.0, a.1, a.2, body_kept(text_of(reply)), a.4, a.5),
        Question::ConfirmBreaking => (a.0, a.1, a.2, a.3, a.4, confirmed(reply)),
        Question::ConfirmIssue => a,
        Question::EnterIssueReference => (a.0, a.1, a.2, a.3, text_of(reply), a.5),
    }
}

/// One session's progress through the questions.
pub struct Prompt {
    /// The question to ask now; `None` once the flow is over.
    pub current: Option<Question>,
    /// The description of the pending message, shown as a hint.
    pub summary_placeholder: String,
    pub autocomplete: bool,
    pub breaking_changes: bool,
    pub issues: bool,
    pub answers: Answers,
}

impl Prompt {
    /// A breaking change is only recorded when its question is asked, and an
    /// issue footer only when the issue question is asked.
    pub open spec fn wf(&self) -> bool {
        &&& !self.breaking_changes ==> !self.answers.is_breaking_change
        &&& self.answers.issue_footer is Some ==> self.issues
        &&& self.current == Some(Question::ConfirmBreaking) ==> self.breaking_changes
        &&& self.current == Some(Question::ConfirmIssue) ==> self.issues
        &&& self.current == Some(Question::EnterIssueReference) ==> self.issues
    }

    /// Takes the reply to the current question and moves to the next one; a
    /// reply that does not fit or fails its check leaves the session as it is.
    pub fn answer(&mut self, reply: Reply) -> (r: Result<(), StepError>)
        requires
            old(self).wf(),
        ensures
            final(self).wf(),
            final(self).autocomplete == old(self).autocomplete,
            final(self).breaking_changes == old(self).breaking_changes,
            final(self).issues == old(self).issues,
            final(self).summary_placeholder@ == old(self).summary_placeholder@,
            match old(self).current {
                None => r == Err::<(), StepError>(StepError::Finished) && final(self).current is None
                    && final(self).answers@ == old(self).answers@,
                Some(q) => if !fits(q, reply) {
                    r == Err::<(), StepError>(StepError::WrongReply) && final(self).current == old(
                        self,
                    ).current && final(self).answers@ == old(self).answers@
                } else if !passes(q, reply) {
                    (r matches Err(StepError::Invalid(m)) && m@ == if q == Question::EnterSummary {
                        "A summary is required"@
                    } else {
                        "An issue reference is required"@
                    }) && final(self).current == old(self).current && final(self).answers@ == old(
                        self,
                    ).answers@
                } else {
                    r is Ok && final(self).current == next_question(
                        q,
                        old(self).breaking_changes,
                        old(self).issues,
                        confirmed(reply),
                    ) && final(self).answers@ == answered(old(self).answers@, q, reply)
                },
            },
    {
        let q = match self.current {
            None => {
                return Err(StepError::Finished);
            },
            Some(q) => q,
        };
        match q {
            Question::SelectType => match reply {
                Reply::Choice(c) => {
                    self.answers.commit_type = transform_commit_type_choice(c.as_str());
                    self.current = Some(Question::EnterScope);
                    Ok(())
                },
                _ => Err(StepError::WrongReply),
            },
            Question::EnterScope => match reply {
                Reply::Text(t) => {
                    self.answers.scope = scope_answer(t);
                    self.current = Some(Question::EnterSummary);
                    Ok(())
                },
                _ => Err(StepError::WrongReply),
            },
            Question::EnterSummary => match reply {
                Reply::Text(Some(s)) => {
                    if blank(s.as_str()) {
                        Err(StepError::Invalid("A summary is required".to_string()))
                    } else {
                        self.answers.summary = s;
                        self.current = Some(Question::EnterBody);
                        Ok(())
                    }
                },
                Reply::Text(None) => Err(StepError::Invalid("A summary is required".to_string())),
                _ => Err(StepError::WrongReply),
            },
            Question::EnterBody => match reply {
                Reply::Text(t) => {
                    self.answers.body = body_answer(t);
                    self.current = if self.breaking_changes {
                        Some(Question::ConfirmBreaking)
                    } else if self.issues {
                        Some(Question::ConfirmIssue)
                    } else {
                        None
                    };
                    Ok(())
                },
                _ => Err(StepError::WrongReply),
            },
            Question::ConfirmBreaking => match reply {
                Reply::Confirm(b) => {
                    self.answers.is_breaking_change = b;
                    self.current = if self.issues {
                        Some(Question::ConfirmIssue)
                    } else {
                        None
                    };
                    Ok(())
                },
                _ => Err(StepError::WrongReply),
            },
            Question::ConfirmIssue => match reply {
                Reply::Confirm(b) => {
                    self.current = if b {
                        Some(Question::EnterIssueReference)
                    } else {
                        None
                    };
                    Ok(())
                },
                _ => Err(StepError::WrongReply),
            },
            Question::EnterIssueReference => match reply {
                Reply::Text(Some(s)) => {
                    if blank(s.as_str()) {
                        Err(StepError::Invalid("An issue reference is required".to_string()))
                    } else {
                        self.answers.issue_footer = Some(s);
                        self.current = None;
                        Ok(())
                    }
                },
                Reply::Text(None) => Err(
                    StepError::Invalid("An issue reference is required".to_string()),
                ),
                _ => Err(StepError::WrongReply),
            },
        }
    }

    /// The suggestions for the scope typed so far: the matching known scopes
    /// when autocomplete is on, none otherwise.
    pub fn suggest(&self, scopes: &Vec<String>, typed: &str) -> (r: Vec<String>)
        ensures
            self.autocomplete ==> string_views(r@) == matching_scopes(string_views(scopes@), typed@),
            !self.autocomplete ==> r@.len() == 0,
    {
        if self.autocomplete {
            scope_suggestions(scopes, typed)
        } else {
            Vec::new()
        }
    }

    /// The answers, once every question that applies has been answered.
    pub fn finish(self) -> (r: Option<Answers>)
        requires
            self.wf(),
        ensures
            self.current is None ==> r == Some(self.answers),
            self.current is Some ==> r is None,
            r matches Some(a) ==> (!self.breaking_changes ==> !a.is_breaking_change) && (
            a.issue_footer is Some ==> self.issues),
    {
        match self.current {
            None => Some(self.answers),
            Some(_) => None,
        }
    }
}

/// Starts the question flow for `config`; `last_message` is the first line
/// of a pending message, whose description becomes the summary hint.
pub fn create_prompt(last_message: &str, config: &Config) -> (r: Prompt)
    ensures
        r.wf(),
        r.current == Some(Question::SelectType),
        r.summary_placeholder@ == previous_summary_of(last_message@),
        r.autocomplete == config.autocomplete,
        r.breaking_changes == config.breaking_changes,
        r.issues == config.issues,
        r.answers@ == (Seq::<char>::empty(), None::<Seq<char>>, Seq::<char>::empty(), None::<
            Seq<char>,
        >, None::<Seq<char>>, false),
{
    Prompt {
        current: Some(Question::SelectType),
        summary_placeholder: previous_summary(last_message),
        autocomplete: config.autocomplete,
        breaking_changes: config.breaking_changes,
        issues: config.issues,
        answers: Answers {
            commit_type: String::new(),
            scope: None,
            summary: String::new(),
            body: None,
            issue_footer: None,
            is_breaking_change: false,
        },
    }
}

} // verus!
