//! Reading conventional summary lines: the scopes of earlier commits, the
//! description of a pending message, and whether a message needs prompting.

use vstd::prelude::*;
use crate::config::opt_view;
use crate::text::{push_char, string_views};

verus! {

/// What the conventional summary-line parser reads from `s`: the scope, if
/// any, and the description; `None` when `s` is not a conventional summary.
pub uninterp spec fn parsed_summary(s: Seq<char>) -> Option<(Option<Seq<char>>, Seq<char>)>;

/// Whether the conventional message parser accepts `s` as a whole message.
pub uninterp spec fn message_parses(s: Seq<char>) -> bool;

/// The parts of a summary line that the library reads.
pub struct SummaryParts {
    pub scope: Option<String>,
    pub summary: String,
}

/// Relies on `conventional_commit_parser::parse_summary`: its scope and summary
/// fields on success, its error otherwise.
#[verifier::external_body]
fn parse_summary_line(line: &str) -> (r: Option<SummaryParts>)
    ensures
        match parsed_summary(line@) {
            None => r is None,
            Some(p) => r matches Some(q) && opt_view(q.scope) == p.0 && q.summary@ == p.1,
        },
{
    match conventional_commit_parser::parse_summary(line) {
        Ok(c) => Some(SummaryParts { scope: c.scope, summary: c.summary }),
        Err(_) => None,
    }
}

/// Relies on `conventional_commit_parser::parse`: whether it returns `Ok`.
#[verifier::external_body]
fn parses_as_message(msg: &str) -> (r: bool)
    ensures
        r == message_parses(msg@),
{
    conventional_commit_parser::parse(msg).is_ok()
}

/// The scope that the parser reads from a summary line, if it reads one.
pub open spec fn scope_of(line: Seq<char>) -> Option<Seq<char>> {
    match parsed_summary(line) {
        Some((Some(sc), _)) => Some(sc),
        _ => None,
    }
}

/// The distinct scopes of `lines`, in order of first appearance; lines that
/// do not parse, or carry no scope, add nothing.
pub open spec fn history_scopes(lines: Seq<Seq<char>>) -> Seq<Seq<char>>
    decreases lines.len(),
{
    if lines.len() == 0 {
        Seq::empty()
    } else {
        let prev = history_scopes(lines.drop_last());
        match scope_of(lines.last()) {
            Some(sc) => if prev.contains(sc) {
                prev
            } else {
                prev.push(sc)
            },
            None => prev,
        }
    }
}

fn holds_string(v: &Vec<String>, s: &String) -> (r: bool)
    ensures
        r == string_views(v@).contains(s@),
{
    let mut i: usize = 0;
    while i < v.len()
        invariant
            i <= v@.len(),
            forall|j: int| 0 <= j < i ==> (#[trigger] v@[j])@ != s@,
        decreases v@.len() - i,
    {
        if v[i] == *s {
            assert(string_views(v@)[i as int] == s@);
            return true;
        }
        i = i + 1;
    }
    assert forall|j: int| 0 <= j < string_views(v@).len() implies #[trigger] string_views(v@)[j]
        != s@ by {
        assert(v@[j]@ != s@);
    }
    false
}

/// The distinct scopes of the given commit summaries, most recent first when
/// the summaries come most recent first.
pub fn get_existing_scopes(summaries: &Vec<String>) -> (r: Vec<String>)
    ensures
        string_views(r@) == history_scopes(string_views(summaries@)),
{
    let ghost all = string_views(summaries@);
    let mut scopes: Vec<String> = Vec::new();
    let mut i: usize = 0;
    while i < summaries.len()
        invariant
            all == string_views(summaries@),
            i <= summaries@.len(),
            string_views(scopes@) == history_scopes(all.take(i as int)),
        decreases summaries@.len() - i,
    {
        proof {
            assert(all.take(i + 1).drop_last() =~= all.take(i as int));
            assert(all.take(i + 1).last() == summaries@[i as int]@);
        }
        match parse_summary_line(summaries[i].as_str()) {
            Some(parts) => match parts.scope {
                Some(scope) => {
                    if !holds_string(&scopes, &scope) {
                        scopes.push(scope);
                        assert(string_views(scopes@) =~= history_scopes(all.take(i as int)).push(
                            scope@,
                        ));
                    }
                },
                None => {},
            },
            None => {},
        }
        i = i + 1;
    }
    assert(all.take(summaries@.len() as int) =~= all);
    scopes
}

/// The description that a pending summary line already holds, or nothing
/// when the line is not a conventional summary.
pub open spec fn previous_summary_of(msg: Seq<char>) -> Seq<char> {
    match parsed_summary(msg) {
        Some((_, su)) => su,
        None => Seq::empty(),
    }
}

pub fn previous_summary(msg: &str) -> (r: String)
    ensures
        r@ == previous_summary_of(msg@),
{
    match parse_summary_line(msg) {
        Some(parts) => parts.summary,
        None => String::new(),
    }
}

/// Index of the first line break of `s` from `i` on, or the length of `s`.
pub open spec fn newline_from(s: Seq<char>, i: int) -> int
    decreases s.len() - i,
{
    if i < 0 || i >= s.len() {
        s.len() as int
    } else if s[i] == '\n' {
        i
    } else {
        newline_from(s, i + 1)
    }
}

/// The first line of `s`, without its line ending.
pub open spec fn first_line_of(s: Seq<char>) -> Seq<char> {
    let l = s.take(newline_from(s, 0));
    if l.len() > 0 && l.last() == '\r' {
        l.drop_last()
    } else {
        l
    }
}

/// The first line of a pending message file's contents.
pub fn first_line(contents: &str) -> (r: String)
    ensures
        r@ == first_line_of(contents@),
{
    let n = contents.unicode_len();
    let mut out = String::new();
    let mut i: usize = 0;
    let mut at_break = false;
    while i < n && !at_break
        invariant
            n == contents@.len(),
            i <= n,
            out@ == contents@.take(i as int),
            newline_from(contents@, 0) == newline_from(contents@, i as int),
            at_break ==> i < n && contents@[i as int] == '\n',
        decreases n - i, if at_break { 0int } else { 1int },
    {
        let c = contents.get_char(i);
        if c == '\n' {
            at_break = true;
        } else {
            push_char(&mut out, c);
            assert(out@ =~= contents@.take(i + 1));
            i = i + 1;
        }
    }
    assert(newline_from(contents@, 0) == i as int);
    assert(out@ == contents@.take(newline_from(contents@, 0)));
    let k = out.unicode_len();
    if k > 0 && out.get_char(k - 1) == '\r' {
        let trimmed = out.substring_char(0, k - 1).to_string();
        assert(trimmed@ =~= out@.drop_last());
        trimmed
    } else {
        out
    }
}

/// In hook mode a pending first line that already parses as a conventional
/// message is left alone, with no prompt.
pub fn should_skip_prompt(hook: bool, first_line: &str) -> (r: bool)
    ensures
        r == (hook && message_parses(first_line@)),
{
    hook && parses_as_message(first_line)
}

} // verus!
