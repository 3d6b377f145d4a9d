//! Rules that turn raw replies into answers, and the scope history scan.

use vstd::prelude::*;
use crate::text::{blank, contains, contains_str, is_blank, push_char, string_views};

verus! {

/// The outcome of checking a reply.
#[derive(Debug, PartialEq, Eq)]
pub enum Validation {
    Valid,
    Invalid(String),
}

/// Accepts any summary that is not blank.
pub fn validate_summary(input: &str) -> (r: Validation)
    ensures
        !is_blank(input@) ==> r == Validation::Valid,
        is_blank(input@) ==> (r matches Validation::Invalid(m) && m@ == "A summary is required"@),
{
    if blank(input) {
        Validation::Invalid("A summary is required".to_string())
    } else {
        Validation::Valid
    }
}

/// Accepts any issue reference that is not blank.
pub fn validate_issue_reference(input: &str) -> (r: Validation)
    ensures
        !is_blank(input@) ==> r == Validation::Valid,
        is_blank(input@) ==> (r matches Validation::Invalid(m) && m@
            == "An issue reference is required"@),
{
    if blank(input) {
        Validation::Invalid("An issue reference is required".to_string())
    } else {
        Validation::Valid
    }
}

/// A skipped or blank scope reply means no scope.
pub fn scope_answer(input: Option<String>) -> (r: Option<String>)
    ensures
        match input {
            None => r is None,
            Some(s) => if is_blank(s@) {
                r is None
            } else {
                r == Some(s)
            },
        },
{
    match input {
        None => None,
        Some(s) => if blank(s.as_str()) {
            None
        } else {
            Some(s)
        },
    }
}

/// `s` with each two-character sequence `\n`, read left to right, turned into
/// a line break.
pub open spec fn unescape_newlines(s: Seq<char>) -> Seq<char>
    decreases s.len(),
{
    if s.len() < 2 {
        s
    } else if s[0] == '\\' && s[1] == 'n' {
        seq!['\n'] + unescape_newlines(s.skip(2))
    } else {
        seq![s[0]] + unescape_newlines(s.skip(1))
    }
}

/// Replaces each typed `\n` by a line break.
pub fn unescape_body(s: &str) -> (r: String)
    ensures
        r@ == unescape_newlines(s@),
{
    let n = s.unicode_len();
    let mut out = String::new();
    let mut i: usize = 0;
    assert(s@.skip(0) =~= s@);
    assert(out@ + unescape_newlines(s@) =~= unescape_newlines(s@));
    while i < n
        invariant
            n == s@.len(),
            i <= n,
            out@ + unescape_newlines(s@.skip(i as int)) == unescape_newlines(s@),
        decreases n - i,
    {
        let ghost rest = s@.skip(i as int);
        let c = s.get_char(i);
        if c == '\\' && i + 1 < n && s.get_char(i + 1) == 'n' {
            push_char(&mut out, '\n');
            proof {
                assert(rest.skip(2) =~= s@.skip(i + 2));
                assert(out@ + unescape_newlines(s@.skip(i + 2)) =~= out@.drop_last() + (seq!['\n']
                    + unescape_newlines(rest.skip(2))));
            }
            i = i + 2;
        } else {
            push_char(&mut out, c);
            proof {
                assert(rest.skip(1) =~= s@.skip(i + 1));
                if rest.len() >= 2 {
                    assert(out@ + unescape_newlines(s@.skip(i + 1)) =~= out@.drop_last() + (seq![c]
                        + unescape_newlines(rest.skip(1))));
                } else {
                    assert(rest =~= seq![c]);
                    assert(s@.skip(i + 1).len() == 0);
                    assert(out@ + unescape_newlines(s@.skip(i + 1)) =~= out@.drop_last() + rest);
                }
            }
            i = i + 1;
        }
    }
    assert(s@.skip(n as int).len() == 0);
    assert(out@ =~= out@ + unescape_newlines(s@.skip(n as int)));
    out
}

/// A skipped or empty body reply means no body; otherwise typed `\n` become
/// line breaks.
pub fn body_answer(input: Option<String>) -> (r: Option<String>)
    ensures
        match input {
            None => r is None,
            Some(s) => if s@.len() == 0 {
                r is None
            } else {
                (r matches Some(b) && b@ == unescape_newlines(s@))
            },
        },
{
    match input {
        None => None,
        Some(s) => if s.unicode_len() == 0 {
            None
        } else {
            Some(unescape_body(s.as_str()))
        },
    }
}

/// The entries of `scopes`, in order, that contain `typed`.
pub open spec fn matching_scopes(scopes: Seq<Seq<char>>, typed: Seq<char>) -> Seq<Seq<char>>
    decreases scopes.len(),
{
    if scopes.len() == 0 {
        Seq::empty()
    } else {
        let rest = matching_scopes(scopes.drop_last(), typed);
        if contains(scopes.last(), typed) {
            rest.push(scopes.last())
        } else {
            rest
        }
    }
}

/// The suggestions offered for the scope typed so far: the known scopes that
/// contain it, in their order.
pub fn scope_suggestions(scopes: &Vec<String>, typed: &str) -> (r: Vec<String>)
    ensures
        string_views(r@) == matching_scopes(string_views(scopes@), typed@),
{
    let ghost all = string_views(scopes@);
    let mut out: Vec<String> = Vec::new();
    let mut i: usize = 0;
    while i < scopes.len()
        invariant
            all == string_views(scopes@),
            i <= scopes@.len(),
            string_views(out@) == matching_scopes(all.take(i as int), typed@),
        decreases scopes@.len() - i,
    {
        proof {
            assert(all.take(i + 1).drop_last() =~= all.take(i as int));
        }
        if contains_str(scopes[i].as_str(), typed) {
            out.push(scopes[i].clone());
            assert(string_views(out@) =~= matching_scopes(all.take(i as int), typed@).push(all[i as int]));
        }
        i = i + 1;
    }
    assert(all.take(scopes@.len() as int) =~= all);
    out
}

/// Every suggested scope contains the text typed so far, and is a known scope.
pub proof fn lemma_suggestions_contain_typed(scopes: Seq<Seq<char>>, typed: Seq<char>)
    ensures
        forall|i: int|
            0 <= i < matching_scopes(scopes, typed).len() ==> contains(
                #[trigger] matching_scopes(scopes, typed)[i],
                typed,
            ) && scopes.contains(matching_scopes(scopes, typed)[i]),
    decreases scopes.len(),
{
    if scopes.len() > 0 {
        let p = scopes.drop_last();
        lemma_suggestions_contain_typed(p, typed);
        let r = matching_scopes(scopes, typed);
        let q = matching_scopes(p, typed);
        assert forall|i: int| 0 <= i < r.len() implies contains(#[trigger] r[i], typed)
            && scopes.contains(r[i]) by {
            if i < q.len() {
                assert(r[i] == q[i]);
                let j = choose|j: int| 0 <= j < p.len() && p[j] == q[i];
                assert(scopes[j] == p[j]);
            } else {
                assert(scopes[scopes.len() - 1] == scopes.last());
            }
        }
    }
}

} // verus!
