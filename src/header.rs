//! Reading a header line back by the conventional-commit grammar:
//! `type(scope)!: summary`, where the type is ASCII letters, the scope holds
//! neither white space nor parentheses, and the summary holds no line break.

use vstd::prelude::*;
use crate::commit::{header_line, message_text, section};
use crate::history::{first_line_of, newline_from};
use crate::text::is_white_space;

verus! {

pub open spec fn is_ascii_alpha(c: char) -> bool {
    ('a' <= c && c <= 'z') || ('A' <= c && c <= 'Z')
}

pub open spec fn is_scope_char(c: char) -> bool {
    !is_white_space(c) && c != '(' && c != ')' && c != '\r' && c != '\n'
}

pub open spec fn is_line_char(c: char) -> bool {
    c != '\r' && c != '\n'
}

/// End of the run of ASCII letters that starts at `i`.
pub open spec fn alpha_end(s: Seq<char>, i: int) -> int
    decreases s.len() - i,
{
    if i < 0 || i >= s.len() {
        s.len() as int
    } else if is_ascii_alpha(s[i]) {
        alpha_end(s, i + 1)
    } else {
        i
    }
}

/// Index of the first `)` from `i` on, or the length of `s`.
pub open spec fn close_from(s: Seq<char>, i: int) -> int
    decreases s.len() - i,
{
    if i < 0 || i >= s.len() {
        s.len() as int
    } else if s[i] == ')' {
        i
    } else {
        close_from(s, i + 1)
    }
}

/// The optional mark, the `: ` separator and the summary, from `k` on.
pub open spec fn read_rest(
    line: Seq<char>,
    k: int,
    commit_type: Seq<char>,
    scope: Option<Seq<char>>,
) -> Option<(Seq<char>, Option<Seq<char>>, bool, Seq<char>)> {
    let breaking = k < line.len() && line[k] == '!';
    let k2 = if breaking {
        k + 1
    } else {
        k
    };
    if k2 + 2 < line.len() && line[k2] == ':' && line[k2 + 1] == ' ' && forall|i: int|
        k2 + 2 <= i < line.len() ==> is_line_char(#[trigger] line[i]) {
        Some((commit_type, scope, breaking, line.skip(k2 + 2)))
    } else {
        None
    }
}

/// Type, scope, breaking mark and summary of a header line, or `None` when
/// the line does not follow the grammar.
pub open spec fn read_header(line: Seq<char>) -> Option<
    (Seq<char>, Option<Seq<char>>, bool, Seq<char>),
> {
    let a = alpha_end(line, 0);
    if a == 0 {
        None
    } else if a < line.len() && line[a] == '(' {
        let c = close_from(line, a + 1);
        if c < line.len() && c > a + 1 && forall|i: int|
            a + 1 <= i < c ==> is_scope_char(#[trigger] line[i]) {
            read_rest(line, c + 1, line.take(a), Some(line.subrange(a + 1, c)))
        } else {
            None
        }
    } else {
        read_rest(line, a, line.take(a), None)
    }
}

proof fn lemma_alpha_end(s: Seq<char>, i: int, stop: int)
    requires
        0 <= i <= stop < s.len(),
        forall|j: int| i <= j < stop ==> is_ascii_alpha(#[trigger] s[j]),
        !is_ascii_alpha(s[stop]),
    ensures
        alpha_end(s, i) == stop,
    decreases stop - i,
{
    if i < stop {
        lemma_alpha_end(s, i + 1, stop);
    }
}

proof fn lemma_close_from(s: Seq<char>, i: int, stop: int)
    requires
        0 <= i <= stop < s.len(),
        forall|j: int| i <= j < stop ==> #[trigger] s[j] != ')',
        s[stop] == ')',
    ensures
        close_from(s, i) == stop,
    decreases stop - i,
{
    if i < stop {
        lemma_close_from(s, i + 1, stop);
    }
}

proof fn lemma_newline_from(s: Seq<char>, i: int, stop: int)
    requires
        0 <= i <= stop <= s.len(),
        forall|j: int| i <= j < stop ==> #[trigger] s[j] != '\n',
        stop < s.len() ==> s[stop] == '\n',
    ensures
        newline_from(s, i) == stop,
    decreases stop - i,
{
    if i < stop {
        lemma_newline_from(s, i + 1, stop);
    }
}

/// The parts that the grammar can carry: a type of ASCII letters, a scope of
/// scope characters, a summary without line breaks; none of them empty.
pub open spec fn parts_fit_grammar(
    commit_type: Seq<char>,
    scope: Option<Seq<char>>,
    summary: Seq<char>,
) -> bool {
    &&& commit_type.len() > 0
    &&& forall|i: int| 0 <= i < commit_type.len() ==> is_ascii_alpha(#[trigger] commit_type[i])
    &&& scope matches Some(s) ==> s.len() > 0 && forall|i: int|
        0 <= i < s.len() ==> is_scope_char(#[trigger] s[i])
    &&& summary.len() > 0
    &&& forall|i: int| 0 <= i < summary.len() ==> is_line_char(#[trigger] summary[i])
}

/// Reading back the header line recovers the type, scope, breaking mark and
/// summary it was made from.
pub proof fn lemma_header_round_trip(
    commit_type: Seq<char>,
    scope: Option<Seq<char>>,
    breaking: bool,
    summary: Seq<char>,
)
    requires
        parts_fit_grammar(commit_type, scope, summary),
    ensures
        read_header(header_line(commit_type, scope, breaking, summary)) == Some(
            (commit_type, scope, breaking, summary),
        ),
{
    let h = header_line(commit_type, scope, breaking, summary);
    let t = commit_type.len() as int;
    let sc = match scope {
        Some(s) => seq!['('] + s + seq![')'],
        None => Seq::<char>::empty(),
    };
    let mk = if breaking {
        seq!['!']
    } else {
        Seq::<char>::empty()
    };
    let k = t + sc.len();
    let k2 = k + mk.len();
    assert(h =~= commit_type + sc + mk + seq![':', ' '] + summary);
    assert forall|j: int| 0 <= j < t implies is_ascii_alpha(#[trigger] h[j]) by {
        assert(h[j] == commit_type[j]);
    }
    lemma_alpha_end(h, 0, t);
    assert(h.take(t) =~= commit_type);
    assert(h[k2] == ':' && h[k2 + 1] == ' ');
    assert(h.skip(k2 + 2) =~= summary);
    assert forall|i: int| k2 + 2 <= i < h.len() implies is_line_char(#[trigger] h[i]) by {
        assert(h[i] == summary[i - k2 - 2]);
    }
    match scope {
        Some(s) => {
            assert forall|j: int| t + 1 <= j < t + 1 + s.len() implies #[trigger] h[j] != ')'
                && is_scope_char(h[j]) by {
                assert(h[j] == s[j - t - 1]);
            }
            lemma_close_from(h, t + 1, t + 1 + s.len());
            assert(h.subrange(t + 1, t + 1 + s.len()) =~= s);
        },
        None => {},
    }
}

/// The first line of a formatted message is its header, so reading the
/// message back recovers its type, scope, breaking mark and summary.
pub proof fn lemma_message_round_trip(
    commit_type: Seq<char>,
    scope: Option<Seq<char>>,
    breaking: bool,
    summary: Seq<char>,
    body: Option<Seq<char>>,
    footer: Option<Seq<char>>,
)
    requires
        parts_fit_grammar(commit_type, scope, summary),
    ensures
        read_header(first_line_of(message_text(commit_type, scope, breaking, summary, body, footer)))
            == Some((commit_type, scope, breaking, summary)),
{
    let h = header_line(commit_type, scope, breaking, summary);
    let m = message_text(commit_type, scope, breaking, summary, body, footer);
    let rest = section(body) + section(footer);
    assert(m =~= h + rest);
    assert forall|j: int| 0 <= j < h.len() implies #[trigger] m[j] != '\n' && m[j] != '\r' by {
        assert(m[j] == h[j]);
        let sc_len = match scope {
            Some(s) => s.len() + 2,
            None => 0,
        };
        let mk_len: int = if breaking {
            1
        } else {
            0
        };
        let st = commit_type.len() + sc_len + mk_len + 2;
        if j >= st {
            assert(h[j] == summary[j - st]);
        } else if j < commit_type.len() {
            assert(h[j] == commit_type[j]);
        } else if scope is Some && j < commit_type.len() + sc_len {
            let s = scope->0;
            if j > commit_type.len() && j < commit_type.len() + 1 + s.len() {
                assert(h[j] == s[j - commit_type.len() - 1]);
            }
        }
    }
    if rest.len() > 0 {
        assert(m[h.len() as int] == '\n');
    }
    lemma_newline_from(m, 0, h.len() as int);
    assert(m.take(h.len() as int) =~= h);
    lemma_header_round_trip(commit_type, scope, breaking, summary);
    assert(h.last() == summary.last());
}

} // verus!
