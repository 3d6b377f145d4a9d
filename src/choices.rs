//! Rendering commit types as aligned choices, and reading a choice back.

use vstd::prelude::*;
use indexmap::IndexMap;
use crate::config::{Config, CommitType, well_keyed, TypeView, entries, type_at, type_count};
use crate::text::{push_char, push_spaces, spaces};

verus! {

/// Length of the longest key in `s`, zero when `s` is empty.
pub open spec fn max_key_len(s: Seq<(Seq<char>, TypeView)>) -> nat
    decreases s.len(),
{
    if s.len() == 0 {
        0
    } else {
        let m = max_key_len(s.drop_last());
        let k = s.last().0.len();
        if k > m {
            k
        } else {
            m
        }
    }
}

/// Whether the choice for `t` carries its emoji.
pub open spec fn shows_emoji(use_emoji: bool, t: TypeView) -> bool {
    use_emoji && t.3 is Some
}

/// The emoji and the space after it, or nothing.
pub open spec fn emoji_field(use_emoji: bool, t: TypeView) -> Seq<char> {
    if shows_emoji(use_emoji, t) {
        t.3->0 + seq![' ']
    } else {
        Seq::empty()
    }
}

/// Width of the right-aligned field that holds the emoji.
pub open spec fn field_width(use_emoji: bool, t: TypeView, max: nat) -> int {
    max - t.0.len() + if shows_emoji(use_emoji, t) {
        5int
    } else {
        3int
    }
}

/// Spaces in front of the emoji field; an emoji wider than its field gets none.
pub open spec fn pad_len(use_emoji: bool, t: TypeView, max: nat) -> nat {
    let w = field_width(use_emoji, t, max);
    let e = emoji_field(use_emoji, t).len();
    if w >= e {
        (w - e) as nat
    } else {
        0
    }
}

/// The text of the choice for `t` when the longest key has `max` characters.
pub open spec fn rendered_choice(use_emoji: bool, t: TypeView, max: nat) -> Seq<char> {
    t.0 + seq![':'] + spaces(pad_len(use_emoji, t, max)) + emoji_field(use_emoji, t) + t.2
}

/// Index of the first `:` in `s` from `i` on, or the length of `s`.
pub open spec fn colon_from(s: Seq<char>, i: int) -> int
    decreases s.len() - i,
{
    if i < 0 || i >= s.len() {
        s.len() as int
    } else if s[i] == ':' {
        i
    } else {
        colon_from(s, i + 1)
    }
}

/// The text in front of the first `:` of a choice.
pub open spec fn choice_key(s: Seq<char>) -> Seq<char> {
    s.take(colon_from(s, 0))
}

pub proof fn lemma_max_key_len(s: Seq<(Seq<char>, TypeView)>)
    ensures
        forall|i: int| 0 <= i < s.len() ==> (#[trigger] s[i]).0.len() <= max_key_len(s),
    decreases s.len(),
{
    if s.len() > 0 {
        let p = s.drop_last();
        lemma_max_key_len(p);
        assert forall|i: int| 0 <= i < s.len() implies (#[trigger] s[i]).0.len() <= max_key_len(s) by {
            if i < p.len() {
                assert(s[i] == p[i]);
            }
        }
    }
}

/// Length of the longest key among `m`'s commit types.
pub fn max_key_length(m: &IndexMap<String, CommitType>) -> (r: usize)
    ensures
        r == max_key_len(entries(*m)),
{
    let n = type_count(m);
    let mut best: usize = 0;
    let mut i: usize = 0;
    while i < n
        invariant
            n == entries(*m).len(),
            i <= n,
            best == max_key_len(entries(*m).take(i as int)),
        decreases n - i,
    {
        let (k, _t) = type_at(m, i);
        let len = k.unicode_len();
        proof {
            let s = entries(*m).take(i + 1);
            assert(s.drop_last() =~= entries(*m).take(i as int));
        }
        if len > best {
            best = len;
        }
        i = i + 1;
    }
    assert(entries(*m).take(n as int) =~= entries(*m));
    best
}

fn append_emoji_field(s: &mut String, use_emoji: bool, t: &CommitType)
    ensures
        final(s)@ == old(s)@ + emoji_field(use_emoji, t@),
{
    if use_emoji {
        match &t.emoji {
            Some(e) => {
                s.append(e.as_str());
                push_char(s, ' ');
                assert(final(s)@ =~= old(s)@ + emoji_field(use_emoji, t@));
                return;
            },
            None => {},
        }
    }
    assert(s@ =~= s@ + emoji_field(use_emoji, t@));
}

/// The choice that presents `commit_type` among `commit_types`: its key, a
/// colon, padding that lines the descriptions up, the emoji if shown, and the
/// description.
pub fn format_commit_type_choice(
    use_emoji: bool,
    commit_type: &CommitType,
    commit_types: &IndexMap<String, CommitType>,
) -> (r: String)
    requires
        commit_type@.0.len() <= max_key_len(entries(*commit_types)),
        max_key_len(entries(*commit_types)) + 5 <= usize::MAX,
    ensures
        r@ == rendered_choice(use_emoji, commit_type@, max_key_len(entries(*commit_types))),
{
    let max = max_key_length(commit_types);
    let shown = use_emoji && commit_type.emoji.is_some();
    let width: usize = max - commit_type.key.unicode_len() + if shown {
        5
    } else {
        3
    };
    let field_len: usize = match &commit_type.emoji {
        Some(e) => if shown {
            if e.unicode_len() >= width {
                width
            } else {
                e.unicode_len() + 1
            }
        } else {
            0
        },
        None => 0,
    };
    let mut out = commit_type.key.clone();
    push_char(&mut out, ':');
    if width >= field_len {
        push_spaces(&mut out, width - field_len);
    }
    append_emoji_field(&mut out, use_emoji, commit_type);
    out.append(commit_type.description.as_str());
    assert(out@ =~= rendered_choice(use_emoji, commit_type@, max as nat));
    out
}

/// The key held by an accepted choice: its text in front of the first `:`.
pub fn transform_commit_type_choice(choice: &str) -> (r: String)
    ensures
        r@ == choice_key(choice@),
{
    let n = choice.unicode_len();
    let mut out = String::new();
    let mut i: usize = 0;
    while i < n
        invariant
            n == choice@.len(),
            i <= n,
            out@ == choice@.take(i as int),
            colon_from(choice@, 0) == colon_from(choice@, i as int),
        decreases n - i,
    {
        let c = choice.get_char(i);
        if c == ':' {
            return out;
        }
        push_char(&mut out, c);
        assert(out@ =~= choice@.take(i + 1));
        i = i + 1;
    }
    assert(choice@.take(n as int) =~= choice@);
    out
}


/// Every commit type of `config` rendered as a choice, in configuration order.
pub fn type_choices(config: &Config) -> (r: Vec<String>)
    requires
        config.wf(),
        max_key_len(entries(config.commit_types)) + 5 <= usize::MAX,
    ensures
        r@.len() == entries(config.commit_types).len(),
        forall|i: int|
            0 <= i < r@.len() ==> (#[trigger] r@[i])@ == rendered_choice(
                config.emoji,
                entries(config.commit_types)[i].1,
                max_key_len(entries(config.commit_types)),
            ),
{
    let ghost s = entries(config.commit_types);
    let n = type_count(&config.commit_types);
    let mut out: Vec<String> = Vec::new();
    let mut i: usize = 0;
    while i < n
        invariant
            s == entries(config.commit_types),
            n == s.len(),
            i <= n,
            max_key_len(s) + 5 <= usize::MAX,
            well_keyed(s),
            out@.len() == i,
            forall|j: int|
                0 <= j < i ==> (#[trigger] out@[j])@ == rendered_choice(config.emoji, s[j].1, max_key_len(s)),
        decreases n - i,
    {
        let (_k, t) = type_at(&config.commit_types, i);
        proof {
            lemma_max_key_len(s);
            assert(s[i as int].0.len() <= max_key_len(s));
        }
        let c = format_commit_type_choice(config.emoji, t, &config.commit_types);
        out.push(c);
        i = i + 1;
    }
    out
}

/// The rendered choices line up: each begins with its key and a colon, and the
/// description begins at the same column in every choice that shows no emoji
/// and, two columns further, in every choice that shows one of at most four
/// characters.
pub proof fn lemma_choices_aligned(use_emoji: bool, s: Seq<(Seq<char>, TypeView)>, i: int)
    requires
        0 <= i < s.len(),
        well_keyed(s),
        shows_emoji(use_emoji, s[i].1) ==> s[i].1.3->0.len() <= 4,
    ensures
        ({
            let t = s[i].1;
            let r = rendered_choice(use_emoji, t, max_key_len(s));
            let col = max_key_len(s) + if shows_emoji(use_emoji, t) {
                6int
            } else {
                4int
            };
            &&& r.take(s[i].0.len() + 1int) == s[i].0 + seq![':']
            &&& col <= r.len()
            &&& r.skip(col) == t.2
        }),
{
    lemma_max_key_len(s);
    let t = s[i].1;
    let r = rendered_choice(use_emoji, t, max_key_len(s));
    assert(t.0 == s[i].0);
    assert(r.take(s[i].0.len() + 1int) =~= s[i].0 + seq![':']);
    let col = max_key_len(s) + if shows_emoji(use_emoji, t) {
        6int
    } else {
        4int
    };
    assert(r.skip(col) =~= t.2);
}

/// Reading back the choice rendered for a type gives the type's key, when the
/// key holds no colon.
pub proof fn lemma_choice_key_round_trip(use_emoji: bool, t: TypeView, max: nat)
    requires
        forall|i: int| 0 <= i < t.0.len() ==> t.0[i] != ':',
    ensures
        choice_key(rendered_choice(use_emoji, t, max)) == t.0,
{
    let r = rendered_choice(use_emoji, t, max);
    assert(r[t.0.len() as int] == ':');
    assert forall|i: int| 0 <= i < t.0.len() implies r[i] != ':' by {
        assert(r[i] == t.0[i]);
    }
    lemma_colon_from_skips(r, t.0.len() as int, t.0.len() as int);
    assert(r.take(t.0.len() as int) =~= t.0);
}

proof fn lemma_colon_from_skips(r: Seq<char>, k: int, stop: int)
    requires
        0 <= k <= stop < r.len(),
        forall|i: int| 0 <= i < stop ==> r[i] != ':',
    ensures
        colon_from(r, 0) == colon_from(r, k),
    decreases k,
{
    if k > 0 {
        lemma_colon_from_skips(r, k - 1, stop);
    }
}

} // verus!
