//! Commit types and the resolved session configuration.

use vstd::prelude::*;
use indexmap::IndexMap;

verus! {

/// One selectable category of change.
pub struct CommitType {
    pub key: String,
    pub name: String,
    pub description: String,
    pub emoji: Option<String>,
}

/// What a commit type holds: key, name, description and optional emoji.
pub type TypeView = (Seq<char>, Seq<char>, Seq<char>, Option<Seq<char>>);

pub open spec fn opt_view(o: Option<String>) -> Option<Seq<char>> {
    match o {
        Some(s) => Some(s@),
        None => None,
    }
}

impl View for CommitType {
    type V = TypeView;

    open spec fn view(&self) -> TypeView {
        (self.key@, self.name@, self.description@, opt_view(self.emoji))
    }
}

fn clone_opt(o: &Option<String>) -> (r: Option<String>)
    ensures
        opt_view(r) == opt_view(*o),
{
    match o {
        Some(s) => Some(s.clone()),
        None => None,
    }
}

impl CommitType {
    pub fn new(key: &str, description: &str, emoji: Option<&str>) -> (r: CommitType)
        ensures
            r@.0 == key@,
            r@.1 == key@,
            r@.2 == description@,
            r@.3 == match emoji {
                Some(e) => Some(e@),
                None => None::<Seq<char>>,
            },
    {
        CommitType {
            key: key.to_string(),
            name: key.to_string(),
            description: description.to_string(),
            emoji: match emoji {
                Some(e) => Some(e.to_string()),
                None => None,
            },
        }
    }

    pub fn duplicate(&self) -> (r: CommitType)
        ensures
            r@ == self@,
    {
        CommitType {
            key: self.key.clone(),
            name: self.name.clone(),
            description: self.description.clone(),
            emoji: clone_opt(&self.emoji),
        }
    }
}

#[verifier::external_type_specification]
#[verifier::external_body]
#[verifier::reject_recursive_types(K)]
#[verifier::reject_recursive_types(V)]
#[verifier::reject_recursive_types(S)]
pub struct ExIndexMap<K, V, S>(IndexMap<K, V, S>);

/// The ordered entries of a map of commit types: each key with its type.
pub uninterp spec fn entries(m: IndexMap<String, CommitType>) -> Seq<(Seq<char>, TypeView)>;

/// Position of the entry whose key is `k`.
pub open spec fn has_key(s: Seq<(Seq<char>, TypeView)>, k: Seq<char>) -> bool {
    exists|j: int| 0 <= j < s.len() && #[trigger] s[j].0 == k
}

pub open spec fn key_index(s: Seq<(Seq<char>, TypeView)>, k: Seq<char>) -> int {
    choose|j: int| 0 <= j < s.len() && #[trigger] s[j].0 == k
}

/// An insertion into an ordered map: an existing key keeps its place and takes
/// the new value; a new key goes last.
pub open spec fn insert_entry(s: Seq<(Seq<char>, TypeView)>, k: Seq<char>, v: TypeView) -> Seq<
    (Seq<char>, TypeView),
> {
    if has_key(s, k) {
        s.update(key_index(s, k), (k, v))
    } else {
        s.push((k, v))
    }
}

/// Inserting each of `ts`, in order, by its key.
pub open spec fn insert_all(s: Seq<(Seq<char>, TypeView)>, ts: Seq<TypeView>) -> Seq<
    (Seq<char>, TypeView),
>
    decreases ts.len(),
{
    if ts.len() == 0 {
        s
    } else {
        let t = ts.last();
        insert_entry(insert_all(s, ts.drop_last()), t.0, t)
    }
}

/// Keys are pairwise distinct and every entry is stored under its own key.
pub open spec fn well_keyed(s: Seq<(Seq<char>, TypeView)>) -> bool {
    &&& forall|i: int, j: int| 0 <= i < j < s.len() ==> #[trigger] s[i].0 != #[trigger] s[j].0
    &&& forall|i: int| 0 <= i < s.len() ==> #[trigger] s[i].1.0 == s[i].0
}

/// Relies on `IndexMap::new`: a new map is empty.
#[verifier::external_body]
fn new_type_map() -> (r: IndexMap<String, CommitType>)
    ensures
        entries(r) == Seq::<(Seq<char>, TypeView)>::empty(),
{
    IndexMap::new()
}

/// Relies on `IndexMap::insert`: an existing key keeps its position and gets the
/// new value; a new key is appended last.
#[verifier::external_body]
fn insert_type(m: &mut IndexMap<String, CommitType>, key: String, t: CommitType)
    ensures
        entries(*final(m)) == insert_entry(entries(*old(m)), key@, t@),
{
    m.insert(key, t);
}

/// Relies on `IndexMap::len`: the number of entries.
#[verifier::external_body]
pub(crate) fn type_count(m: &IndexMap<String, CommitType>) -> (r: usize)
    ensures
        r == entries(*m).len(),
{
    m.len()
}

/// Relies on `IndexMap::get_index`: the entry at a position, in insertion order.
#[verifier::external_body]
pub(crate) fn type_at(m: &IndexMap<String, CommitType>, i: usize) -> (r: (&String, &CommitType))
    requires
        i < entries(*m).len(),
    ensures
        r.0@ == entries(*m)[i as int].0,
        r.1@ == entries(*m)[i as int].1,
{
    m.get_index(i).unwrap()
}

pub proof fn lemma_insert_keeps_well_keyed(s: Seq<(Seq<char>, TypeView)>, k: Seq<char>, v: TypeView)
    requires
        well_keyed(s),
        v.0 == k,
    ensures
        well_keyed(insert_entry(s, k, v)),
{
    let r = insert_entry(s, k, v);
    if has_key(s, k) {
        let j = key_index(s, k);
        assert forall|a: int, b: int| 0 <= a < b < r.len() implies #[trigger] r[a].0
            != #[trigger] r[b].0 by {
            if a == j {
                assert(s[b].0 != s[j].0);
            } else if b == j {
                assert(s[a].0 != s[j].0);
            }
        }
    } else {
        assert forall|a: int, b: int| 0 <= a < b < r.len() implies #[trigger] r[a].0
            != #[trigger] r[b].0 by {
            if b == s.len() {
                assert(r[a].0 == s[a].0);
            }
        }
    }
}


/// Explicit flag values given for one invocation; `None` leaves a flag open.
pub struct ConfigArgs {
    pub autocomplete: Option<bool>,
    pub breaking_changes: Option<bool>,
    pub emoji: Option<bool>,
    pub issues: Option<bool>,
    pub sign: Option<bool>,
}

/// The contents of a user configuration file.
pub struct ConfigFile {
    pub commit_types: Vec<CommitType>,
    pub autocomplete: Option<bool>,
    pub breaking_changes: Option<bool>,
    pub emoji: Option<bool>,
    pub issues: Option<bool>,
    pub sign: Option<bool>,
}

/// A commit type of the configuration file that lacks a required field; the
/// index is the entry's position in the file.
#[derive(Debug, PartialEq, Eq, Structural)]
pub enum ConfigError {
    MissingKey(usize),
    MissingDescription(usize),
}

/// The resolved, read-only settings of one session.
pub struct Config {
    pub commit_types: IndexMap<String, CommitType>,
    pub autocomplete: bool,
    pub breaking_changes: bool,
    pub emoji: bool,
    pub issues: bool,
    pub sign: bool,
}

pub const DEFAULT_AUTOCOMPLETE: bool = false;
pub const DEFAULT_BREAKING_CHANGES: bool = true;
pub const DEFAULT_EMOJI: bool = true;
pub const DEFAULT_ISSUES: bool = true;
pub const DEFAULT_SIGN: bool = false;

/// An explicit value wins over the file's, which wins over the default.
pub open spec fn resolve_flag(explicit: Option<bool>, file: Option<bool>, default: bool) -> bool {
    match explicit {
        Some(b) => b,
        None => match file {
            Some(b) => b,
            None => default,
        },
    }
}

fn pick_flag(explicit: Option<bool>, file: Option<bool>, default: bool) -> (r: bool)
    ensures
        r == resolve_flag(explicit, file, default),
{
    match explicit {
        Some(b) => b,
        None => match file {
            Some(b) => b,
            None => default,
        },
    }
}

/// The built-in commit types, in their canonical order.
pub open spec fn default_type_views() -> Seq<TypeView> {
    seq![
        ("feat"@, "feat"@, "A new feature"@, Some("\u{2728}"@)),
        ("fix"@, "fix"@, "A bug fix"@, Some("\u{1f41b}"@)),
        ("docs"@, "docs"@, "Documentation only changes"@, Some("\u{1f4da}"@)),
        ("style"@, "style"@, "Changes that do not affect the meaning of the code"@, Some("\u{1f48e}"@)),
        ("refactor"@, "refactor"@, "A code change that neither fixes a bug nor adds a feature"@, Some("\u{1f528}"@)),
        ("perf"@, "perf"@, "A code change that improves performance"@, Some("\u{1f680}"@)),
        ("test"@, "test"@, "Adding missing tests or correcting existing tests"@, Some("\u{1f6a8}"@)),
        ("build"@, "build"@, "Changes that affect the build system or external dependencies"@, Some("\u{1f4e6}"@)),
        ("ci"@, "ci"@, "Changes to our CI configuration files and scripts"@, Some("\u{1f916}"@)),
        ("chore"@, "chore"@, "Other changes that do not modify src or test files"@, Some("\u{1f9f9}"@)),
        ("revert"@, "revert"@, "Reverts a previous commit"@, Some("\u{23ea}"@)),
    ]
}

pub open spec fn type_views(ts: Seq<CommitType>) -> Seq<TypeView> {
    ts.map_values(|t: CommitType| t@)
}

/// The built-in commit types.
pub fn default_commit_types() -> (r: Vec<CommitType>)
    ensures
        type_views(r@) == default_type_views(),
{
    let mut v: Vec<CommitType> = Vec::new();
    v.push(CommitType::new("feat", "A new feature", Some("\u{2728}")));
    v.push(CommitType::new("fix", "A bug fix", Some("\u{1f41b}")));
    v.push(CommitType::new("docs", "Documentation only changes", Some("\u{1f4da}")));
    v.push(CommitType::new("style", "Changes that do not affect the meaning of the code", Some("\u{1f48e}")));
    v.push(CommitType::new("refactor", "A code change that neither fixes a bug nor adds a feature", Some("\u{1f528}")));
    v.push(CommitType::new("perf", "A code change that improves performance", Some("\u{1f680}")));
    v.push(CommitType::new("test", "Adding missing tests or correcting existing tests", Some("\u{1f6a8}")));
    v.push(CommitType::new("build", "Changes that affect the build system or external dependencies", Some("\u{1f4e6}")));
    v.push(CommitType::new("ci", "Changes to our CI configuration files and scripts", Some("\u{1f916}")));
    v.push(CommitType::new("chore", "Other changes that do not modify src or test files", Some("\u{1f9f9}")));
    v.push(CommitType::new("revert", "Reverts a previous commit", Some("\u{23ea}")));
    assert(type_views(v@) =~= default_type_views());
    v
}

proof fn lemma_defaults_described()
    ensures
        forall|i: int| 0 <= i < default_type_views().len() ==> (#[trigger] default_type_views()[i]).2.len() > 0,
{
    reveal_strlit("A new feature");
    reveal_strlit("A bug fix");
    reveal_strlit("Documentation only changes");
    reveal_strlit("Changes that do not affect the meaning of the code");
    reveal_strlit("A code change that neither fixes a bug nor adds a feature");
    reveal_strlit("A code change that improves performance");
    reveal_strlit("Adding missing tests or correcting existing tests");
    reveal_strlit("Changes that affect the build system or external dependencies");
    reveal_strlit("Changes to our CI configuration files and scripts");
    reveal_strlit("Other changes that do not modify src or test files");
    reveal_strlit("Reverts a previous commit");
}

/// The commit types of a configuration built from the defaults and `overrides`.
pub open spec fn merged_types(overrides: Seq<TypeView>) -> Seq<(Seq<char>, TypeView)> {
    insert_all(insert_all(Seq::empty(), default_type_views()), overrides)
}

pub open spec fn incomplete(t: TypeView) -> bool {
    t.0.len() == 0 || t.2.len() == 0
}

/// Index of the first entry of `ts`, from `i` on, that lacks its key or its
/// description.
pub open spec fn first_incomplete_from(ts: Seq<TypeView>, i: int) -> Option<int>
    decreases ts.len() - i,
{
    if i < 0 || i >= ts.len() {
        None
    } else if incomplete(ts[i]) {
        Some(i)
    } else {
        first_incomplete_from(ts, i + 1)
    }
}

pub open spec fn first_incomplete(ts: Seq<TypeView>) -> Option<int> {
    first_incomplete_from(ts, 0)
}

impl Config {
    /// A configuration is well formed when it offers at least one type, its
    /// keys are distinct and every type has a description.
    pub open spec fn wf(&self) -> bool {
        &&& entries(self.commit_types).len() > 0
        &&& well_keyed(entries(self.commit_types))
        &&& described(entries(self.commit_types))
    }

    /// Resolves the commit types and flags from the explicit arguments, an
    /// optional configuration file and the built-in defaults.
    pub fn new(args: ConfigArgs, file: Option<ConfigFile>) -> (r: Result<Config, ConfigError>)
        ensures
            match file {
                None => r is Ok,
                Some(f) => match first_incomplete(type_views(f.commit_types@)) {
                    None => r is Ok,
                    Some(i) => {
                        let t = f.commit_types@[i];
                        &&& t.key@.len() == 0 ==> r == Err::<Config, ConfigError>(ConfigError::MissingKey(i as usize))
                        &&& t.key@.len() != 0 ==> r == Err::<Config, ConfigError>(ConfigError::MissingDescription(i as usize))
                    },
                },
            },
            r matches Ok(c) ==> {
                &&& c.wf()
                &&& entries(c.commit_types) == merged_types(
                    match file {
                        Some(f) => type_views(f.commit_types@),
                        None => Seq::empty(),
                    },
                )
                &&& c.autocomplete == resolve_flag(args.autocomplete, match file { Some(f) => f.autocomplete, None => None }, DEFAULT_AUTOCOMPLETE)
                &&& c.breaking_changes == resolve_flag(args.breaking_changes, match file { Some(f) => f.breaking_changes, None => None }, DEFAULT_BREAKING_CHANGES)
                &&& c.emoji == resolve_flag(args.emoji, match file { Some(f) => f.emoji, None => None }, DEFAULT_EMOJI)
                &&& c.issues == resolve_flag(args.issues, match file { Some(f) => f.issues, None => None }, DEFAULT_ISSUES)
                &&& c.sign == resolve_flag(args.sign, match file { Some(f) => f.sign, None => None }, DEFAULT_SIGN)
            },
    {
        let mut map = new_type_map();
        let defaults = default_commit_types();
        let ghost none: Seq<TypeView> = Seq::empty();
        insert_types(&mut map, &defaults);
        proof {
            lemma_defaults_described();
            lemma_insert_all_nonempty(Seq::empty(), default_type_views());
        }
        match file {
            None => {
                assert(merged_types(none) == entries(map));
                Ok(Config {
                    commit_types: map,
                    autocomplete: pick_flag(args.autocomplete, None, DEFAULT_AUTOCOMPLETE),
                    breaking_changes: pick_flag(args.breaking_changes, None, DEFAULT_BREAKING_CHANGES),
                    emoji: pick_flag(args.emoji, None, DEFAULT_EMOJI),
                    issues: pick_flag(args.issues, None, DEFAULT_ISSUES),
                    sign: pick_flag(args.sign, None, DEFAULT_SIGN),
                })
            },
            Some(f) => {
                match check_complete(&f.commit_types) {
                    Some(e) => {
                        return Err(e);
                    },
                    None => {},
                }
                let ghost before = entries(map);
                insert_types(&mut map, &f.commit_types);
                proof {
                    let vs = type_views(f.commit_types@);
                    lemma_complete_from(vs, 0);
                    assert forall|i: int| 0 <= i < vs.len() implies (#[trigger] vs[i]).2.len() > 0 by {
                        assert(!incomplete(vs[i]));
                    }
                    lemma_insert_all_nonempty(before, vs);
                }
                Ok(Config {
                    commit_types: map,
                    autocomplete: pick_flag(args.autocomplete, f.autocomplete, DEFAULT_AUTOCOMPLETE),
                    breaking_changes: pick_flag(args.breaking_changes, f.breaking_changes, DEFAULT_BREAKING_CHANGES),
                    emoji: pick_flag(args.emoji, f.emoji, DEFAULT_EMOJI),
                    issues: pick_flag(args.issues, f.issues, DEFAULT_ISSUES),
                    sign: pick_flag(args.sign, f.sign, DEFAULT_SIGN),
                })
            },
        }
    }
}

/// Every entry has a description.
pub open spec fn described(s: Seq<(Seq<char>, TypeView)>) -> bool {
    forall|i: int| 0 <= i < s.len() ==> (#[trigger] s[i]).1.2.len() > 0
}

proof fn lemma_complete_from(ts: Seq<TypeView>, i: int)
    requires
        0 <= i,
        first_incomplete_from(ts, i) is None,
    ensures
        forall|j: int| i <= j < ts.len() ==> !incomplete(#[trigger] ts[j]),
    decreases ts.len() - i,
{
    if i < ts.len() {
        lemma_complete_from(ts, i + 1);
    }
}

proof fn lemma_insert_all_nonempty(s: Seq<(Seq<char>, TypeView)>, ts: Seq<TypeView>)
    requires
        well_keyed(s),
        described(s),
        forall|i: int| 0 <= i < ts.len() ==> (#[trigger] ts[i]).2.len() > 0,
    ensures
        well_keyed(insert_all(s, ts)),
        described(insert_all(s, ts)),
        insert_all(s, ts).len() >= s.len(),
        ts.len() > 0 ==> insert_all(s, ts).len() > 0,
    decreases ts.len(),
{
    if ts.len() > 0 {
        let t = ts.last();
        let p = ts.drop_last();
        assert forall|i: int| 0 <= i < p.len() implies (#[trigger] p[i]).2.len() > 0 by {
            assert(p[i] == ts[i]);
        }
        lemma_insert_all_nonempty(s, p);
        lemma_insert_keeps_well_keyed(insert_all(s, p), t.0, t);
        let q = insert_all(s, p);
        let r = insert_all(s, ts);
        assert(t.2.len() > 0);
        assert forall|i: int| 0 <= i < r.len() implies (#[trigger] r[i]).1.2.len() > 0 by {
            if i < q.len() && r[i] != q[i] {
                assert(r[i] == (t.0, t));
            }
        }
    }
}

fn insert_types(m: &mut IndexMap<String, CommitType>, ts: &Vec<CommitType>)
    ensures
        entries(*final(m)) == insert_all(entries(*old(m)), type_views(ts@)),
{
    let ghost start = entries(*m);
    let mut i: usize = 0;
    while i < ts.len()
        invariant
            i <= ts@.len(),
            entries(*m) == insert_all(start, type_views(ts@.subrange(0, i as int))),
        decreases ts@.len() - i,
    {
        let t = ts[i].duplicate();
        let k = ts[i].key.clone();
        insert_type(m, k, t);
        proof {
            let pre = type_views(ts@.subrange(0, i as int));
            let post = type_views(ts@.subrange(0, i + 1));
            assert(post.drop_last() =~= pre);
            assert(post.last() == ts@[i as int]@);
        }
        i = i + 1;
    }
    assert(ts@.subrange(0, ts@.len() as int) =~= ts@);
}

/// Finds the first type that lacks its key or its description.
fn check_complete(ts: &Vec<CommitType>) -> (r: Option<ConfigError>)
    ensures
        match first_incomplete(type_views(ts@)) {
            None => r is None,
            Some(i) => {
                &&& ts@[i].key@.len() == 0 ==> r == Some(ConfigError::MissingKey(i as usize))
                &&& ts@[i].key@.len() != 0 ==> r == Some(ConfigError::MissingDescription(i as usize))
            },
        },
{
    let ghost vs = type_views(ts@);
    let mut i: usize = 0;
    while i < ts.len()
        invariant
            i <= ts@.len(),
            vs == type_views(ts@),
            first_incomplete(vs) == first_incomplete_from(vs, i as int),
        decreases ts@.len() - i,
    {
        let t = &ts[i];
        if t.key.unicode_len() == 0 {
            return Some(ConfigError::MissingKey(i));
        }
        if t.description.unicode_len() == 0 {
            return Some(ConfigError::MissingDescription(i));
        }
        i = i + 1;
    }
    None
}


/// Overriding one key in the configuration file: when the defaults hold that
/// key, only its entry changes and it keeps its place, every other entry
/// keeping its content and order; a new key is appended after all defaults.
pub proof fn lemma_single_override(t: TypeView)
    ensures
        ({
            let d = merged_types(Seq::empty());
            let r = merged_types(seq![t]);
            &&& has_key(d, t.0) ==> {
                &&& r.len() == d.len()
                &&& r[key_index(d, t.0)] == (t.0, t)
                &&& forall|i: int| 0 <= i < d.len() && i != key_index(d, t.0) ==> r[i] == d[i]
            }
            &&& !has_key(d, t.0) ==> r == d.push((t.0, t))
        }),
{
    let d = merged_types(Seq::empty());
    let one = seq![t];
    assert(one.drop_last() =~= Seq::<TypeView>::empty());
    assert(one.last() == t);
    assert(insert_all(d, one) == insert_entry(d, t.0, t));
    if has_key(d, t.0) {
        let j = key_index(d, t.0);
        assert(0 <= j < d.len());
    }
}

} // verus!
