use vstd::prelude::*;

use crate::env::Environment;
use crate::value::{scalar_text, Datum};

verus! {

/// What substituting a template comes to, in terms of sequences.
pub enum Resolution {
    /// Every placeholder resolved to a scalar: the finished text.
    Done(Seq<char>),
    /// No layer binds the name; the placeholder's inline fallback, if any.
    Missing(Seq<char>, Option<Seq<char>>),
    /// The name resolves to a list of candidates, in their order.
    Choice(Seq<char>, Seq<Datum>),
    /// The name resolves to a table, which has no textual form here.
    Unsupported(Seq<char>),
}

/// `p` put in front of the text of a finished resolution; a failure stays as it is.
pub open spec fn prepend(p: Seq<char>, r: Resolution) -> Resolution {
    match r {
        Resolution::Done(s) => Resolution::Done(p + s),
        _ => r,
    }
}

/// Whether a placeholder opens (`{{`) at `i`.
pub open spec fn opens_at(t: Seq<char>, i: int) -> bool {
    0 <= i && i + 1 < t.len() && t[i] == '{' && t[i + 1] == '{'
}

/// Whether a placeholder closes (`}}`) at `i`.
pub open spec fn closes_at(t: Seq<char>, i: int) -> bool {
    0 <= i && i + 1 < t.len() && t[i] == '}' && t[i + 1] == '}'
}

/// The first position at or after `i` where a placeholder closes.
pub open spec fn close_from(t: Seq<char>, i: int) -> Option<int>
    decreases t.len() - i,
{
    if i < 0 || i + 1 >= t.len() {
        None
    } else if closes_at(t, i) {
        Some(i)
    } else {
        close_from(t, i + 1)
    }
}

/// The first position at or after `i` where the fallback separator `:-` stands.
pub open spec fn separator_from(b: Seq<char>, i: int) -> Option<int>
    decreases b.len() - i,
{
    if i < 0 || i + 1 >= b.len() {
        None
    } else if b[i] == ':' && b[i + 1] == '-' {
        Some(i)
    } else {
        separator_from(b, i + 1)
    }
}

/// The name a placeholder's body asks for: all of it up to the first `:-`.
pub open spec fn name_of(body: Seq<char>) -> Seq<char> {
    match separator_from(body, 0) {
        Some(p) => body.take(p),
        None => body,
    }
}

/// The fallback a placeholder's body offers: what follows the first `:-`.
pub open spec fn fallback_of(body: Seq<char>) -> Option<Seq<char>> {
    match separator_from(body, 0) {
        Some(p) => Some(body.skip(p + 2)),
        None => None,
    }
}

/// What one placeholder with the given body resolves to.
pub open spec fn resolve_body(body: Seq<char>, env: Environment) -> Resolution {
    let name = name_of(body);
    match env.lookup(name) {
        None => Resolution::Missing(name, fallback_of(body)),
        Some(Datum::List(c)) => Resolution::Choice(name, c@),
        Some(Datum::Table(_)) => Resolution::Unsupported(name),
        Some(v) => Resolution::Done(scalar_text(v)->0),
    }
}

/// The substitution of the template from position `i` on: text outside
/// placeholders is kept, each placeholder is replaced by the text of its
/// scalar value, and the scan stops at the first placeholder that does not
/// resolve to a scalar. A `{{` with no `}}` after it is plain text.
pub open spec fn substitute_from(t: Seq<char>, i: int, env: Environment) -> Resolution
    decreases t.len() - i,
{
    if i < 0 || i >= t.len() {
        Resolution::Done(Seq::empty())
    } else if opens_at(t, i) && close_from(t, i + 2) is Some && i < close_from(t, i + 2)->0
        <= t.len() - 2 {
        let j = close_from(t, i + 2)->0;
        match resolve_body(t.subrange(i + 2, j), env) {
            Resolution::Done(s) => prepend(s, substitute_from(t, j + 2, env)),
            other => other,
        }
    } else {
        prepend(seq![t[i]], substitute_from(t, i + 1, env))
    }
}

/// The substitution of a whole template against an environment.
pub open spec fn substitution(t: Seq<char>, env: Environment) -> Resolution {
    substitute_from(t, 0, env)
}

/// The outcome of substituting a template.
pub enum Substitution<'a> {
    /// The fully substituted text.
    Resolved(String),
    /// No layer binds `name`; `fallback` is the placeholder's suggested default.
    ValueNotFound { name: String, fallback: Option<String> },
    /// `name` resolves to a list of candidates, one of which must be chosen.
    MultipleValuesFound { name: String, candidates: &'a Vec<Datum> },
    /// `name` resolves to a table, which cannot stand in a template.
    Unsupported { name: String },
}

impl<'a> Substitution<'a> {
    /// The outcome as a resolution over sequences.
    pub open spec fn resolution(&self) -> Resolution {
        match self {
            Substitution::Resolved(s) => Resolution::Done(s@),
            Substitution::ValueNotFound { name, fallback } => Resolution::Missing(
                name@,
                match fallback {
                    Some(f) => Some(f@),
                    None => None,
                },
            ),
            Substitution::MultipleValuesFound { name, candidates } => Resolution::Choice(
                name@,
                candidates@,
            ),
            Substitution::Unsupported { name } => Resolution::Unsupported(name@),
        }
    }
}

proof fn lemma_prepend_twice(a: Seq<char>, b: Seq<char>, r: Resolution)
    ensures
        prepend(a, prepend(b, r)) == prepend(a + b, r),
{
    if let Resolution::Done(s) = r {
        assert(a + (b + s) =~= (a + b) + s);
    }
}

proof fn lemma_close_from_bounds(t: Seq<char>, i: int)
    requires
        0 <= i,
    ensures
        match close_from(t, i) {
            Some(j) => i <= j && closes_at(t, j) && forall|k: int| i <= k < j ==> !closes_at(t, k),
            None => forall|k: int| i <= k ==> !closes_at(t, k),
        },
    decreases t.len() - i,
{
    if !(i < 0 || i + 1 >= t.len()) && !closes_at(t, i) {
        lemma_close_from_bounds(t, i + 1);
    }
}

proof fn lemma_separator_from_bounds(b: Seq<char>, i: int)
    ensures
        match separator_from(b, i) {
            Some(j) => i <= j && j + 1 < b.len(),
            None => true,
        },
    decreases b.len() - i,
{
    if !(i < 0 || i + 1 >= b.len()) && !(b[i] == ':' && b[i + 1] == '-') {
        lemma_separator_from_bounds(b, i + 1);
    }
}

/// The first position at or after `from` where a placeholder closes.
fn find_close(t: &str, n: usize, from: usize) -> (r: Option<usize>)
    requires
        n == t@.len(),
        from <= n,
    ensures
        match r {
            Some(j) => close_from(t@, from as int) == Some(j as int),
            None => close_from(t@, from as int) is None,
        },
{
    let mut i = from;
    while i < n && i + 1 < n
        invariant
            n == t@.len(),
            from <= i <= n,
            close_from(t@, from as int) == close_from(t@, i as int),
        decreases n - i,
    {
        if t.get_char(i) == '}' && t.get_char(i + 1) == '}' {
            return Some(i);
        }
        i = i + 1;
    }
    None
}

/// The first position at or after `from` where `:-` stands.
fn find_separator(b: &str, n: usize) -> (r: Option<usize>)
    requires
        n == b@.len(),
    ensures
        match r {
            Some(j) => separator_from(b@, 0) == Some(j as int),
            None => separator_from(b@, 0) is None,
        },
{
    let mut i: usize = 0;
    while i < n && i + 1 < n
        invariant
            i <= n,
            n == b@.len(),
            separator_from(b@, 0) == separator_from(b@, i as int),
        decreases n - i,
    {
        if b.get_char(i) == ':' && b.get_char(i + 1) == '-' {
            return Some(i);
        }
        i = i + 1;
    }
    None
}

/// What one placeholder with the given body resolves to; `Ok` holds the
/// replacement text of a scalar.
fn resolve_placeholder<'a>(body: &str, env: &'a Environment) -> (r: Result<String, Substitution<'a>>)
    ensures
        match r {
            Ok(s) => resolve_body(body@, *env) == Resolution::Done(s@),
            Err(e) => resolve_body(body@, *env) == e.resolution() && !(e is Resolved),
        },
{
    let n = body.unicode_len();
    let (name, fallback) = match find_separator(body, n) {
        Some(p) => {
            proof {
                lemma_separator_from_bounds(body@, 0);
            }
            let name = body.substring_char(0, p).to_owned();
            let fallback = body.substring_char(p + 2, n).to_owned();
            proof {
                assert(name@ =~= body@.take(p as int));
                assert(fallback@ =~= body@.skip(p + 2));
            }
            (name, Some(fallback))
        },
        None => (body.to_owned(), None),
    };
    match env.get(name.as_str()) {
        None => Err(Substitution::ValueNotFound { name, fallback }),
        Some(Datum::List(c)) => Err(Substitution::MultipleValuesFound { name, candidates: c }),
        Some(Datum::Table(_)) => Err(Substitution::Unsupported { name }),
        Some(Datum::Text(s)) => Ok(s.clone()),
        Some(Datum::Scalar(s)) => Ok(s.clone()),
    }
}

/// Substitutes every placeholder of the template from the environment,
/// stopping at the first one that does not resolve to a scalar.
pub fn substitute<'a>(template: &str, env: &'a Environment) -> (r: Substitution<'a>)
    ensures
        r.resolution() == substitution(template@, *env),
{
    let ghost t = template@;
    let n = template.unicode_len();
    let mut out = String::new();
    let mut i: usize = 0;
    proof {
        lemma_prepend_twice(Seq::empty(), Seq::empty(), substitute_from(t, 0, *env));
        assert(Seq::<char>::empty() + Seq::<char>::empty() =~= Seq::<char>::empty());
        if let Resolution::Done(s) = substitute_from(t, 0, *env) {
            assert(Seq::<char>::empty() + s =~= s);
        }
    }
    while i < n
        invariant
            n == t.len(),
            t == template@,
            i <= n,
            substitution(t, *env) == prepend(out@, substitute_from(t, i as int, *env)),
        decreases n - i,
    {
        let ghost before = out@;
        if i + 1 < n && template.get_char(i) == '{' && template.get_char(i + 1) == '{' {
            if let Some(j) = find_close(template, n, i + 2) {
                proof {
                    lemma_close_from_bounds(t, i + 2);
                }
                let body = template.substring_char(i + 2, j);
                match resolve_placeholder(body, env) {
                    Ok(s) => {
                        out.append(s.as_str());
                        proof {
                            lemma_prepend_twice(before, s@, substitute_from(t, j + 2, *env));
                        }
                        i = j + 2;
                    },
                    Err(e) => {
                        return e;
                    },
                }
                continue;
            }
        }
        let c = template.get_char(i);
        let cs = template.substring_char(i, i + 1);
        proof {
            assert(cs@ =~= seq![t[i as int]]);
            lemma_prepend_twice(before, seq![t[i as int]], substitute_from(t, i + 1, *env));
        }
        out.append(cs);
        i = i + 1;
    }
    proof {
        assert(out@ + Seq::<char>::empty() =~= out@);
    }
    Substitution::Resolved(out)
}

/// Whether a placeholder that the scan would take starts at `i`.
pub open spec fn placeholder_at(t: Seq<char>, i: int) -> bool {
    opens_at(t, i) && close_from(t, i + 2) is Some && i < close_from(t, i + 2)->0 <= t.len() - 2
}

/// The body of the placeholder starting at `i`.
pub open spec fn body_at(t: Seq<char>, i: int) -> Seq<char> {
    t.subrange(i + 2, close_from(t, i + 2)->0)
}

/// The position of the first placeholder at or after `i`.
pub open spec fn first_placeholder(t: Seq<char>, i: int) -> Option<int>
    decreases t.len() - i,
{
    if i < 0 || i >= t.len() {
        None
    } else if placeholder_at(t, i) {
        Some(i)
    } else {
        first_placeholder(t, i + 1)
    }
}

/// Up to the first placeholder the text is kept as it stands; from there on
/// that placeholder decides.
proof fn lemma_scan_to_first(t: Seq<char>, i: int, env: Environment)
    requires
        0 <= i <= t.len(),
    ensures
        match first_placeholder(t, i) {
            None => substitute_from(t, i, env) == Resolution::Done(t.skip(i)),
            Some(k) => i <= k && placeholder_at(t, k) && substitute_from(t, i, env) == prepend(
                t.subrange(i, k),
                substitute_from(t, k, env),
            ),
        },
    decreases t.len() - i,
{
    if i == t.len() {
        assert(t.skip(i) =~= Seq::<char>::empty());
    } else if placeholder_at(t, i) {
        assert(t.subrange(i, i) + Seq::<char>::empty() =~= Seq::<char>::empty());
        if let Resolution::Done(s) = substitute_from(t, i, env) {
            assert(t.subrange(i, i) + s =~= s);
        }
    } else {
        lemma_scan_to_first(t, i + 1, env);
        match first_placeholder(t, i + 1) {
            None => {
                assert(seq![t[i]] + t.skip(i + 1) =~= t.skip(i));
            },
            Some(k) => {
                lemma_prepend_twice(seq![t[i]], t.subrange(i + 1, k), substitute_from(t, k, env));
                assert(seq![t[i]] + t.subrange(i + 1, k) =~= t.subrange(i, k));
            },
        }
    }
}

/// A template without placeholders comes back unchanged, whatever the
/// environment holds.
pub proof fn lemma_no_placeholder_unchanged(t: Seq<char>, env: Environment)
    requires
        first_placeholder(t, 0) is None,
    ensures
        substitution(t, env) == Resolution::Done(t),
{
    lemma_scan_to_first(t, 0, env);
    assert(t.skip(0) =~= t);
}

/// A template in which no `{{` stands has no placeholder.
pub proof fn lemma_no_opening_no_placeholder(t: Seq<char>, i: int)
    requires
        0 <= i,
        forall|k: int| 0 <= k < t.len() ==> !opens_at(t, k),
    ensures
        first_placeholder(t, i) is None,
    decreases t.len() - i,
{
    if i < t.len() {
        lemma_no_opening_no_placeholder(t, i + 1);
    }
}

/// A name that no layer binds, at the first placeholder, ends the substitution
/// with `Missing`, carrying the placeholder's inline fallback and no text.
pub proof fn lemma_first_missing(t: Seq<char>, env: Environment, k: int)
    requires
        first_placeholder(t, 0) == Some(k),
        env.lookup(name_of(body_at(t, k))) is None,
    ensures
        substitution(t, env) == Resolution::Missing(
            name_of(body_at(t, k)),
            fallback_of(body_at(t, k)),
        ),
{
    lemma_scan_to_first(t, 0, env);
}

/// A name bound to a list, at the first placeholder, ends the substitution
/// with `Choice`, listing exactly that list's candidates in their order.
pub proof fn lemma_first_choice(t: Seq<char>, env: Environment, k: int, c: Vec<Datum>)
    requires
        first_placeholder(t, 0) == Some(k),
        env.lookup(name_of(body_at(t, k))) == Some(Datum::List(c)),
    ensures
        substitution(t, env) == Resolution::Choice(name_of(body_at(t, k)), c@),
{
    lemma_scan_to_first(t, 0, env);
}

/// A substitution ends with `Missing` only on a name that no layer binds, and
/// with `Choice` only on a name bound to a list of exactly those candidates.
pub proof fn lemma_failures_are_sound(t: Seq<char>, i: int, env: Environment)
    ensures
        substitute_from(t, i, env) is Missing ==> env.lookup(
            substitute_from(t, i, env)->Missing_0,
        ) is None,
        substitute_from(t, i, env) is Choice ==> exists|c: Vec<Datum>|
            env.lookup(substitute_from(t, i, env)->Choice_0) == Some(Datum::List(c)) && c@
                == substitute_from(t, i, env)->Choice_1,
    decreases t.len() - i,
{
    if i < 0 || i >= t.len() {
    } else if placeholder_at(t, i) {
        let j = close_from(t, i + 2)->0;
        lemma_failures_are_sound(t, j + 2, env);
        let body = t.subrange(i + 2, j);
        if let Some(Datum::List(c)) = env.lookup(name_of(body)) {
            assert(env.lookup(substitute_from(t, i, env)->Choice_0) == Some(Datum::List(c)));
        }
    } else {
        lemma_failures_are_sound(t, i + 1, env);
    }
}

/// The template that is one placeholder naming `k`.
pub open spec fn lone_placeholder(k: Seq<char>) -> Seq<char> {
    seq!['{', '{'] + k + seq!['}', '}']
}

/// A template that is one placeholder, whose name holds neither `}` nor `:`,
/// resolves exactly as that name does.
pub proof fn lemma_lone_placeholder(k: Seq<char>, env: Environment)
    requires
        forall|i: int| 0 <= i < k.len() ==> k[i] != '}' && k[i] != ':',
    ensures
        substitution(lone_placeholder(k), env) == resolve_body(k, env),
        name_of(k) == k,
        fallback_of(k) is None,
{
    let t = lone_placeholder(k);
    let n = k.len() as int;
    assert forall|i: int| 2 <= i < n + 2 implies !closes_at(t, i) by {
        assert(t[i] == k[i - 2]);
    }
    lemma_close_scan(t, 2, n + 2);
    assert(t.subrange(2, n + 2) =~= k);
    assert(placeholder_at(t, 0));
    lemma_no_separator(k, 0);
    assert(substitute_from(t, n + 4, env) == Resolution::Done(Seq::empty()));
    if let Resolution::Done(s) = resolve_body(k, env) {
        assert(s + Seq::<char>::empty() =~= s);
    }
}

proof fn lemma_close_scan(t: Seq<char>, i: int, j: int)
    requires
        0 <= i <= j,
        closes_at(t, j),
        forall|k: int| i <= k < j ==> !closes_at(t, k),
    ensures
        close_from(t, i) == Some(j),
    decreases j - i,
{
    if i < j {
        lemma_close_scan(t, i + 1, j);
    }
}

proof fn lemma_no_separator(k: Seq<char>, i: int)
    requires
        0 <= i,
        forall|q: int| 0 <= q < k.len() ==> k[q] != ':',
    ensures
        separator_from(k, i) is None,
    decreases k.len() - i,
{
    if i + 1 < k.len() {
        lemma_no_separator(k, i + 1);
    }
}

/// A key bound by an explicit override resolves to the override's text,
/// whatever the persisted data, target and global layers bind it to.
pub proof fn lemma_override_substitutes(k: Seq<char>, v: String, env: Environment)
    requires
        env.overrides@.contains_key(k),
        env.overrides@[k] == Datum::Text(v),
        forall|i: int| 0 <= i < k.len() ==> k[i] != '}' && k[i] != ':',
    ensures
        substitution(lone_placeholder(k), env) == Resolution::Done(v@),
{
    crate::env::lemma_override_wins(env, k);
    lemma_lone_placeholder(k, env);
}

} // verus!
