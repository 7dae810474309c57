use vstd::prelude::*;

use crate::env::{written, Environment};
use crate::substitute::{lemma_lone_placeholder, lone_placeholder, substitution, Resolution};
use crate::value::{field, field_of, Datum};

verus! {

/// One step of a path into a decoded response body.
pub enum PathStep {
    /// The field of a table with this name.
    Field(String),
    /// The item of a list at this index.
    Index(usize),
}

/// A declared association of a path into the response body with the variable
/// that receives what stands there.
pub struct ExtractionRule {
    pub name: String,
    pub path: Vec<PathStep>,
}

/// What stands at `path` in `v`, if the path leads anywhere.
pub open spec fn value_at(v: Datum, path: Seq<PathStep>) -> Option<Datum>
    decreases path.len(),
{
    if path.len() == 0 {
        Some(v)
    } else {
        let inner = match path[0] {
            PathStep::Field(k) => match v {
                Datum::Table(fields) => field_of(fields@, k@),
                _ => None,
            },
            PathStep::Index(i) => match v {
                Datum::List(items) => if i < items@.len() {
                    Some(items@[i as int])
                } else {
                    None
                },
                _ => None,
            },
        };
        match inner {
            Some(w) => value_at(w, path.drop_first()),
            None => None,
        }
    }
}

/// The pairs the rules extract from a body: for each rule, in order, its
/// variable with the scalar its path leads to. A rule whose path leads
/// nowhere, or to a list or a table, gives nothing.
pub open spec fn extracted(body: Datum, rules: Seq<ExtractionRule>) -> Seq<(Seq<char>, Datum)>
    decreases rules.len(),
{
    if rules.len() == 0 {
        Seq::empty()
    } else {
        let rest = extracted(body, rules.drop_last());
        match value_at(body, rules.last().path@) {
            Some(Datum::Text(s)) => rest.push((rules.last().name@, Datum::Text(s))),
            Some(Datum::Scalar(s)) => rest.push((rules.last().name@, Datum::Scalar(s))),
            _ => rest,
        }
    }
}

/// The pairs as sequences of characters and values.
pub open spec fn pairs_view(pairs: Seq<(String, Datum)>) -> Seq<(Seq<char>, Datum)> {
    pairs.map_values(|p: (String, Datum)| (p.0@, p.1))
}

/// Follows a path into a body.
pub fn follow<'a>(body: &'a Datum, path: &Vec<PathStep>) -> (r: Option<&'a Datum>)
    ensures
        match r {
            Some(v) => value_at(*body, path@) == Some(*v),
            None => value_at(*body, path@) is None,
        },
{
    let mut cur = body;
    let mut i: usize = 0;
    assert(path@.skip(0) =~= path@);
    while i < path.len()
        invariant
            i <= path@.len(),
            value_at(*body, path@) == value_at(*cur, path@.skip(i as int)),
        decreases path.len() - i,
    {
        let ghost rest = path@.skip(i as int);
        assert(rest.drop_first() =~= path@.skip(i + 1));
        let next = match &path[i] {
            PathStep::Field(k) => match cur {
                Datum::Table(fields) => field(fields, k.as_str()),
                _ => None,
            },
            PathStep::Index(j) => match cur {
                Datum::List(items) => if *j < items.len() {
                    Some(&items[*j])
                } else {
                    None
                },
                _ => None,
            },
        };
        match next {
            Some(w) => {
                cur = w;
            },
            None => {
                return None;
            },
        }
        i = i + 1;
    }
    assert(path@.skip(i as int) =~= Seq::<PathStep>::empty());
    Some(cur)
}

/// Applies each rule to the body, skipping those that find no scalar.
pub fn extract(body: &Datum, rules: &Vec<ExtractionRule>) -> (r: Vec<(String, Datum)>)
    ensures
        pairs_view(r@) == extracted(*body, rules@),
{
    let mut out: Vec<(String, Datum)> = Vec::new();
    let mut i: usize = 0;
    while i < rules.len()
        invariant
            i <= rules@.len(),
            pairs_view(out@) == extracted(*body, rules@.take(i as int)),
        decreases rules.len() - i,
    {
        let ghost before = out@;
        assert(rules@.take(i + 1).drop_last() =~= rules@.take(i as int));
        let rule = &rules[i];
        match follow(body, &rule.path) {
            Some(Datum::Text(s)) => {
                out.push((rule.name.clone(), Datum::Text(s.clone())));
            },
            Some(Datum::Scalar(s)) => {
                out.push((rule.name.clone(), Datum::Scalar(s.clone())));
            },
            _ => {},
        }
        assert(pairs_view(out@) =~= extracted(*body, rules@.take(i + 1)));
        i = i + 1;
    }
    assert(rules@.take(rules@.len() as int) =~= rules@);
    out
}

/// Extracts variables from a response body and persists them into the
/// environment's data layer.
pub fn extract_into(env: &mut Environment, body: &Datum, rules: &Vec<ExtractionRule>)
    ensures
        exists|pairs: Seq<(String, Datum)>|
            pairs_view(pairs) == extracted(*body, rules@) && final(env).data@ == written(
                old(env).data@,
                pairs,
            ),
        final(env).overrides == old(env).overrides,
        final(env).target == old(env).target,
        final(env).global == old(env).global,
{
    let pairs = extract(body, rules);
    let ghost p = pairs@;
    env.persist(pairs);
    assert(pairs_view(p) == extracted(*body, rules@));
}

/// A text value persisted under `k` (the last write of `k`) makes a template
/// that is the one placeholder `{{k}}` resolve to that text, in any later
/// environment whose overrides leave `k` alone.
pub proof fn lemma_persisted_value_resolves(
    m: Map<Seq<char>, Datum>,
    pairs: Seq<(String, Datum)>,
    k: Seq<char>,
    v: String,
    env: Environment,
)
    requires
        pairs.len() > 0,
        pairs.last().0@ == k,
        pairs.last().1 == Datum::Text(v),
        env.data@ == written(m, pairs),
        !env.overrides@.contains_key(k),
        forall|i: int| 0 <= i < k.len() ==> k[i] != '}' && k[i] != ':',
    ensures
        substitution(lone_placeholder(k), env) == Resolution::Done(v@),
{
    lemma_lone_placeholder(k, env);
}

/// A step of a path, over sequences.
pub enum StepModel {
    Field(Seq<char>),
    Index(nat),
}

impl PathStep {
    pub open spec fn model(&self) -> StepModel {
        match self {
            PathStep::Field(k) => StepModel::Field(k@),
            PathStep::Index(i) => StepModel::Index(*i as nat),
        }
    }
}

/// Whether every character of `s` is a decimal digit.
pub open spec fn all_digits(s: Seq<char>) -> bool {
    forall|i: int| 0 <= i < s.len() ==> '0' <= #[trigger] s[i] <= '9'
}

/// The number a run of decimal digits writes.
pub open spec fn decimal(s: Seq<char>) -> nat
    decreases s.len(),
{
    if s.len() == 0 {
        0
    } else {
        decimal(s.drop_last()) * 10 + (s.last() as nat - '0' as nat) as nat
    }
}

/// The step a segment of a path names: an index where it is all digits (and
/// the number fits in a `usize`), else a field. An empty segment names none.
pub open spec fn segment_step(seg: Seq<char>) -> Option<StepModel> {
    if seg.len() == 0 {
        None
    } else if all_digits(seg) {
        if decimal(seg) <= usize::MAX {
            Some(StepModel::Index(decimal(seg)))
        } else {
            None
        }
    } else {
        Some(StepModel::Field(seg))
    }
}

/// `p` put in front of a parsed path; a failure stays a failure.
pub open spec fn glue(p: Seq<StepModel>, r: Option<Seq<StepModel>>) -> Option<Seq<StepModel>> {
    match r {
        Some(q) => Some(p + q),
        None => None,
    }
}

/// The steps of `s` from position `i` on, the segment being read so far
/// being `cur`: segments are separated by `.`.
pub open spec fn steps_from(s: Seq<char>, i: int, cur: Seq<char>) -> Option<Seq<StepModel>>
    decreases s.len() - i,
{
    if i < 0 || i >= s.len() {
        match segment_step(cur) {
            Some(st) => Some(seq![st]),
            None => None,
        }
    } else if s[i] == '.' {
        match segment_step(cur) {
            Some(st) => glue(seq![st], steps_from(s, i + 1, Seq::empty())),
            None => None,
        }
    } else {
        steps_from(s, i + 1, cur.push(s[i]))
    }
}

/// Where the segments of a path start: after a leading `$.` or `$`, if any.
pub open spec fn path_start(s: Seq<char>) -> int {
    if s.len() >= 2 && s[0] == '$' && s[1] == '.' {
        2
    } else if s.len() >= 1 && s[0] == '$' {
        1
    } else {
        0
    }
}

/// The steps a path written as text names, as in `$.data.0.id`: an optional
/// leading `$` or `$.`, then segments separated by `.`, each an index where
/// it is all digits, else a field name. `None` for an empty segment or an
/// index too large.
pub open spec fn path_steps(s: Seq<char>) -> Option<Seq<StepModel>> {
    if path_start(s) == 1 && s.len() == 1 {
        Some(Seq::empty())
    } else {
        steps_from(s, path_start(s), Seq::empty())
    }
}

proof fn lemma_glue_twice(a: Seq<StepModel>, b: Seq<StepModel>, r: Option<Seq<StepModel>>)
    ensures
        glue(a, glue(b, r)) == glue(a + b, r),
{
    if let Some(q) = r {
        assert(a + (b + q) =~= (a + b) + q);
    }
}

fn digit_value(c: char) -> (r: usize)
    requires
        '0' <= c <= '9',
    ensures
        r as nat == c as nat - '0' as nat,
        r <= 9,
{
    (c as u32 - '0' as u32) as usize
}

/// The step a segment names.
fn parse_segment(seg: &str) -> (r: Option<PathStep>)
    ensures
        match r {
            Some(st) => segment_step(seg@) == Some(st.model()),
            None => segment_step(seg@) is None,
        },
{
    let n = seg.unicode_len();
    if n == 0 {
        return None;
    }
    let mut i: usize = 0;
    let mut digits = true;
    let mut value: usize = 0;
    let mut fits = true;
    while i < n
        invariant
            n == seg@.len(),
            i <= n,
            digits == all_digits(seg@.take(i as int)),
            digits && fits ==> value as nat == decimal(seg@.take(i as int)),
            digits && !fits ==> decimal(seg@.take(i as int)) > usize::MAX,
        decreases n - i,
    {
        let c = seg.get_char(i);
        let ghost pre = seg@.take(i as int);
        assert(seg@.take(i + 1).drop_last() =~= pre);
        assert(seg@.take(i + 1).last() == c);
        if '0' <= c && c <= '9' {
            let d = digit_value(c);
            if digits && fits {
                if value > (usize::MAX - d) / 10 {
                    fits = false;
                    assert(decimal(seg@.take(i + 1)) > usize::MAX) by (nonlinear_arith)
                        requires
                            value > (usize::MAX - d) / 10,
                            decimal(seg@.take(i + 1)) == value * 10 + d,
                            d <= 9,
                    ;
                } else {
                    assert(value * 10 + d <= usize::MAX) by (nonlinear_arith)
                        requires
                            value <= (usize::MAX - d) / 10,
                            d <= 9,
                    ;
                    value = value * 10 + d;
                }
            } else if digits {
                assert(decimal(seg@.take(i + 1)) >= decimal(pre)) by (nonlinear_arith)
                    requires
                        decimal(seg@.take(i + 1)) == decimal(pre) * 10 + d,
                ;
            }
        } else {
            digits = false;
        }
        assert(digits ==> all_digits(seg@.take(i + 1)));
        assert(!digits ==> !all_digits(seg@.take(i + 1)));
        i = i + 1;
    }
    assert(seg@.take(n as int) =~= seg@);
    if digits {
        if fits {
            Some(PathStep::Index(value))
        } else {
            None
        }
    } else {
        Some(PathStep::Field(seg.to_owned()))
    }
}

/// The steps of a path written as text; see `path_steps`.
pub fn parse_path(s: &str) -> (r: Option<Vec<PathStep>>)
    ensures
        match r {
            Some(steps) => path_steps(s@) == Some(steps@.map_values(|st: PathStep| st.model())),
            None => path_steps(s@) is None,
        },
{
    let n = s.unicode_len();
    let ghost t = s@;
    let start: usize = if n >= 2 && s.get_char(0) == '$' && s.get_char(1) == '.' {
        2
    } else if n >= 1 && s.get_char(0) == '$' {
        1
    } else {
        0
    };
    let mut out: Vec<PathStep> = Vec::new();
    if start == 1 && n == 1 {
        assert(out@.map_values(|st: PathStep| st.model()) =~= Seq::<StepModel>::empty());
        return Some(out);
    }
    let mut seg_start = start;
    let mut i = start;
    proof {
        assert(t.subrange(start as int, start as int) =~= Seq::<char>::empty());
        lemma_glue_twice(Seq::empty(), Seq::empty(), steps_from(t, start as int, Seq::empty()));
        if let Some(q) = steps_from(t, start as int, Seq::empty()) {
            assert(Seq::<StepModel>::empty() + q =~= q);
        }
    }
    while i < n
        invariant
            n == t.len(),
            t == s@,
            start == path_start(t),
            !(start == 1 && n == 1),
            start <= seg_start <= i <= n,
            path_steps(t) == glue(
                out@.map_values(|st: PathStep| st.model()),
                steps_from(t, i as int, t.subrange(seg_start as int, i as int)),
            ),
        decreases n - i,
    {
        let ghost cur = t.subrange(seg_start as int, i as int);
        if s.get_char(i) == '.' {
            let seg = s.substring_char(seg_start, i);
            match parse_segment(seg) {
                Some(st) => {
                    let ghost before = out@.map_values(|x: PathStep| x.model());
                    out.push(st);
                    proof {
                        lemma_glue_twice(before, seq![st.model()], steps_from(t, i + 1, Seq::empty()));
                        assert(out@.map_values(|x: PathStep| x.model()) =~= before + seq![st.model()]);
                        assert(t.subrange(i + 1, i + 1) =~= Seq::<char>::empty());
                    }
                    seg_start = i + 1;
                },
                None => {
                    return None;
                },
            }
        } else {
            assert(t.subrange(seg_start as int, i + 1) =~= cur.push(t[i as int]));
        }
        i = i + 1;
    }
    let seg = s.substring_char(seg_start, n);
    match parse_segment(seg) {
        Some(st) => {
            let ghost before = out@.map_values(|x: PathStep| x.model());
            out.push(st);
            assert(out@.map_values(|x: PathStep| x.model()) =~= before + seq![st.model()]);
            Some(out)
        },
        None => None,
    }
}

} // verus!
