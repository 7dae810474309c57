use vstd::prelude::*;

use crate::env::{Environment, Layer};
use crate::substitute::{substitute, substitution, Resolution, Substitution};
use crate::value::{choice_of, same_text, Datum};

verus! {

/// The bindings of a list of explicit overrides, the last of a key winning.
pub open spec fn overrides_of(o: Seq<(String, String)>) -> Map<Seq<char>, Datum>
    decreases o.len(),
{
    if o.len() == 0 {
        Map::empty()
    } else {
        overrides_of(o.drop_last()).insert(o.last().0@, Datum::Text(o.last().1))
    }
}

/// Whether `n` is among the names already answered in a session.
pub open spec fn was_asked(asked: Seq<String>, n: Seq<char>) -> bool {
    exists|i: int| 0 <= i < asked.len() && asked[i]@ == n
}

/// The name a failed resolution asks about, if it asks for an answer.
pub open spec fn asks_for(r: Resolution) -> Option<Seq<char>> {
    match r {
        Resolution::Missing(n, _) => Some(n),
        Resolution::Choice(n, _) => Some(n),
        _ => None,
    }
}

/// What a resolution session does next.
pub enum Step<'a> {
    /// The request text is complete.
    Ready(String),
    /// Ask for a value of `name`, suggesting `fallback`.
    AskValue { name: String, fallback: Option<String> },
    /// Ask for a choice among the candidates bound to `name`.
    AskChoice { name: String, candidates: &'a Vec<Datum> },
    /// `name` is bound to a table, which cannot stand in a template.
    Unsupported { name: String },
    /// `name` was answered already and still fails: a defect, not a question.
    Repeated { name: String },
}

impl<'a> Step<'a> {
    /// The step as a resolution, for the steps that are one.
    pub open spec fn resolution(&self) -> Resolution {
        match self {
            Step::Ready(s) => Resolution::Done(s@),
            Step::AskValue { name, fallback } => Resolution::Missing(
                name@,
                match fallback {
                    Some(f) => Some(f@),
                    None => None,
                },
            ),
            Step::AskChoice { name, candidates } => Resolution::Choice(name@, candidates@),
            Step::Unsupported { name } => Resolution::Unsupported(name@),
            Step::Repeated { name } => Resolution::Unsupported(name@),
        }
    }
}

/// One resolution of a template: explicit overrides gathered one answer at a
/// time, each name answered at most once.
pub struct Session {
    pub asked: Vec<String>,
}

impl Environment {
    /// Starts a resolution session: the overrides become exactly the given
    /// pairs; the other layers stay.
    pub fn start_session(&mut self, overrides: &Vec<(String, String)>)
        ensures
            final(self).overrides@ == overrides_of(overrides@),
            final(self).data == old(self).data,
            final(self).target == old(self).target,
            final(self).global == old(self).global,
    {
        self.overrides = Layer::new();
        let mut i: usize = 0;
        while i < overrides.len()
            invariant
                i <= overrides@.len(),
                self.overrides@ == overrides_of(overrides@.take(i as int)),
                self.data == old(self).data,
                self.target == old(self).target,
                self.global == old(self).global,
            decreases overrides.len() - i,
        {
            assert(overrides@.take(i + 1).drop_last() =~= overrides@.take(i as int));
            self.add_override(overrides[i].0.clone(), overrides[i].1.clone());
            i = i + 1;
        }
        assert(overrides@.take(overrides@.len() as int) =~= overrides@);
    }
}

fn contains_name(asked: &Vec<String>, n: &str) -> (r: bool)
    ensures
        r == was_asked(asked@, n@),
{
    let mut i: usize = 0;
    while i < asked.len()
        invariant
            i <= asked@.len(),
            forall|j: int| 0 <= j < i ==> asked@[j]@ != n@,
        decreases asked.len() - i,
    {
        if same_text(asked[i].as_str(), n) {
            return true;
        }
        i = i + 1;
    }
    false
}

impl Session {
    /// A session in which nothing has been answered yet.
    pub fn new() -> (r: Session)
        ensures
            r.asked@.len() == 0,
    {
        Session { asked: Vec::new() }
    }

    /// Substitutes the template and says what to do next: send the finished
    /// text, ask about the failing name, or stop on a name that cannot be
    /// answered or was answered already.
    pub fn step<'a>(&self, template: &str, env: &'a Environment) -> (r: Step<'a>)
        ensures
            match asks_for(substitution(template@, *env)) {
                Some(n) => if was_asked(self.asked@, n) {
                    r is Repeated && r->Repeated_name@ == n
                } else {
                    r.resolution() == substitution(template@, *env) && !(r is Repeated)
                },
                None => r.resolution() == substitution(template@, *env) && !(r is Repeated),
            },
    {
        match substitute(template, env) {
            Substitution::Resolved(s) => Step::Ready(s),
            Substitution::ValueNotFound { name, fallback } => {
                if contains_name(&self.asked, name.as_str()) {
                    Step::Repeated { name }
                } else {
                    Step::AskValue { name, fallback }
                }
            },
            Substitution::MultipleValuesFound { name, candidates } => {
                if contains_name(&self.asked, name.as_str()) {
                    Step::Repeated { name }
                } else {
                    Step::AskChoice { name, candidates }
                }
            },
            Substitution::Unsupported { name } => Step::Unsupported { name },
        }
    }

    /// Records the answer `value` for `name` as an explicit override.
    pub fn supply(&mut self, env: &mut Environment, name: String, value: String)
        ensures
            final(env).overrides@ == old(env).overrides@.insert(name@, Datum::Text(value)),
            final(env).data == old(env).data,
            final(env).target == old(env).target,
            final(env).global == old(env).global,
            final(self).asked@ == old(self).asked@.push(name),
    {
        self.asked.push(name.clone());
        env.add_override(name, value);
    }

    /// Records the chosen candidate for `name`; fails, changing nothing, where
    /// the candidate offers no replacement text.
    pub fn pick(&mut self, env: &mut Environment, name: String, candidate: &Datum) -> (r: bool)
        ensures
            r == (choice_of(*candidate) is Some),
            r ==> exists|s: String|
                s@ == choice_of(*candidate)->0 && final(env).overrides@ == old(
                    env,
                ).overrides@.insert(name@, Datum::Text(s)),
            !r ==> *final(env) == *old(env) && *final(self) == *old(self),
            final(env).data == old(env).data,
            final(env).target == old(env).target,
            final(env).global == old(env).global,
    {
        match candidate.choice() {
            Some(v) => {
                self.supply(env, name, v);
                true
            },
            None => false,
        }
    }
}

} // verus!
