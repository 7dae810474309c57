use vstd::prelude::*;

verus! {

/// A configuration or response value, as the resolution engine sees it.
///
/// Documents are decoded elsewhere; this type keeps only what resolution
/// reads: plain text, other scalars in their textual form, lists of
/// alternatives and tables of named fields.
#[derive(Debug, PartialEq, Eq)]
pub enum Datum {
    /// A string scalar.
    Text(String),
    /// A non-string scalar (number, boolean, date), already rendered as text.
    Scalar(String),
    /// A list of alternatives; a placeholder bound to one asks for a choice.
    List(Vec<Datum>),
    /// A table of named fields, in document order.
    Table(Vec<(String, Datum)>),
}

/// The text a scalar stands for, or `None` for a list or a table.
pub open spec fn scalar_text(v: Datum) -> Option<Seq<char>> {
    match v {
        Datum::Text(s) => Some(s@),
        Datum::Scalar(s) => Some(s@),
        _ => None,
    }
}

/// The value of the first field named `k` of a table's fields.
pub open spec fn field_of(fields: Seq<(String, Datum)>, k: Seq<char>) -> Option<Datum>
    decreases fields.len(),
{
    if fields.len() == 0 {
        None
    } else if fields[0].0@ == k {
        Some(fields[0].1)
    } else {
        field_of(fields.drop_first(), k)
    }
}

/// The label under which a candidate is offered for choice: the text of a
/// table's scalar `name` field, or the text of a scalar candidate. `None`
/// where the candidate has no such plain label.
pub open spec fn label_of(v: Datum) -> Option<Seq<char>> {
    match v {
        Datum::Table(fields) => match field_of(fields@, seq!['n', 'a', 'm', 'e']) {
            Some(n) => scalar_text(n),
            None => None,
        },
        _ => scalar_text(v),
    }
}

/// The replacement text a chosen candidate stands for: the text of a table's
/// scalar `value` field, or the text of a scalar candidate. `None` where the
/// candidate offers no such text.
pub open spec fn choice_of(v: Datum) -> Option<Seq<char>> {
    match v {
        Datum::Table(fields) => match field_of(fields@, seq!['v', 'a', 'l', 'u', 'e']) {
            Some(x) => scalar_text(x),
            None => None,
        },
        _ => scalar_text(v),
    }
}

/// Whether two strings hold the same characters.
pub fn same_text(a: &str, b: &str) -> (r: bool)
    ensures
        r == (a@ == b@),
{
    let n = a.unicode_len();
    if n != b.unicode_len() {
        return false;
    }
    let mut i: usize = 0;
    while i < n
        invariant
            n == a@.len(),
            n == b@.len(),
            i <= n,
            forall|j: int| 0 <= j < i ==> a@[j] == b@[j],
        decreases n - i,
    {
        if a.get_char(i) != b.get_char(i) {
            return false;
        }
        i = i + 1;
    }
    assert(a@ =~= b@);
    true
}

/// Looks up the first field of a table with the given name.
pub fn field<'a>(fields: &'a Vec<(String, Datum)>, k: &str) -> (r: Option<&'a Datum>)
    ensures
        match r {
            Some(v) => field_of(fields@, k@) == Some(*v),
            None => field_of(fields@, k@) is None,
        },
{
    let mut i: usize = 0;
    assert(fields@.subrange(0, fields@.len() as int) =~= fields@);
    while i < fields.len()
        invariant
            i <= fields@.len(),
            field_of(fields@, k@) == field_of(fields@.subrange(i as int, fields@.len() as int), k@),
        decreases fields.len() - i,
    {
        let ghost rest = fields@.subrange(i as int, fields@.len() as int);
        assert(rest.drop_first() =~= fields@.subrange(i + 1, fields@.len() as int));
        if same_text(fields[i].0.as_str(), k) {
            return Some(&fields[i].1);
        }
        i = i + 1;
    }
    None
}

/// The text of a scalar value, or `None` for a list or a table.
pub fn text_of(v: &Datum) -> (r: Option<String>)
    ensures
        match r {
            Some(s) => scalar_text(*v) == Some(s@),
            None => scalar_text(*v) is None,
        },
{
    match v {
        Datum::Text(s) => Some(s.clone()),
        Datum::Scalar(s) => Some(s.clone()),
        _ => None,
    }
}

impl Datum {
    /// The label under which this value is offered as a candidate, where it
    /// has a plain one.
    pub fn label(&self) -> (r: Option<String>)
        ensures
            match r {
                Some(s) => label_of(*self) == Some(s@),
                None => label_of(*self) is None,
            },
    {
        proof {
            reveal_strlit("name");
        }
        assert("name"@ =~= seq!['n', 'a', 'm', 'e']);
        match self {
            Datum::Table(fields) => match field(fields, "name") {
                Some(n) => text_of(n),
                None => None,
            },
            _ => text_of(self),
        }
    }

    /// The replacement text this value stands for once chosen among
    /// candidates, where it offers one.
    pub fn choice(&self) -> (r: Option<String>)
        ensures
            match r {
                Some(s) => choice_of(*self) == Some(s@),
                None => choice_of(*self) is None,
            },
    {
        proof {
            reveal_strlit("value");
        }
        assert("value"@ =~= seq!['v', 'a', 'l', 'u', 'e']);
        match self {
            Datum::Table(fields) => match field(fields, "value") {
                Some(x) => text_of(x),
                None => None,
            },
            _ => text_of(self),
        }
    }
}

} // verus!
