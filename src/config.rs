use vstd::prelude::*;

use crate::env::{Environment, Layer};
use crate::extract::{extract_into, pairs_view, ExtractionRule};
use crate::value::{same_text, Datum};

verus! {

#[verifier::external_type_specification]
#[verifier::external_body]
pub struct ExTomlValue(toml::Value);

#[verifier::external_type_specification]
#[verifier::external_body]
pub struct ExJsonValue(serde_json::Value);

/// The top-level entries of a TOML document, in the order the parser gives
/// them, or `None` for malformed text.
pub uninterp spec fn toml_entries(text: Seq<char>) -> Option<Seq<(Seq<char>, Datum)>>;

/// The value a JSON text decodes to, or `None` where it does not decode.
pub uninterp spec fn json_value(text: Seq<char>) -> Option<Datum>;

/// Converts a parsed TOML value: strings stay text, arrays become lists,
/// tables become tables, other scalars keep their TOML text.
#[verifier::external_body]
fn from_toml(v: toml::Value) -> Datum {
    match v {
        toml::Value::String(s) => Datum::Text(s),
        toml::Value::Array(items) => Datum::List(items.into_iter().map(from_toml).collect()),
        toml::Value::Table(t) => Datum::Table(t.into_iter().map(|(k, x)| (k, from_toml(x))).collect()),
        other => Datum::Scalar(other.to_string()),
    }
}

/// Converts a decoded JSON value: strings stay text, arrays become lists,
/// objects become tables, other scalars keep their JSON text.
#[verifier::external_body]
fn from_json(v: serde_json::Value) -> Datum {
    match v {
        serde_json::Value::String(s) => Datum::Text(s),
        serde_json::Value::Array(items) => Datum::List(items.into_iter().map(from_json).collect()),
        serde_json::Value::Object(m) => Datum::Table(m.into_iter().map(|(k, x)| (k, from_json(x))).collect()),
        other => Datum::Scalar(other.to_string()),
    }
}

/// Relies on `toml::Table`'s `FromStr` (`toml::from_str`): parses a whole
/// document, or fails on malformed text.
#[verifier::external_body]
fn parse_toml(text: &str) -> (r: Option<Vec<(String, Datum)>>)
    ensures
        match r {
            Some(e) => toml_entries(text@) == Some(pairs_view(e@)),
            None => toml_entries(text@) is None,
        },
{
    let table = text.parse::<toml::Table>().ok()?;
    Some(table.into_iter().map(|(k, v)| (k, from_toml(v))).collect())
}

/// Relies on `serde_json::from_str`: decodes a JSON text, or fails where it
/// is not JSON.
#[verifier::external_body]
fn parse_json(text: &str) -> (r: Option<Datum>)
    ensures
        r == json_value(text@),
{
    serde_json::from_str::<serde_json::Value>(text).ok().map(from_json)
}

/// Which configuration file was malformed.
pub enum ConfigError {
    MalformedConfig,
    MalformedData,
}

/// Whether a top-level entry of the configuration names a target: a table
/// whose name does not start with `_` (those are reserved, like `_extract`).
pub open spec fn is_target_entry(k: Seq<char>, v: Datum) -> bool {
    v is Table && !(k.len() > 0 && k[0] == '_')
}

/// The global layer of a configuration: its entries that name no target.
pub open spec fn global_part(doc: Seq<(String, Datum)>) -> Seq<(String, Datum)>
    decreases doc.len(),
{
    if doc.len() == 0 {
        Seq::empty()
    } else {
        let r = global_part(doc.drop_last());
        if is_target_entry(doc.last().0@, doc.last().1) {
            r
        } else {
            r.push(doc.last())
        }
    }
}

/// The fields of the first target entry named `name`, if any.
pub open spec fn target_part(doc: Seq<(String, Datum)>, name: Seq<char>) -> Option<
    Seq<(String, Datum)>,
>
    decreases doc.len(),
{
    if doc.len() == 0 {
        None
    } else {
        match target_part(doc.drop_last(), name) {
            Some(f) => Some(f),
            None => if doc.last().0@ == name && is_target_entry(doc.last().0@, doc.last().1) {
                match doc.last().1 {
                    Datum::Table(fields) => Some(fields@),
                    _ => None,
                }
            } else {
                None
            },
        }
    }
}

/// The names of the targets a configuration defines, in order.
pub open spec fn target_names(doc: Seq<(String, Datum)>) -> Seq<Seq<char>>
    decreases doc.len(),
{
    if doc.len() == 0 {
        Seq::empty()
    } else {
        let r = target_names(doc.drop_last());
        if is_target_entry(doc.last().0@, doc.last().1) {
            r.push(doc.last().0@)
        } else {
            r
        }
    }
}

fn is_target(k: &String, v: &Datum) -> (r: bool)
    ensures
        r == is_target_entry(k@, *v),
{
    match v {
        Datum::Table(_) => {
            let n = k.as_str().unicode_len();
            !(n > 0 && k.as_str().get_char(0) == '_')
        },
        _ => false,
    }
}

/// Splits a parsed configuration into the active target's layer and the
/// global layer.
pub fn split_config(doc: Vec<(String, Datum)>, target: &str) -> (r: (Layer, Layer))
    ensures
        r.0.entries@ == match target_part(doc@, target@) {
            Some(f) => f,
            None => Seq::empty(),
        },
        r.1.entries@ == global_part(doc@),
{
    let ghost all = doc@;
    let mut rest = doc;
    let ghost mut done: int = 0;
    let mut global: Vec<(String, Datum)> = Vec::new();
    let mut chosen: Option<Vec<(String, Datum)>> = None;
    assert(all.take(0) =~= Seq::<(String, Datum)>::empty());
    while rest.len() > 0
        invariant
            0 <= done <= all.len(),
            rest@ == all.skip(done),
            global@ == global_part(all.take(done)),
            match chosen {
                Some(f) => target_part(all.take(done), target@) == Some(f@),
                None => target_part(all.take(done), target@) is None,
            },
        decreases rest.len(),
    {
        let (k, v) = rest.remove(0);
        proof {
            assert(all.take(done + 1).drop_last() =~= all.take(done));
            assert(all[done] == (k, v));
        }
        if is_target(&k, &v) {
            if chosen.is_none() && same_text(k.as_str(), target) {
                match v {
                    Datum::Table(fields) => {
                        chosen = Some(fields);
                    },
                    _ => {},
                }
            }
        } else {
            global.push((k, v));
        }
        proof {
            done = done + 1;
            assert(rest@ =~= all.skip(done));
        }
    }
    assert(all.take(done) =~= all);
    let t = match chosen {
        Some(f) => f,
        None => Vec::new(),
    };
    (Layer { entries: t }, Layer { entries: global })
}

/// The names of the targets a parsed configuration defines.
pub fn targets_of(doc: &Vec<(String, Datum)>) -> (r: Vec<String>)
    ensures
        r@.map_values(|s: String| s@) == target_names(doc@),
{
    let mut out: Vec<String> = Vec::new();
    let mut i: usize = 0;
    while i < doc.len()
        invariant
            i <= doc@.len(),
            out@.map_values(|s: String| s@) == target_names(doc@.take(i as int)),
        decreases doc.len() - i,
    {
        assert(doc@.take(i + 1).drop_last() =~= doc@.take(i as int));
        if is_target(&doc[i].0, &doc[i].1) {
            out.push(doc[i].0.clone());
        }
        assert(out@.map_values(|s: String| s@) =~= target_names(doc@.take(i + 1)));
        i = i + 1;
    }
    assert(doc@.take(doc@.len() as int) =~= doc@);
    out
}

/// The names of the targets a configuration text defines.
pub fn list_targets(config: &str) -> (r: Result<Vec<String>, ConfigError>)
    ensures
        match toml_entries(config@) {
            None => r is Err && r->Err_0 is MalformedConfig,
            Some(d) => exists|doc: Seq<(String, Datum)>|
                pairs_view(doc) == d && r is Ok && r->Ok_0@.map_values(|s: String| s@)
                    == target_names(doc),
        },
{
    match parse_toml(config) {
        Some(doc) => Ok(targets_of(&doc)),
        None => Err(ConfigError::MalformedConfig),
    }
}

/// Whether `name` is among the names.
pub fn is_known_target(names: &Vec<String>, name: &str) -> (r: bool)
    ensures
        r == exists|i: int| 0 <= i < names@.len() && names@[i]@ == name@,
{
    let mut i: usize = 0;
    while i < names.len()
        invariant
            i <= names@.len(),
            forall|j: int| 0 <= j < i ==> names@[j]@ != name@,
        decreases names.len() - i,
    {
        if same_text(names[i].as_str(), name) {
            return true;
        }
        i = i + 1;
    }
    false
}

/// Whether the persisted data text, where there is one, parses.
pub open spec fn data_ok(data: Option<&str>) -> bool {
    match data {
        Some(d) => toml_entries(d@) is Some,
        None => true,
    }
}

/// Builds the environment of a session from the configuration text, the
/// active target's name, the persisted data text (`None` where that file is
/// absent: an empty layer) and the explicit overrides. Fails on malformed
/// text; the configuration is parsed first.
pub fn load(config: &str, target: &str, data: Option<&str>, overrides: &Vec<(String, String)>) -> (r:
    Result<Environment, ConfigError>)
    ensures
        toml_entries(config@) is None ==> (r is Err && r->Err_0 is MalformedConfig),
        toml_entries(config@) is Some && !data_ok(data) ==> (r is Err && r->Err_0 is MalformedData),
        r is Ok <==> (toml_entries(config@) is Some && data_ok(data)),
        r is Ok ==> {
            let env = r->Ok_0;
            &&& exists|doc: Seq<(String, Datum)>|
                pairs_view(doc) == toml_entries(config@)->0 && env.global.entries@ == global_part(doc)
                    && env.target.entries@ == match target_part(doc, target@) {
                    Some(f) => f,
                    None => Seq::empty(),
                }
            &&& match data {
                Some(d) => pairs_view(env.data.entries@) == toml_entries(d@)->0,
                None => env.data.entries@.len() == 0,
            }
            &&& env.overrides@ == crate::session::overrides_of(overrides@)
        },
{
    let doc = match parse_toml(config) {
        Some(d) => d,
        None => {
            return Err(ConfigError::MalformedConfig);
        },
    };
    let ghost doc_seq = doc@;
    let data_layer = match data {
        Some(d) => match parse_toml(d) {
            Some(entries) => Layer { entries },
            None => {
                return Err(ConfigError::MalformedData);
            },
        },
        None => Layer { entries: Vec::new() },
    };
    let (target_layer, global_layer) = split_config(doc, target);
    let mut env = Environment::new(data_layer, target_layer, global_layer);
    env.start_session(overrides);
    Ok(env)
}

/// Decodes a response body and, where it is JSON, extracts variables from it
/// into the persisted data layer. A body that does not decode extracts
/// nothing and is no error: the request itself succeeded.
pub fn extract_response(env: &mut Environment, body: &str, rules: &Vec<ExtractionRule>) -> (r: bool)
    ensures
        r == (json_value(body@) is Some),
        !r ==> *final(env) == *old(env),
        r ==> exists|pairs: Seq<(String, Datum)>|
            pairs_view(pairs) == crate::extract::extracted(json_value(body@)->0, rules@)
                && final(env).data@ == crate::env::written(old(env).data@, pairs),
        final(env).overrides == old(env).overrides,
        final(env).target == old(env).target,
        final(env).global == old(env).global,
{
    match parse_json(body) {
        Some(v) => {
            extract_into(env, &v, rules);
            true
        },
        None => false,
    }
}

} // verus!
