//! The environment and file loaders. Both are best-effort: an environment
//! value that does not parse is treated as not set, and a file that is
//! missing, unreadable or malformed leaves the compiled-in defaults standing.
//! Neither can fail resolution.
use vstd::prelude::*;
use crate::mirror::{Mirror, dup_opt, spec_find};
use crate::scalar::{Scalar, ScalarType, ScalarV, type_of};
use crate::schema::{FieldV, Schema};
use crate::text::{is_kebab_of, is_upper_of, kebab_of, parse_scalar, parse_scalar_v, upper_matches};

verus! {

/// The value of the first environment entry whose key is the field name
/// upper-cased.
pub open spec fn spec_env_lookup(env: Seq<(Seq<char>, Seq<char>)>, name: Seq<char>) -> Option<
    Seq<char>,
>
    decreases env.len(),
{
    if env.len() == 0 {
        None
    } else if upper_matches(env[0].0, name) {
        Some(env[0].1)
    } else {
        spec_env_lookup(env.skip(1), name)
    }
}

/// What the environment contributes to one field: the variable's text parsed
/// at the field's type, the raw text for a field declared optional, and
/// absence when the variable is unset or its text does not parse.
pub open spec fn spec_env_val(f: FieldV, env: Seq<(Seq<char>, Seq<char>)>) -> Option<ScalarV> {
    match spec_env_lookup(env, f.name) {
        None => None,
        Some(raw) => if f.optional {
            Some(ScalarV::Str(raw))
        } else {
            parse_scalar_v(f.ty, raw)
        },
    }
}

/// The environment mirror record.
pub open spec fn spec_env_mirror(
    fields: Seq<FieldV>,
    env: Seq<(Seq<char>, Seq<char>)>,
) -> Seq<Option<ScalarV>> {
    Seq::new(fields.len(), |i: int| spec_env_val(fields[i], env))
}

/// The raw text of the environment variable named by the field's upper-cased
/// name, if it is set.
#[verifier::loop_isolation(false)]
fn env_lookup<'a>(env: &'a Vec<(String, String)>, name: &str) -> (r: Option<&'a String>)
    ensures
        r matches Some(raw) ==> spec_env_lookup(env.deep_view(), name@) == Some(raw@),
        r is None ==> spec_env_lookup(env.deep_view(), name@) is None,
{
    let ghost whole = env.deep_view();
    let n = env.len();
    let mut i: usize = 0;
    proof {
        assert(whole.skip(0) =~= whole);
    }
    while i < n
        invariant
            0 <= i <= n,
            spec_env_lookup(whole, name@) == spec_env_lookup(whole.skip(i as int), name@),
        decreases n - i,
    {
        proof {
            assert(whole.skip(i as int)[0] == whole[i as int]);
        }
        if is_upper_of(env[i].0.as_str(), name) {
            return Some(&env[i].1);
        }
        proof {
            assert(whole.skip(i as int).skip(1) =~= whole.skip(i as int + 1));
        }
        i += 1;
    }
    proof {
        assert(whole.skip(n as int) =~= Seq::<(Seq<char>, Seq<char>)>::empty());
    }
    None
}

/// The environment loader: one mirror value per field, looked up under the
/// field's upper-cased name.
#[verifier::loop_isolation(false)]
pub fn from_env(schema: &Schema, env: &Vec<(String, String)>) -> (r: Mirror)
    ensures
        r@ == spec_env_mirror(schema@, env.deep_view()),
{
    let n = schema.len();
    let mut vals: Vec<Option<Scalar>> = Vec::new();
    let mut i: usize = 0;
    while i < n
        invariant
            0 <= i <= n,
            vals.deep_view() =~= spec_env_mirror(schema@, env.deep_view()).subrange(0, i as int),
        decreases n - i,
    {
        let ghost before = vals.deep_view();
        let f = schema.field(i);
        let v: Option<Scalar> = match env_lookup(env, f.name.as_str()) {
            Option::None => None,
            Option::Some(raw) => if f.optional {
                Some(Scalar::Str(raw.clone()))
            } else {
                parse_scalar(f.ty, raw.as_str())
            },
        };
        vals.push(v);
        proof {
            assert(vals.deep_view() =~= before.push(spec_env_val(schema@[i as int], env.deep_view())));
            assert(vals.deep_view() =~= spec_env_mirror(schema@, env.deep_view()).subrange(
                0,
                i as int + 1,
            ));
        }
        i += 1;
    }
    proof {
        assert(vals.deep_view() =~= spec_env_mirror(schema@, env.deep_view()));
    }
    Mirror::from_vals(vals)
}

/// The top-level scalar entries of the YAML document, in document order: a
/// name for what `serde_yaml`'s parse yields, a function of the text alone.
/// Nothing besides the parse (absence of a mapping, a non-string key) is
/// distinguished from a parse error; an entry whose value is no supported
/// scalar carries no value.
pub uninterp spec fn yaml_scalars_of(text: Seq<char>) -> Option<
    Seq<(Seq<char>, Option<ScalarV>)>,
>;

/// Relies on `serde_yaml::from_str` and the `serde_yaml::Value` accessors:
/// parses the document and hands back its top-level mapping as plain
/// key/scalar pairs, a deterministic function of the text.
#[verifier::external_body]
fn parse_yaml_scalars(text: &str) -> (r: Option<Vec<(String, Option<Scalar>)>>)
    ensures
        r.deep_view() == yaml_scalars_of(text@),
{
    let doc: serde_yaml::Value = serde_yaml::from_str(text).ok()?;
    doc.as_mapping()?
        .iter()
        .map(|(k, v)| {
            let val = match v {
                serde_yaml::Value::String(s) => Some(Scalar::Str(s.clone())),
                serde_yaml::Value::Bool(b) => Some(Scalar::Bool(*b)),
                serde_yaml::Value::Number(n) => n.as_i64().map(Scalar::Int),
                _ => None,
            };
            Some((k.as_str()?.to_owned(), val))
        })
        .collect()
}

/// What the file contributes to one field: the value under the field's
/// kebab-case key. Absence of the key is an absent field; a value of the
/// wrong type, or one that is no supported scalar, invalidates the whole
/// document.
pub open spec fn spec_file_field(
    f: FieldV,
    entries: Seq<(Seq<char>, Option<ScalarV>)>,
) -> Option<Option<ScalarV>> {
    match spec_find(entries, kebab_of(f.name)) {
        None => Some(None),
        Some(None) => None,
        Some(Some(v)) => if type_of(v) == f.ty {
            Some(Some(v))
        } else {
            None
        },
    }
}

/// The mirror the document denotes at this schema, or nothing when any known
/// field's value has the wrong type.
pub open spec fn spec_file_mirror(
    fields: Seq<FieldV>,
    entries: Seq<(Seq<char>, Option<ScalarV>)>,
) -> Option<Seq<Option<ScalarV>>> {
    if exists|i: int|
        0 <= i < fields.len() && (#[trigger] spec_file_field(fields[i], entries)) is None {
        None
    } else {
        Some(Seq::new(fields.len(), |i: int| spec_file_field(fields[i], entries).unwrap()))
    }
}

/// The file loader's result: with no text (no path, missing or unreadable
/// file) or text that does not denote a record of this schema, the supplied
/// default record stands unchanged.
pub open spec fn spec_load_yaml(
    fields: Seq<FieldV>,
    text: Option<Seq<char>>,
    dflt: Seq<Option<ScalarV>>,
) -> Seq<Option<ScalarV>> {
    match text {
        None => dflt,
        Some(t) => match yaml_scalars_of(t) {
            None => dflt,
            Some(entries) => match spec_file_mirror(fields, entries) {
                None => dflt,
                Some(m) => m,
            },
        },
    }
}

/// The first file entry under the field's kebab-case key.
#[verifier::loop_isolation(false)]
fn entry_lookup(entries: &Vec<(String, Option<Scalar>)>, name: &str) -> (r: Option<
    Option<Scalar>,
>)
    ensures
        r matches Some(v) ==> spec_find(entries.deep_view(), kebab_of(name@)) == Some(
            v.deep_view(),
        ),
        r is None ==> spec_find(entries.deep_view(), kebab_of(name@)) is None,
{
    let ghost whole = entries.deep_view();
    let n = entries.len();
    let mut i: usize = 0;
    proof {
        assert(whole.skip(0) =~= whole);
    }
    while i < n
        invariant
            0 <= i <= n,
            spec_find(whole, kebab_of(name@)) == spec_find(whole.skip(i as int), kebab_of(name@)),
        decreases n - i,
    {
        proof {
            assert(whole.skip(i as int)[0] == whole[i as int]);
        }
        if is_kebab_of(entries[i].0.as_str(), name) {
            return Some(dup_opt(&entries[i].1));
        }
        proof {
            assert(whole.skip(i as int).skip(1) =~= whole.skip(i as int + 1));
        }
        i += 1;
    }
    proof {
        assert(whole.skip(n as int) =~= Seq::<(Seq<char>, Option<ScalarV>)>::empty());
    }
    None
}

/// The declared type of a scalar value.
fn scalar_type_of(v: &Scalar) -> (r: ScalarType)
    ensures
        r == type_of(v@),
{
    match v {
        Scalar::Str(_) => ScalarType::Str,
        Scalar::Int(_) => ScalarType::Int,
        Scalar::Bool(_) => ScalarType::Bool,
    }
}

/// The file loader: parse the text as the mirror schema, falling back to the
/// supplied default record on any fault.
#[verifier::loop_isolation(false)]
pub fn load_yaml(schema: &Schema, text: &Option<String>, dflt: &Mirror) -> (r: Mirror)
    ensures
        r@ == spec_load_yaml(schema@, text.deep_view(), dflt@),
{
    let t: &String = match text {
        Option::Some(t) => t,
        Option::None => {
            return dflt.duplicate();
        },
    };
    let entries: Vec<(String, Option<Scalar>)> = match parse_yaml_scalars(t.as_str()) {
        Option::Some(e) => e,
        Option::None => {
            return dflt.duplicate();
        },
    };
    let ghost emodel = entries.deep_view();
    let n = schema.len();
    let mut vals: Vec<Option<Scalar>> = Vec::new();
    let mut i: usize = 0;
    while i < n
        invariant
            0 <= i <= n,
            vals.deep_view().len() == i,
            forall|k: int|
                0 <= k < i ==> ((#[trigger] spec_file_field(schema@[k], emodel)) matches Some(v)
                    && vals.deep_view()[k] == v),
        decreases n - i,
    {
        let ghost before = vals.deep_view();
        let f = schema.field(i);
        let contributed: Option<Scalar> = match entry_lookup(&entries, f.name.as_str()) {
            Option::None => None,
            Option::Some(Option::None) => {
                proof {
                    assert(spec_file_field(schema@[i as int], emodel) is None);
                }
                return dflt.duplicate();
            },
            Option::Some(Option::Some(v)) => {
                if scalar_type_of(&v) == f.ty {
                    Some(v)
                } else {
                    proof {
                        assert(spec_file_field(schema@[i as int], emodel) is None);
                    }
                    return dflt.duplicate();
                }
            },
        };
        vals.push(contributed);
        proof {
            assert(vals.deep_view() =~= before.push(contributed.deep_view()));
        }
        i += 1;
    }
    proof {
        assert(forall|k: int|
            0 <= k < schema@.len() ==> !((#[trigger] spec_file_field(schema@[k], emodel))
                is None));
        assert(spec_file_mirror(schema@, emodel) matches Some(m) && vals.deep_view() =~= m);
    }
    Mirror::from_vals(vals)
}

} // verus!
