//! The optional mirror record: one per-source snapshot of the schema where
//! every field may be present or absent, the two merge primitives that fold
//! the precedence chain, and the back-projection into the resolved record.
use vstd::prelude::*;
use crate::scalar::{Scalar, ScalarV, zero_of, zero_value, opt_scalar_eq};
use crate::schema::{FieldV, Schema};
use crate::text::str_eq;

verus! {

/// Copy a scalar value.
pub fn dup_scalar(v: &Scalar) -> (r: Scalar)
    ensures
        r@ == v@,
{
    match v {
        Scalar::Str(s) => Scalar::Str(s.clone()),
        Scalar::Int(i) => Scalar::Int(*i),
        Scalar::Bool(b) => Scalar::Bool(*b),
    }
}

/// Copy an optional scalar value.
pub fn dup_opt(v: &Option<Scalar>) -> (r: Option<Scalar>)
    ensures
        r.deep_view() == v.deep_view(),
{
    match v {
        Option::Some(s) => Some(dup_scalar(s)),
        Option::None => None,
    }
}

/// One mirror record: an optional value per schema field, by field index.
pub struct Mirror {
    vals: Vec<Option<Scalar>>,
}

impl View for Mirror {
    type V = Seq<Option<ScalarV>>;

    closed spec fn view(&self) -> Seq<Option<ScalarV>> {
        self.vals.deep_view()
    }
}

/// The record holding exactly the compiled-in default of every field.
pub open spec fn spec_defaults(fields: Seq<FieldV>) -> Seq<Option<ScalarV>> {
    fields.map_values(|f: FieldV| f.default)
}

/// The record in which every field is absent.
pub open spec fn spec_absent(n: nat) -> Seq<Option<ScalarV>> {
    Seq::new(n, |i: int| None::<ScalarV>)
}

/// Per-field right-biased override: the right value where present, else the
/// left one.
pub open spec fn spec_merge(
    lhs: Seq<Option<ScalarV>>,
    rhs: Seq<Option<ScalarV>>,
) -> Seq<Option<ScalarV>> {
    Seq::new(lhs.len(), |i: int| if rhs[i] is Some {
        rhs[i]
    } else {
        lhs[i]
    })
}

/// The disambiguation step: a CLI value that differs from the compiled-in
/// default was given explicitly and wins; otherwise the fold of the other
/// sources wins. Value equality with the default is the only signal that no
/// explicit flag was given, since CLI parsing fills every field with at least
/// its default.
pub open spec fn spec_merge_final(
    cli: Seq<Option<ScalarV>>,
    dflt: Seq<Option<ScalarV>>,
    pre: Seq<Option<ScalarV>>,
) -> Seq<Option<ScalarV>> {
    Seq::new(cli.len(), |i: int| if cli[i] != dflt[i] {
        cli[i]
    } else {
        pre[i]
    })
}

impl Mirror {
    /// The mirror holding every field's compiled-in default, the
    /// disambiguation reference for the CLI tie-break.
    pub fn from_defaults(schema: &Schema) -> (r: Mirror)
        ensures
            r@ == spec_defaults(schema@),
    {
        let n = schema.len();
        let mut vals: Vec<Option<Scalar>> = Vec::new();
        let mut i: usize = 0;
        while i < n
            invariant
                0 <= i <= n,
                n == schema@.len(),
                vals.deep_view() =~= spec_defaults(schema@).subrange(0, i as int),
            decreases n - i,
        {
            let ghost before = vals.deep_view();
            vals.push(dup_opt(&schema.field(i).default));
            proof {
                assert(vals.deep_view() =~= before.push(schema@[i as int].default));
                assert(vals.deep_view() =~= spec_defaults(schema@).subrange(0, i as int + 1));
            }
            i += 1;
        }
        proof {
            assert(vals.deep_view() =~= spec_defaults(schema@));
        }
        Mirror { vals }
    }

    /// The all-absent mirror: what the file source contributes when the
    /// schema has no configuration-file support.
    pub fn absent(n: usize) -> (r: Mirror)
        ensures
            r@ == spec_absent(n as nat),
    {
        let mut vals: Vec<Option<Scalar>> = Vec::new();
        let mut i: usize = 0;
        while i < n
            invariant
                0 <= i <= n,
                vals.deep_view() =~= spec_absent(i as nat),
            decreases n - i,
        {
            let ghost before = vals.deep_view();
            vals.push(None);
            proof {
                assert(vals.deep_view() =~= before.push(None::<ScalarV>));
                assert(vals.deep_view() =~= spec_absent(i as nat + 1));
            }
            i += 1;
        }
        Mirror { vals }
    }

    /// Build a mirror from its per-field values.
    pub fn from_vals(vals: Vec<Option<Scalar>>) -> (r: Mirror)
        ensures
            r@ == vals.deep_view(),
    {
        Mirror { vals }
    }

    /// The number of fields.
    pub fn len(&self) -> (r: usize)
        ensures
            r == self@.len(),
    {
        self.vals.len()
    }

    /// Copy the record; merging never mutates an input.
    pub fn duplicate(&self) -> (r: Mirror)
        ensures
            r@ == self@,
    {
        let n = self.vals.len();
        let mut vals: Vec<Option<Scalar>> = Vec::new();
        let mut i: usize = 0;
        while i < n
            invariant
                0 <= i <= n,
                n == self@.len(),
                vals.deep_view() =~= self@.subrange(0, i as int),
            decreases n - i,
        {
            let ghost before = vals.deep_view();
            vals.push(dup_opt(&self.vals[i]));
            proof {
                assert(vals.deep_view() =~= before.push(self@[i as int]));
                assert(vals.deep_view() =~= self@.subrange(0, i as int + 1));
            }
            i += 1;
        }
        proof {
            assert(vals.deep_view() =~= self@);
        }
        Mirror { vals }
    }

    /// The value at a field index.
    pub fn value(&self, i: usize) -> (r: &Option<Scalar>)
        requires
            i < self@.len(),
        ensures
            r.deep_view() == self@[i as int],
    {
        &self.vals[i]
    }

    /// Replace the value at a field index.
    pub fn set_value(&mut self, i: usize, v: Option<Scalar>)
        requires
            i < old(self)@.len(),
        ensures
            final(self)@ == old(self)@.update(i as int, v.deep_view()),
    {
        self.vals.set(i, v);
        proof {
            assert(self@ =~= old(self)@.update(i as int, v.deep_view()));
        }
    }

    /// Per-field right-biased merge of two records over the same schema.
    pub fn merge(lhs: &Mirror, rhs: &Mirror) -> (r: Mirror)
        requires
            lhs@.len() == rhs@.len(),
        ensures
            r@ == spec_merge(lhs@, rhs@),
    {
        let n = lhs.vals.len();
        let mut vals: Vec<Option<Scalar>> = Vec::new();
        let mut i: usize = 0;
        while i < n
            invariant
                0 <= i <= n,
                n == lhs@.len(),
                lhs@.len() == rhs@.len(),
                vals.deep_view() =~= spec_merge(lhs@, rhs@).subrange(0, i as int),
            decreases n - i,
        {
            let ghost before = vals.deep_view();
            let picked = match &rhs.vals[i] {
                Option::Some(v) => Some(dup_scalar(v)),
                Option::None => dup_opt(&lhs.vals[i]),
            };
            vals.push(picked);
            proof {
                assert(vals.deep_view() =~= before.push(spec_merge(lhs@, rhs@)[i as int]));
                assert(vals.deep_view() =~= spec_merge(lhs@, rhs@).subrange(0, i as int + 1));
            }
            i += 1;
        }
        proof {
            assert(vals.deep_view() =~= spec_merge(lhs@, rhs@));
        }
        Mirror { vals }
    }

    /// The disambiguation merge: per field, take the CLI value when it differs
    /// from the compiled-in default, else the fold of the other sources.
    pub fn merge_final(cli: &Mirror, dflt: &Mirror, pre: &Mirror) -> (r: Mirror)
        requires
            cli@.len() == dflt@.len(),
            cli@.len() == pre@.len(),
        ensures
            r@ == spec_merge_final(cli@, dflt@, pre@),
    {
        let n = cli.vals.len();
        let mut vals: Vec<Option<Scalar>> = Vec::new();
        let mut i: usize = 0;
        while i < n
            invariant
                0 <= i <= n,
                n == cli@.len(),
                cli@.len() == dflt@.len(),
                cli@.len() == pre@.len(),
                vals.deep_view() =~= spec_merge_final(cli@, dflt@, pre@).subrange(0, i as int),
            decreases n - i,
        {
            let ghost before = vals.deep_view();
            let picked = if !opt_scalar_eq(&cli.vals[i], &dflt.vals[i]) {
                dup_opt(&cli.vals[i])
            } else {
                dup_opt(&pre.vals[i])
            };
            vals.push(picked);
            proof {
                assert(vals.deep_view() =~= before.push(
                    spec_merge_final(cli@, dflt@, pre@)[i as int],
                ));
                assert(vals.deep_view() =~= spec_merge_final(cli@, dflt@, pre@).subrange(
                    0,
                    i as int + 1,
                ));
            }
            i += 1;
        }
        proof {
            assert(vals.deep_view() =~= spec_merge_final(cli@, dflt@, pre@));
        }
        Mirror { vals }
    }
}

/// `merge` is associative, so the fold of `default`, `file` and `env` may be
/// bracketed either way.
pub proof fn lemma_merge_associative(
    a: Seq<Option<ScalarV>>,
    b: Seq<Option<ScalarV>>,
    c: Seq<Option<ScalarV>>,
)
    requires
        a.len() == b.len(),
        b.len() == c.len(),
    ensures
        spec_merge(spec_merge(a, b), c) == spec_merge(a, spec_merge(b, c)),
{
    assert(spec_merge(spec_merge(a, b), c) =~= spec_merge(a, spec_merge(b, c)));
}

/// Merging the all-absent record on the right changes nothing: a schema
/// without file support degrades to the three-source fold.
pub proof fn lemma_merge_absent(a: Seq<Option<ScalarV>>)
    ensures
        spec_merge(a, spec_absent(a.len())) == a,
{
    assert(spec_merge(a, spec_absent(a.len())) =~= a);
}

/// The final, fully-typed result: every non-optional field carries a value.
pub struct ResolvedRecord {
    entries: Vec<(String, Option<Scalar>)>,
}

impl View for ResolvedRecord {
    type V = Seq<(Seq<char>, Option<ScalarV>)>;

    closed spec fn view(&self) -> Seq<(Seq<char>, Option<ScalarV>)> {
        self.entries.deep_view()
    }
}

/// Back-projection of one field: the merged value where present, absence for
/// an optional field, and the type's zero value otherwise.
pub open spec fn spec_project_field(f: FieldV, v: Option<ScalarV>) -> Option<ScalarV> {
    if v is Some {
        v
    } else if f.optional {
        None
    } else {
        Some(zero_of(f.ty))
    }
}

/// Back-projection of the merged mirror into the typed schema.
pub open spec fn spec_back_project(
    fields: Seq<FieldV>,
    m: Seq<Option<ScalarV>>,
) -> Seq<(Seq<char>, Option<ScalarV>)> {
    Seq::new(fields.len(), |i: int| (fields[i].name, spec_project_field(fields[i], m[i])))
}

/// First entry of the resolved record with the given field name.
pub open spec fn spec_find(
    entries: Seq<(Seq<char>, Option<ScalarV>)>,
    name: Seq<char>,
) -> Option<Option<ScalarV>>
    decreases entries.len(),
{
    if entries.len() == 0 {
        None
    } else if entries[0].0 == name {
        Some(entries[0].1)
    } else {
        spec_find(entries.skip(1), name)
    }
}

impl ResolvedRecord {
    /// Project the merged mirror back into the typed schema.
    pub fn back_project(schema: &Schema, m: &Mirror) -> (r: ResolvedRecord)
        requires
            m@.len() == schema@.len(),
        ensures
            r@ == spec_back_project(schema@, m@),
    {
        let n = schema.len();
        let mut entries: Vec<(String, Option<Scalar>)> = Vec::new();
        let mut i: usize = 0;
        while i < n
            invariant
                0 <= i <= n,
                n == schema@.len(),
                m@.len() == schema@.len(),
                entries.deep_view() =~= spec_back_project(schema@, m@).subrange(0, i as int),
            decreases n - i,
        {
            let ghost before = entries.deep_view();
            let f = schema.field(i);
            let name = f.name.clone();
            let value: Option<Scalar> = match m.value(i) {
                Option::Some(v) => Some(dup_scalar(v)),
                Option::None => if f.optional {
                    None
                } else {
                    Some(zero_value(f.ty))
                },
            };
            entries.push((name, value));
            proof {
                assert(entries.deep_view() =~= before.push(
                    spec_back_project(schema@, m@)[i as int],
                ));
                assert(entries.deep_view() =~= spec_back_project(schema@, m@).subrange(
                    0,
                    i as int + 1,
                ));
            }
            i += 1;
        }
        proof {
            assert(entries.deep_view() =~= spec_back_project(schema@, m@));
        }
        ResolvedRecord { entries }
    }

    /// The number of fields.
    pub fn len(&self) -> (r: usize)
        ensures
            r == self@.len(),
    {
        self.entries.len()
    }

    /// The resolved value of the named field: the first entry under that
    /// name, or nothing when the record has no such field.
    pub fn get(&self, name: &str) -> (r: Option<Option<Scalar>>)
        ensures
            r.deep_view() == spec_find(self@, name@),
    {
        let n = self.entries.len();
        let mut i: usize = 0;
        proof {
            assert(self@.skip(0) =~= self@);
        }
        while i < n
            invariant
                0 <= i <= n,
                n == self@.len(),
                spec_find(self@, name@) == spec_find(self@.skip(i as int), name@),
            decreases n - i,
        {
            if str_eq(self.entries[i].0.as_str(), name) {
                proof {
                    assert(self@.skip(i as int)[0] == self@[i as int]);
                }
                return Some(dup_opt(&self.entries[i].1));
            }
            proof {
                assert(self@.skip(i as int)[0] == self@[i as int]);
                assert(self@.skip(i as int).skip(1) =~= self@.skip(i as int + 1));
            }
            i += 1;
        }
        proof {
            assert(self@.skip(n as int) =~= Seq::<(Seq<char>, Option<ScalarV>)>::empty());
        }
        None
    }

    /// The resolved string value of the named field, when it has one.
    pub fn get_str(&self, name: &str) -> (r: Option<String>)
        ensures
            r matches Some(s) ==> spec_find(self@, name@) == Some(Some(ScalarV::Str(s@))),
            r is None ==> !(spec_find(self@, name@) matches Some(v) && v matches Some(w)
                && w is Str),
    {
        match self.get(name) {
            Option::Some(Option::Some(Scalar::Str(s))) => Some(s),
            _ => None,
        }
    }

    /// The resolved integer value of the named field, when it has one.
    pub fn get_int(&self, name: &str) -> (r: Option<i64>)
        ensures
            r matches Some(i) ==> spec_find(self@, name@) == Some(Some(ScalarV::Int(i as int))),
            r is None ==> !(spec_find(self@, name@) matches Some(v) && v matches Some(w)
                && w is Int),
    {
        match self.get(name) {
            Option::Some(Option::Some(Scalar::Int(i))) => Some(i),
            _ => None,
        }
    }

    /// The resolved boolean value of the named field, when it has one.
    pub fn get_bool(&self, name: &str) -> (r: Option<bool>)
        ensures
            r matches Some(b) ==> spec_find(self@, name@) == Some(Some(ScalarV::Bool(b))),
            r is None ==> !(spec_find(self@, name@) matches Some(v) && v matches Some(w)
                && w is Bool),
    {
        match self.get(name) {
            Option::Some(Option::Some(Scalar::Bool(b))) => Some(b),
            _ => None,
        }
    }
}

} // verus!
