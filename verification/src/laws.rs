//! Laws of the resolution engine, each proved over the same spec functions
//! the executable functions' contracts are stated in.
use vstd::prelude::*;
use crate::cli::{spec_cli_tokens, spec_eq_pos, spec_field_index, spec_field_index_from,
    spec_parse_args, spec_parse_cli};
use crate::mirror::{spec_absent, spec_back_project, spec_defaults, spec_merge, spec_merge_final,
    spec_project_field};
use crate::scalar::{ScalarType, ScalarV};
use crate::schema::{FieldV, wf_schema};
use crate::sources::{spec_env_mirror, spec_env_val, spec_load_yaml};
use crate::resolve::{spec_has_config, spec_resolve};
use crate::text::parse_scalar_v;

verus! {

/// A found field index lies within the schema.
proof fn lemma_field_index_range(fields: Seq<FieldV>, key: Seq<char>, i: int)
    requires
        spec_field_index_from(fields, key, i) is Some,
    ensures
        i <= spec_field_index_from(fields, key, i).unwrap() < fields.len(),
    decreases fields.len() - i,
{
    if !(i < 0 || i >= fields.len()) && spec_field_index_from(fields, key, i)
        != Some(i) {
        lemma_field_index_range(fields, key, i + 1);
    }
}

/// A successful argument parse leaves every field either at its starting
/// value or holding some explicit value, and keeps the record's width.
proof fn lemma_parse_args_some(fields: Seq<FieldV>, args: Seq<Seq<char>>, acc: Seq<Option<ScalarV>>)
    requires
        acc.len() == fields.len(),
        spec_parse_args(fields, args, acc) is Some,
    ensures
        spec_parse_args(fields, args, acc).unwrap().len() == acc.len(),
        forall|j: int|
            0 <= j < acc.len() ==> (#[trigger] spec_parse_args(fields, args, acc).unwrap()[j])
                == acc[j] || spec_parse_args(fields, args, acc).unwrap()[j] is Some,
    decreases args.len(),
{
    if args.len() == 0 {
    } else {
        let out = spec_parse_args(fields, args, acc).unwrap();
        let tok = args[0];
        let body = tok.skip(2);
        let key = match spec_eq_pos(body) {
            Some(p) => body.subrange(0, p),
            None => body,
        };
        assert(spec_field_index(fields, key) is Some);
        let fi = spec_field_index(fields, key).unwrap();
        lemma_field_index_range(fields, key, 0);
        let f = fields[fi];
        let step: (Seq<Seq<char>>, Seq<Option<ScalarV>>) = match spec_eq_pos(body) {
            Some(p) => {
                let v = parse_scalar_v(f.ty, body.skip(p + 1)).unwrap();
                (args.skip(1), acc.update(fi, Some(v)))
            },
            None => {
                if f.ty == ScalarType::Bool {
                    (args.skip(1), acc.update(fi, Some(ScalarV::Bool(true))))
                } else {
                    assert(args.len() >= 2);
                    let v = parse_scalar_v(f.ty, args[1]).unwrap();
                    (args.skip(2), acc.update(fi, Some(v)))
                }
            },
        };
        let acc1 = step.1;
        assert(spec_parse_args(fields, step.0, acc1) == spec_parse_args(fields, args, acc));
        lemma_parse_args_some(fields, step.0, acc1);
        assert(acc1.len() == acc.len());
        assert(acc1[fi] is Some);
        assert forall|j: int| 0 <= j < acc.len() implies (#[trigger] out[j]) == acc[j] || out[j]
            is Some by {
            if j != fi {
                assert(acc1[j] == acc[j]);
            }
        }
    }
}

/// The CLI record of a successful parse is as wide as the schema, and holds
/// the compiled-in default of every field no flag touched.
pub proof fn lemma_parse_cli_some(fields: Seq<FieldV>, args: Seq<Seq<char>>)
    requires
        spec_parse_cli(fields, args) is Some,
    ensures
        spec_parse_cli(fields, args).unwrap().len() == fields.len(),
        forall|j: int|
            0 <= j < fields.len() ==> (#[trigger] spec_parse_cli(fields, args).unwrap()[j])
                == spec_defaults(fields)[j] || spec_parse_cli(fields, args).unwrap()[j] is Some,
{
    lemma_parse_args_some(fields, spec_cli_tokens(args), spec_defaults(fields));
}

/// The default loader is the CLI loader run on an empty argument vector: it
/// yields every field's compiled-in default, all marked present.
pub proof fn lemma_default_loader_is_cli_on_empty(fields: Seq<FieldV>)
    ensures
        spec_parse_cli(fields, Seq::<Seq<char>>::empty()) == Some(spec_defaults(fields)),
{
}

/// With an empty argument vector, no environment and no file text, resolution
/// yields exactly the compiled-in defaults: each field resolves to its
/// declared default, falling back to absence (optional field) or the type's
/// zero value where none was declared.
pub proof fn lemma_empty_inputs_yield_defaults(fields: Seq<FieldV>)
    requires
        wf_schema(fields),
    ensures
        spec_resolve(
            fields,
            Seq::<Seq<char>>::empty(),
            Seq::<(Seq<char>, Seq<char>)>::empty(),
            None,
        ) matches Some(rec) && rec == Seq::new(
            fields.len(),
            |i: int| (fields[i].name, spec_project_field(fields[i], fields[i].default)),
        ),
{
    let args = Seq::<Seq<char>>::empty();
    let env = Seq::<(Seq<char>, Seq<char>)>::empty();
    let dflt = spec_defaults(fields);
    assert(spec_cli_tokens(args) == args);
    assert(spec_parse_cli(fields, args) == Some(dflt));
    let env_m = spec_env_mirror(fields, env);
    assert(forall|i: int| 0 <= i < fields.len() ==> (#[trigger] env_m[i]) is None);
    let file = if spec_has_config(fields) {
        spec_load_yaml(fields, None, dflt)
    } else {
        spec_absent(fields.len())
    };
    let pre1 = spec_merge(dflt, file);
    assert(pre1 =~= dflt);
    let pre2 = spec_merge(pre1, env_m);
    assert(pre2 =~= dflt);
    let fin = spec_merge_final(dflt, dflt, pre2);
    assert(fin =~= dflt);
    assert(spec_back_project(fields, dflt) =~= Seq::new(
        fields.len(),
        |i: int| (fields[i].name, spec_project_field(fields[i], fields[i].default)),
    ));
}

/// A field whose environment variable is set (to text that parses at the
/// field's type) resolves to that value, provided no CLI flag moved the field
/// off its default — whatever the file holds, since the environment outranks
/// it.
pub proof fn lemma_env_wins_for_untouched_field(
    fields: Seq<FieldV>,
    args: Seq<Seq<char>>,
    env: Seq<(Seq<char>, Seq<char>)>,
    text: Option<Seq<char>>,
    i: int,
)
    requires
        wf_schema(fields),
        0 <= i < fields.len(),
        spec_parse_cli(fields, args) is Some,
        spec_parse_cli(fields, args).unwrap()[i] == spec_defaults(fields)[i],
        spec_env_val(fields[i], env) is Some,
    ensures
        spec_resolve(fields, args, env, text) matches Some(rec) && rec[i] == (
            fields[i].name,
            spec_env_val(fields[i], env),
        ),
{
    lemma_parse_cli_some(fields, args);
    let cli = spec_parse_cli(fields, args).unwrap();
    let dflt = spec_defaults(fields);
    let env_m = spec_env_mirror(fields, env);
    let file = if spec_has_config(fields) {
        spec_load_yaml(fields, text, dflt)
    } else {
        spec_absent(fields.len())
    };
    let pre = spec_merge(spec_merge(dflt, file), env_m);
    assert(env_m[i] == spec_env_val(fields[i], env));
    assert(pre[i] == spec_env_val(fields[i], env));
    let fin = spec_merge_final(cli, dflt, pre);
    assert(fin[i] == spec_env_val(fields[i], env));
    assert(spec_back_project(fields, fin)[i] == (fields[i].name, spec_env_val(fields[i], env)));
}

/// An explicit CLI value that differs from the compiled-in default always
/// wins: whatever the environment and the file hold, the field resolves to
/// the CLI value.
pub proof fn lemma_cli_override_wins(
    fields: Seq<FieldV>,
    args: Seq<Seq<char>>,
    env: Seq<(Seq<char>, Seq<char>)>,
    text: Option<Seq<char>>,
    i: int,
)
    requires
        0 <= i < fields.len(),
        spec_parse_cli(fields, args) is Some,
        spec_parse_cli(fields, args).unwrap()[i] != spec_defaults(fields)[i],
    ensures
        spec_resolve(fields, args, env, text) matches Some(rec) && rec[i] == (
            fields[i].name,
            spec_parse_cli(fields, args).unwrap()[i],
        ),
{
    lemma_parse_cli_some(fields, args);
    let cli = spec_parse_cli(fields, args).unwrap();
    let dflt = spec_defaults(fields);
    assert(cli[i] is Some);
    let env_m = spec_env_mirror(fields, env);
    let file = if spec_has_config(fields) {
        spec_load_yaml(fields, text, dflt)
    } else {
        spec_absent(fields.len())
    };
    let pre = spec_merge(spec_merge(dflt, file), env_m);
    let fin = spec_merge_final(cli, dflt, pre);
    assert(fin[i] == cli[i]);
    assert(spec_back_project(fields, fin)[i] == (fields[i].name, cli[i]));
}

/// A schema without a config field resolves as if there were no file at all:
/// the file text plays no part. (And none is read: for such a schema,
/// `config_path` never names a file.)
pub proof fn lemma_file_ignored_without_config(
    fields: Seq<FieldV>,
    args: Seq<Seq<char>>,
    env: Seq<(Seq<char>, Seq<char>)>,
    text: Option<Seq<char>>,
)
    requires
        !spec_has_config(fields),
    ensures
        spec_resolve(fields, args, env, text) == spec_resolve(fields, args, env, None),
{
}

/// Resolution is repeatable: the same argument vector, environment and file
/// text resolve to the same record, there being no hidden state between
/// calls.
pub proof fn lemma_resolution_repeatable(
    fields: Seq<FieldV>,
    args1: Seq<Seq<char>>,
    env1: Seq<(Seq<char>, Seq<char>)>,
    text1: Option<Seq<char>>,
    args2: Seq<Seq<char>>,
    env2: Seq<(Seq<char>, Seq<char>)>,
    text2: Option<Seq<char>>,
)
    requires
        args1 == args2,
        env1 == env2,
        text1 == text2,
    ensures
        spec_resolve(fields, args1, env1, text1) == spec_resolve(fields, args2, env2, text2),
{
}

} // verus!

