//! The CLI loader: parses an argument vector against the schema. A field's
//! flag is `--` followed by the kebab-case field name, taking its value as
//! `--flag value` or `--flag=value`; a boolean flag standing alone sets the
//! field true. Every field not set by a flag holds its compiled-in default,
//! so the record is also usable as the disambiguation reference. An unknown
//! flag, a value of the wrong type, a missing value or a stray positional
//! token is fatal.
use vstd::prelude::*;
use crate::mirror::{Mirror, spec_defaults};
use crate::scalar::{Scalar, ScalarType, ScalarV};
use crate::schema::{ConfigError, FieldV, Schema};
use crate::text::{is_kebab_of, kebab_of, parse_scalar, parse_scalar_v};

verus! {

/// A flag token: two leading hyphens.
pub open spec fn is_flag_token(t: Seq<char>) -> bool {
    t.len() >= 2 && t[0] == '-' && t[1] == '-'
}

/// Index of the first field whose kebab-case name is `key`, searching from
/// position `i`.
pub open spec fn spec_field_index_from(fields: Seq<FieldV>, key: Seq<char>, i: int) -> Option<
    int,
>
    decreases fields.len() - i,
{
    if i < 0 || i >= fields.len() {
        None
    } else if kebab_of(fields[i].name) == key {
        Some(i)
    } else {
        spec_field_index_from(fields, key, i + 1)
    }
}

/// Index of the field whose kebab-case name is `key`.
pub open spec fn spec_field_index(fields: Seq<FieldV>, key: Seq<char>) -> Option<int> {
    spec_field_index_from(fields, key, 0)
}

/// Position of the first `=` at or after position `i`.
pub open spec fn spec_eq_pos_from(s: Seq<char>, i: int) -> Option<int>
    decreases s.len() - i,
{
    if i < 0 || i >= s.len() {
        None
    } else if s[i] == '=' {
        Some(i)
    } else {
        spec_eq_pos_from(s, i + 1)
    }
}

/// Position of the first `=` in a flag token's body.
pub open spec fn spec_eq_pos(s: Seq<char>) -> Option<int> {
    spec_eq_pos_from(s, 0)
}

/// One step of argument parsing: consume the head flag (and its value token,
/// where it takes one), or fail.
pub open spec fn spec_parse_args(
    fields: Seq<FieldV>,
    args: Seq<Seq<char>>,
    acc: Seq<Option<ScalarV>>,
) -> Option<Seq<Option<ScalarV>>>
    decreases args.len(),
{
    if args.len() == 0 {
        Some(acc)
    } else {
        let tok = args[0];
        if !is_flag_token(tok) {
            None
        } else {
            let body = tok.skip(2);
            let key = match spec_eq_pos(body) {
                Some(p) => body.subrange(0, p),
                None => body,
            };
            match spec_field_index(fields, key) {
                None => None,
                Some(fi) => {
                    let f = fields[fi];
                    match spec_eq_pos(body) {
                        Some(p) => match parse_scalar_v(f.ty, body.skip(p + 1)) {
                            None => None,
                            Some(v) => spec_parse_args(
                                fields,
                                args.skip(1),
                                acc.update(fi, Some(v)),
                            ),
                        },
                        None => {
                            if f.ty == ScalarType::Bool {
                                spec_parse_args(
                                    fields,
                                    args.skip(1),
                                    acc.update(fi, Some(ScalarV::Bool(true))),
                                )
                            } else if args.len() >= 2 {
                                match parse_scalar_v(f.ty, args[1]) {
                                    None => None,
                                    Some(v) => spec_parse_args(
                                        fields,
                                        args.skip(2),
                                        acc.update(fi, Some(v)),
                                    ),
                                }
                            } else {
                                None
                            }
                        },
                    }
                },
            }
        }
    }
}

/// The flag tokens of an argument vector: a leading element that is not a
/// flag is the conventional program-name sentinel and is skipped.
pub open spec fn spec_cli_tokens(args: Seq<Seq<char>>) -> Seq<Seq<char>> {
    if args.len() > 0 && !is_flag_token(args[0]) {
        args.skip(1)
    } else {
        args
    }
}

/// What the CLI loader yields on an argument vector: every field starts at
/// its compiled-in default, then each flag overrides its field, or the whole
/// parse fails.
pub open spec fn spec_parse_cli(fields: Seq<FieldV>, args: Seq<Seq<char>>) -> Option<
    Seq<Option<ScalarV>>,
> {
    spec_parse_args(fields, spec_cli_tokens(args), spec_defaults(fields))
}

/// Whether the token begins with two hyphens.
fn exec_is_flag(t: &str) -> (r: bool)
    ensures
        r == is_flag_token(t@),
{
    t.unicode_len() >= 2 && t.get_char(0) == '-' && t.get_char(1) == '-'
}

/// Position of the first `=` in the token body.
#[verifier::loop_isolation(false)]
fn find_eq(s: &str) -> (r: Option<usize>)
    ensures
        r matches Some(p) ==> p < s@.len() && spec_eq_pos(s@) == Some(p as int),
        r is None ==> spec_eq_pos(s@) is None,
{
    let n = s.unicode_len();
    let mut i: usize = 0;
    while i < n
        invariant
            0 <= i <= n,
            spec_eq_pos(s@) == spec_eq_pos_from(s@, i as int),
        decreases n - i,
    {
        if s.get_char(i) == '=' {
            return Some(i);
        }
        i += 1;
    }
    None
}

/// Index of the field whose kebab-case name is `key`.
#[verifier::loop_isolation(false)]
fn field_index(schema: &Schema, key: &str) -> (r: Option<usize>)
    ensures
        r matches Some(fi) ==> fi < schema@.len() && spec_field_index(schema@, key@) == Some(
            fi as int,
        ),
        r is None ==> spec_field_index(schema@, key@) is None,
{
    let n = schema.len();
    let mut j: usize = 0;
    while j < n
        invariant
            0 <= j <= n,
            spec_field_index(schema@, key@) == spec_field_index_from(schema@, key@, j as int),
        decreases n - j,
    {
        if is_kebab_of(key, schema.field(j).name.as_str()) {
            return Some(j);
        }
        j += 1;
    }
    None
}

/// Parse the argument vector against the schema. Returns the CLI mirror
/// record, or the fatal parse error exactly when the vector does not parse.
#[verifier::loop_isolation(false)]
pub fn parse_cli(schema: &Schema, args: &Vec<String>) -> (r: Result<Mirror, ConfigError>)
    ensures
        r matches Ok(m) ==> m@.len() == schema@.len() && spec_parse_cli(schema@, args.deep_view())
            == Some(m@),
        r is Err ==> spec_parse_cli(schema@, args.deep_view()) is None && r == Err::<
            Mirror,
            ConfigError,
        >(ConfigError::CliParse),
{
    let ghost whole: Seq<Seq<char>> = args.deep_view();
    let mut acc = Mirror::from_defaults(schema);
    let n = args.len();
    let mut i: usize = 0;
    if n > 0 && !exec_is_flag(args[0].as_str()) {
        i = 1;
    }
    proof {
        assert(whole.skip(0) =~= whole);
        assert(whole.skip(i as int) == spec_cli_tokens(whole));
    }
    while i < n
        invariant
            0 <= i <= n,
            acc@.len() == schema@.len(),
            spec_parse_args(schema@, whole.skip(i as int), acc@) == spec_parse_cli(
                schema@,
                whole,
            ),
        decreases n - i,
    {
        let ghost rest = whole.skip(i as int);
        let ghost acc0 = acc@;
        proof {
            assert(rest[0] == whole[i as int]);
            assert(rest.len() == n - i);
        }
        let tok = args[i].as_str();
        if !exec_is_flag(tok) {
            return Err(ConfigError::CliParse);
        }
        let tok_len = tok.unicode_len();
        let body = tok.substring_char(2, tok_len);
        proof {
            assert(body@ =~= tok@.skip(2));
        }
        match find_eq(body) {
            Option::Some(p) => {
                let body_len = body.unicode_len();
                let key = body.substring_char(0, p);
                let val = body.substring_char(p + 1, body_len);
                proof {
                    assert(key@ =~= body@.subrange(0, p as int));
                    assert(val@ =~= body@.skip(p as int + 1));
                }
                match field_index(schema, key) {
                    Option::None => {
                        return Err(ConfigError::CliParse);
                    },
                    Option::Some(fi) => {
                        let f = schema.field(fi);
                        match parse_scalar(f.ty, val) {
                            Option::None => {
                                return Err(ConfigError::CliParse);
                            },
                            Option::Some(v) => {
                                let ghost vv = v.deep_view();
                                acc.set_value(fi, Some(v));
                                proof {
                                    assert(rest.skip(1) =~= whole.skip(i as int + 1));
                                    assert(spec_parse_args(schema@, rest, acc0)
                                        == spec_parse_args(
                                        schema@,
                                        rest.skip(1),
                                        acc0.update(fi as int, Some(vv)),
                                    ));
                                }
                                i += 1;
                            },
                        }
                    },
                }
            },
            Option::None => {
                match field_index(schema, body) {
                    Option::None => {
                        return Err(ConfigError::CliParse);
                    },
                    Option::Some(fi) => {
                        let f = schema.field(fi);
                        if f.ty == ScalarType::Bool {
                            acc.set_value(fi, Some(Scalar::Bool(true)));
                            proof {
                                assert(rest.skip(1) =~= whole.skip(i as int + 1));
                                assert(spec_parse_args(schema@, rest, acc0) == spec_parse_args(
                                    schema@,
                                    rest.skip(1),
                                    acc0.update(fi as int, Some(ScalarV::Bool(true))),
                                ));
                            }
                            i += 1;
                        } else if i + 1 < n {
                            let val = args[i + 1].as_str();
                            proof {
                                assert(rest[1] == whole[i as int + 1]);
                            }
                            match parse_scalar(f.ty, val) {
                                Option::None => {
                                    return Err(ConfigError::CliParse);
                                },
                                Option::Some(v) => {
                                    let ghost vv = v.deep_view();
                                    acc.set_value(fi, Some(v));
                                    proof {
                                        assert(rest.skip(2) =~= whole.skip(i as int + 2));
                                        assert(spec_parse_args(schema@, rest, acc0)
                                            == spec_parse_args(
                                            schema@,
                                            rest.skip(2),
                                            acc0.update(fi as int, Some(vv)),
                                        ));
                                    }
                                    i += 2;
                                },
                            }
                        } else {
                            return Err(ConfigError::CliParse);
                        }
                    },
                }
            },
        }
    }
    proof {
        assert(whole.skip(n as int) =~= Seq::<Seq<char>>::empty());
    }
    Ok(acc)
}

} // verus!
