//! The resolution pipeline: fold the four sources under the precedence
//! `explicit CLI > environment > file > compiled default` and project the
//! result back into the typed schema.
use vstd::prelude::*;
use crate::cli::{parse_cli, spec_parse_cli};
use crate::mirror::{
    Mirror, ResolvedRecord, spec_absent, spec_back_project, spec_defaults, spec_merge,
    spec_merge_final,
};
use crate::scalar::{Scalar, ScalarType, ScalarV};
use crate::schema::{ConfigError, FieldV, Schema};
use crate::sources::{from_env, load_yaml, spec_env_mirror, spec_load_yaml};
use crate::text::str_eq;

verus! {

/// A field that opts the schema into configuration-file support: named
/// `config`, a plain string.
pub open spec fn is_config_field(f: FieldV) -> bool {
    f.name == "config"@ && f.ty == ScalarType::Str && !f.optional
}

/// Index of the first config field, searching from position `i`.
pub open spec fn spec_config_index_from(fields: Seq<FieldV>, i: int) -> Option<int>
    decreases fields.len() - i,
{
    if i < 0 || i >= fields.len() {
        None
    } else if is_config_field(fields[i]) {
        Some(i)
    } else {
        spec_config_index_from(fields, i + 1)
    }
}

/// Index of the schema's config field, when it declares one.
pub open spec fn spec_config_index(fields: Seq<FieldV>) -> Option<int> {
    spec_config_index_from(fields, 0)
}

/// Whether the schema opts into configuration-file support.
pub open spec fn spec_has_config(fields: Seq<FieldV>) -> bool {
    spec_config_index(fields) is Some
}

/// The resolved record of a schema against an argument vector, an
/// environment, and the text of the configuration file (already read, absent
/// when there was none to read), or nothing exactly when the argument vector
/// does not parse.
pub open spec fn spec_resolve(
    fields: Seq<FieldV>,
    args: Seq<Seq<char>>,
    env: Seq<(Seq<char>, Seq<char>)>,
    text: Option<Seq<char>>,
) -> Option<Seq<(Seq<char>, Option<ScalarV>)>> {
    match spec_parse_cli(fields, args) {
        None => None,
        Some(cli) => {
            let dflt = spec_defaults(fields);
            let file = if spec_has_config(fields) {
                spec_load_yaml(fields, text, dflt)
            } else {
                spec_absent(fields.len())
            };
            let pre = spec_merge(spec_merge(dflt, file), spec_env_mirror(fields, env));
            Some(spec_back_project(fields, spec_merge_final(cli, dflt, pre)))
        },
    }
}

/// The config-file path the resolution will use: the CLI record's value of
/// the schema's config field, or nothing when the schema declares none, the
/// field has no value, or (degenerately) the value is not a string.
pub open spec fn spec_config_path(fields: Seq<FieldV>, args: Seq<Seq<char>>) -> Option<
    Option<Seq<char>>,
> {
    match spec_parse_cli(fields, args) {
        None => None,
        Some(cli) => Some(
            match spec_config_index(fields) {
                None => None,
                Some(ci) => match cli[ci] {
                    Some(ScalarV::Str(p)) => Some(p),
                    _ => None,
                },
            },
        ),
    }
}

/// Index of the schema's config field, when it declares one.
#[verifier::loop_isolation(false)]
fn config_index(schema: &Schema) -> (r: Option<usize>)
    ensures
        r matches Some(ci) ==> ci < schema@.len() && spec_config_index(schema@) == Some(ci as int),
        r is None ==> spec_config_index(schema@) is None,
{
    let n = schema.len();
    let mut i: usize = 0;
    while i < n
        invariant
            0 <= i <= n,
            spec_config_index(schema@) == spec_config_index_from(schema@, i as int),
        decreases n - i,
    {
        let f = schema.field(i);
        if str_eq(f.name.as_str(), "config") && f.ty == ScalarType::Str && !f.optional {
            return Some(i);
        }
        i += 1;
    }
    None
}

/// The path of the configuration file that resolution would read: the CLI
/// value of the schema's config field. A schema without a config field never
/// names a file, so no file is ever read for it.
pub fn config_path(schema: &Schema, args: &Vec<String>) -> (r: Result<
    Option<String>,
    ConfigError,
>)
    ensures
        r matches Ok(p) ==> spec_config_path(schema@, args.deep_view()) == Some(p.deep_view()),
        r is Err ==> spec_config_path(schema@, args.deep_view()) is None && r == Err::<
            Option<String>,
            ConfigError,
        >(ConfigError::CliParse),
        !spec_has_config(schema@) && r is Ok ==> r == Ok::<Option<String>, ConfigError>(None),
{
    let cli = match parse_cli(schema, args) {
        Ok(c) => c,
        Err(e) => {
            return Err(e);
        },
    };
    match config_index(schema) {
        Option::None => Ok(None),
        Option::Some(ci) => match cli.value(ci) {
            Option::Some(Scalar::Str(p)) => Ok(Some(p.clone())),
            _ => Ok(None),
        },
    }
}

/// A type whose configuration resolves by layering the four sources.
pub trait LayeredConfig: Sized {
    /// The field descriptors the resolution runs over.
    spec fn schema_model(&self) -> Seq<FieldV>;

    /// Resolve the configuration from an argument vector, an environment, and
    /// the text of the configuration file, already read by the caller from
    /// the path `config_path` names (absent when there was none, or it could
    /// not be read). Fails exactly when the argument vector does not parse.
    fn resolve_from(
        &self,
        args: &Vec<String>,
        env: &Vec<(String, String)>,
        file_text: &Option<String>,
    ) -> (r: Result<ResolvedRecord, ConfigError>)
        ensures
            r matches Ok(rec) ==> spec_resolve(
                self.schema_model(),
                args.deep_view(),
                env.deep_view(),
                file_text.deep_view(),
            ) == Some(rec@),
            r is Err ==> spec_resolve(
                self.schema_model(),
                args.deep_view(),
                env.deep_view(),
                file_text.deep_view(),
            ) is None && r == Err::<ResolvedRecord, ConfigError>(ConfigError::CliParse),
    ;
}

impl LayeredConfig for Schema {
    open spec fn schema_model(&self) -> Seq<FieldV> {
        self@
    }

    fn resolve_from(
        &self,
        args: &Vec<String>,
        env: &Vec<(String, String)>,
        file_text: &Option<String>,
    ) -> (r: Result<ResolvedRecord, ConfigError>) {
        let dflt = Mirror::from_defaults(self);
        let cli = match parse_cli(self, args) {
            Ok(c) => c,
            Err(e) => {
                return Err(e);
            },
        };
        let file = match config_index(self) {
            Option::Some(_) => load_yaml(self, file_text, &dflt),
            Option::None => Mirror::absent(self.len()),
        };
        let env_rec = from_env(self, env);
        let pre = Mirror::merge(&dflt, &file);
        let pre = Mirror::merge(&pre, &env_rec);
        let fin = Mirror::merge_final(&cli, &dflt, &pre);
        Ok(ResolvedRecord::back_project(self, &fin))
    }
}

} // verus!
