//! The typed schema: a list of named field descriptors, each with a declared
//! scalar type and an optional compiled-in default.
use vstd::prelude::*;
use crate::scalar::{Scalar, ScalarType, ScalarV, storable, type_of};
use crate::text::{is_valid_name, str_eq, valid_name};

verus! {

/// The one error surface of the engine: a malformed schema, or command-line
/// arguments that do not parse. All other source faults are absorbed.
#[derive(Clone, Copy, PartialEq, Eq, Structural, Debug)]
pub enum ConfigError {
    /// The field descriptors do not form a valid schema.
    InvalidSchema,
    /// The argument vector does not parse against the schema.
    CliParse,
}

/// Static metadata of one schema field.
#[derive(Clone, Debug)]
pub struct FieldDesc {
    /// Unique name within the schema; also names the flag, the file key and
    /// the environment variable, through the fixed transforms.
    pub name: String,
    /// The declared scalar type.
    pub ty: ScalarType,
    /// The compiled-in default, if the field has one.
    pub default: Option<Scalar>,
    /// Whether the field was declared optional by the user; an optional field
    /// takes raw environment text and may resolve to no value at all.
    pub optional: bool,
}

/// Mathematical model of a field descriptor.
pub struct FieldV {
    pub name: Seq<char>,
    pub ty: ScalarType,
    pub default: Option<ScalarV>,
    pub optional: bool,
}

impl View for FieldDesc {
    type V = FieldV;

    open spec fn view(&self) -> FieldV {
        FieldV {
            name: self.name@,
            ty: self.ty,
            default: self.default.deep_view(),
            optional: self.optional,
        }
    }
}

impl DeepView for FieldDesc {
    type V = FieldV;

    open spec fn deep_view(&self) -> FieldV {
        self.view()
    }
}

/// A single field descriptor is well formed: its name is a valid identifier,
/// its default value has the declared type, and an optional field is textual.
pub open spec fn wf_field(f: FieldV) -> bool {
    &&& valid_name(f.name)
    &&& (f.default matches Some(v) ==> type_of(v) == f.ty && storable(v))
    &&& (f.optional ==> f.ty == ScalarType::Str)
}

/// A schema is well formed: every field is, and the names are unique.
pub open spec fn wf_schema(fields: Seq<FieldV>) -> bool {
    &&& forall|i: int| 0 <= i < fields.len() ==> wf_field(#[trigger] fields[i])
    &&& forall|i: int, j: int|
        0 <= i < fields.len() && 0 <= j < fields.len() && i != j ==> (#[trigger] fields[i].name)
            != (#[trigger] fields[j].name)
}

/// A validated schema: the list of field descriptors, known well formed.
pub struct Schema {
    fields: Vec<FieldDesc>,
}

impl View for Schema {
    type V = Seq<FieldV>;

    closed spec fn view(&self) -> Seq<FieldV> {
        self.fields.deep_view()
    }
}

impl Schema {
    /// Every `Schema` that exists is well formed.
    #[verifier::type_invariant]
    pub closed spec fn wf(self) -> bool {
        wf_schema(self@)
    }

    /// Validate the descriptors and build a schema. Succeeds exactly on a
    /// well-formed descriptor list.
    #[verifier::loop_isolation(false)]
    pub fn new(fields: Vec<FieldDesc>) -> (r: Result<Schema, ConfigError>)
        ensures
            r matches Ok(s) ==> s@ == fields.deep_view() && s.wf(),
            r is Ok <==> wf_schema(fields.deep_view()),
            r is Err ==> r == Err::<Schema, ConfigError>(ConfigError::InvalidSchema),
    {
        let ghost m = fields.deep_view();
        proof {
            assert(m.len() == fields@.len());
            assert(forall|i: int| 0 <= i < m.len() ==> m[i] == #[trigger] fields@[i].deep_view());
        }
        let n = fields.len();
        let mut i: usize = 0;
        while i < n
            invariant
                0 <= i <= n,
                n == fields@.len(),
                m == fields.deep_view(),
                m.len() == n,
                forall|k: int| 0 <= k < m.len() ==> m[k] == #[trigger] fields@[k].deep_view(),
                forall|k: int| 0 <= k < i ==> wf_field(#[trigger] m[k]),
                forall|k: int, l: int| 0 <= k < i && 0 <= l < k ==> (#[trigger] m[k].name)
                    != (#[trigger] m[l].name),
            decreases n - i,
        {
            let f = &fields[i];
            if !is_valid_name(f.name.as_str()) {
                return Err(ConfigError::InvalidSchema);
            }
            let type_ok = match &f.default {
                Option::None => true,
                Option::Some(Scalar::Str(_)) => f.ty == ScalarType::Str,
                Option::Some(Scalar::Int(_)) => f.ty == ScalarType::Int,
                Option::Some(Scalar::Bool(_)) => f.ty == ScalarType::Bool,
            };
            if !type_ok {
                return Err(ConfigError::InvalidSchema);
            }
            if f.optional && !(f.ty == ScalarType::Str) {
                return Err(ConfigError::InvalidSchema);
            }
            let mut j: usize = 0;
            while j < i
                invariant
                    0 <= j <= i < n,
                    forall|l: int| 0 <= l < j ==> m[i as int].name != (#[trigger] m[l].name),
                decreases i - j,
            {
                if str_eq(fields[i].name.as_str(), fields[j].name.as_str()) {
                    proof {
                        assert(m[i as int].name == m[j as int].name);
                        assert(!wf_schema(m));
                    }
                    return Err(ConfigError::InvalidSchema);
                }
                j += 1;
            }
            proof {
                assert(wf_field(m[i as int]));
            }
            i += 1;
        }
        proof {
            assert(wf_schema(m)) by {
                assert(forall|k: int, l: int|
                    0 <= k < m.len() && 0 <= l < m.len() && k != l ==> (#[trigger] m[k].name)
                        != (#[trigger] m[l].name));
            }
        }
        Ok(Schema { fields })
    }

    /// The number of fields.
    pub fn len(&self) -> (r: usize)
        ensures
            r == self@.len(),
    {
        self.fields.len()
    }

    /// The field descriptor at an index.
    pub fn field(&self, i: usize) -> (r: &FieldDesc)
        requires
            i < self@.len(),
        ensures
            r@ == self@[i as int],
    {
        &self.fields[i]
    }
}

} // verus!
