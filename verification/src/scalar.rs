//! Scalar values: the typed payloads a configuration field can hold.
use vstd::prelude::*;

verus! {

/// The declared type of a schema field.
#[derive(Clone, Copy, PartialEq, Eq, Structural, Debug)]
pub enum ScalarType {
    Str,
    Int,
    Bool,
}

/// A concrete field value from one of the four sources.
#[derive(Clone, Debug)]
pub enum Scalar {
    Str(String),
    Int(i64),
    Bool(bool),
}

/// Mathematical model of a `Scalar`.
pub enum ScalarV {
    Str(Seq<char>),
    Int(int),
    Bool(bool),
}

impl View for Scalar {
    type V = ScalarV;

    open spec fn view(&self) -> ScalarV {
        match self {
            Scalar::Str(s) => ScalarV::Str(s@),
            Scalar::Int(i) => ScalarV::Int(*i as int),
            Scalar::Bool(b) => ScalarV::Bool(*b),
        }
    }
}

impl DeepView for Scalar {
    type V = ScalarV;

    open spec fn deep_view(&self) -> ScalarV {
        self.view()
    }
}

/// The declared type of a model value.
pub open spec fn type_of(v: ScalarV) -> ScalarType {
    match v {
        ScalarV::Str(_) => ScalarType::Str,
        ScalarV::Int(_) => ScalarType::Int,
        ScalarV::Bool(_) => ScalarType::Bool,
    }
}

/// A model value is storable when its integer payload fits the machine type.
pub open spec fn storable(v: ScalarV) -> bool {
    match v {
        ScalarV::Int(i) => i64::MIN <= i <= i64::MAX,
        _ => true,
    }
}

/// The zero value of a scalar type: what a non-optional field falls back to
/// when every source left it absent.
pub open spec fn zero_of(t: ScalarType) -> ScalarV {
    match t {
        ScalarType::Str => ScalarV::Str(Seq::empty()),
        ScalarType::Int => ScalarV::Int(0),
        ScalarType::Bool => ScalarV::Bool(false),
    }
}

/// The type-appropriate zero value.
pub fn zero_value(t: ScalarType) -> (r: Scalar)
    ensures
        r@ == zero_of(t),
{
    match t {
        ScalarType::Str => Scalar::Str(String::new()),
        ScalarType::Int => Scalar::Int(0),
        ScalarType::Bool => Scalar::Bool(false),
    }
}

/// Value equality of two scalars, decided on the models.
pub fn scalar_eq(a: &Scalar, b: &Scalar) -> (r: bool)
    ensures
        r == (a@ == b@),
{
    match (a, b) {
        (Scalar::Str(x), Scalar::Str(y)) => *x == *y,
        (Scalar::Int(x), Scalar::Int(y)) => *x == *y,
        (Scalar::Bool(x), Scalar::Bool(y)) => *x == *y,
        _ => false,
    }
}

/// Value equality of two optional scalars, decided on the models.
pub fn opt_scalar_eq(a: &Option<Scalar>, b: &Option<Scalar>) -> (r: bool)
    ensures
        r == (a.deep_view() == b.deep_view()),
{
    match (a, b) {
        (Option::Some(x), Option::Some(y)) => scalar_eq(x, y),
        (Option::None, Option::None) => true,
        _ => false,
    }
}

} // verus!
