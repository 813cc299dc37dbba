//! The generic structured value that templates and resolved records are
//! made of: a tree of nulls, booleans, integers, strings, arrays and
//! ordered objects.

use vstd::prelude::*;

verus! {

/// A JSON-shaped tree. A structured template is a `Value`; so is the
/// record that resolving one produces. Object entries keep the order in
/// which they were declared.
#[derive(Debug, PartialEq, Eq)]
pub enum Value {
    Null,
    Bool(bool),
    Int(i64),
    Str(String),
    Array(Vec<Value>),
    Object(Vec<(String, Value)>),
}

impl Value {
    /// True of the scalar variants: the ones a flat template can hold.
    pub open spec fn spec_is_scalar(&self) -> bool {
        self is Bool || self is Int || self is Str
    }

    /// True of the scalar variants: the ones a flat template can hold.
    #[verifier::when_used_as_spec(spec_is_scalar)]
    pub fn is_scalar(&self) -> (r: bool)
        ensures
            r == self.spec_is_scalar(),
    {
        match self {
            Value::Bool(_) => true,
            Value::Int(_) => true,
            Value::Str(_) => true,
            _ => false,
        }
    }
}

} // verus!
