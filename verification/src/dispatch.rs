//! From what the convenience layer was handed to the constructor it calls.

use vstd::prelude::*;
use crate::kind::Kind;
use crate::template::{infer_kind, kind_of};

verus! {

/// The two shapes of input that the convenience layer accepts.
pub enum Form {
    /// A bare rendering closure.
    Closure,
    /// A template string, followed by its arguments.
    Template(String),
}

impl Form {
    /// The kind whose constructor is called: `Display` for a closure, the
    /// inferred kind for a template.
    pub open spec fn constructor_spec(self) -> Kind {
        match self {
            Form::Closure => Kind::Display,
            Form::Template(template) => kind_of(template@),
        }
    }
}

/// The kind whose constructor the convenience layer calls for `form`.
pub fn constructor(form: &Form) -> (k: Kind)
    ensures
        k == form.constructor_spec(),
{
    match form {
        Form::Closure => Kind::Display,
        Form::Template(template) => infer_kind(template.as_str()),
    }
}

} // verus!
