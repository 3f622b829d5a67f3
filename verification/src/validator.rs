//! What every validator offers.
use std::sync::Arc;

use crate::errors::{result_view, ValErrorView, ValResult};
use crate::state::ValidationState;
use crate::value::Value;
use vstd::pervasive::arbitrary;
use vstd::prelude::*;

verus! {

/// What comes of a validation: its result, and the state as it left it.
pub struct Outcome {
    pub result: Result<Value, ValErrorView>,
    pub state: ValidationState,
}

/// A validator, as what it does.
pub struct ValidatorView {
    /// The name under which errors of the validator are located.
    pub name: Seq<char>,
    /// The strictness that the validator was itself given, if any.
    pub strict: Option<bool>,
    /// Whether validating an input from a state may end with an outcome.
    pub relation: spec_fn(Value, ValidationState, Outcome) -> bool,
}

impl ValidatorView {
    /// Whether validating an input from a state may end with an outcome.
    pub open spec fn yields(self, input: Value, before: ValidationState, outcome: Outcome) -> bool {
        (self.relation)(input, before, outcome)
    }
}

/// The validator that a leaf is.
pub open spec fn leaf_view<L: Validator>(leaf: L) -> ValidatorView {
    ValidatorView {
        name: leaf.spec_name(),
        strict: leaf.spec_field_strict(),
        relation: |input: Value, before: ValidationState, outcome: Outcome|
            leaf.may_yield(input, before, outcome),
    }
}

/// A validator that a union can have as a choice.
///
/// An implementation outside the verified code need not say what its validators do. It owes that
/// a validator always gives the same name and the same strictness: each may depend on nothing but
/// what the validator is made of.
pub trait Validator: Sized {
    /// The name under which errors of the validator are located. Of a validator that does not
    /// say, it is some name that depends on the validator alone.
    open spec fn spec_name(&self) -> Seq<char> {
        arbitrary::<spec_fn(Self) -> Seq<char>>()(*self)
    }

    /// The strictness that the validator was itself given, if any. Of a validator that does not
    /// say, it is one that depends on the validator alone.
    open spec fn spec_field_strict(&self) -> Option<bool> {
        arbitrary::<spec_fn(Self) -> Option<bool>>()(*self)
    }

    /// Whether validating an input from a state may end with an outcome. Of a validator that
    /// does not say, any outcome may come.
    open spec fn may_yield(&self, input: Value, before: ValidationState, outcome: Outcome) -> bool {
        true
    }

    /// The name under which errors of the validator are located.
    fn get_name(&self) -> (r: &str)
        ensures
            r@ == self.spec_name(),
    ;

    /// The strictness that the validator was itself given, if any.
    fn field_strict(&self) -> (r: Option<bool>)
        ensures
            r == self.spec_field_strict(),
    ;

    /// Validates an input.
    fn validate(&self, input: &Arc<Value>, state: &mut ValidationState) -> (r: ValResult)
        ensures
            self.may_yield(
                **input,
                *old(state),
                (Outcome { result: result_view(r), state: *final(state) }),
            ),
    ;
}

/// A function that reads the tag off an input of a tagged union.
pub trait TagFunction {
    /// Whether the function may give a tag for an input, or fail with an exception that the
    /// host keeps under a number. Of a function that does not say, anything may come.
    open spec fn may_tag(&self, input: Value, tag: Result<Value, u64>) -> bool {
        true
    }

    /// Reads the tag off an input.
    fn call(&self, input: &Arc<Value>) -> (r: Result<Arc<Value>, u64>)
        ensures
            self.may_tag(**input, tag_view(r)),
    ;
}

/// What a tag function gave.
pub open spec fn tag_view(tag: Result<Arc<Value>, u64>) -> Result<Value, u64> {
    match tag {
        Ok(value) => Ok(*value),
        Err(id) => Err(id),
    }
}

/// The tag function that finds no tag in any input.
#[derive(Clone, Copy, Debug, PartialEq, Eq)]
pub struct NoTag;

impl TagFunction for NoTag {
    open spec fn may_tag(&self, input: Value, tag: Result<Value, u64>) -> bool {
        tag == Ok::<Value, u64>(Value::Null)
    }

    fn call(&self, input: &Arc<Value>) -> (r: Result<Arc<Value>, u64>) {
        Ok(Arc::new(Value::Null))
    }
}

} // verus!
