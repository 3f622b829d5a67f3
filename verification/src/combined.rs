//! Any validator that can be a choice of a union.
use std::sync::Arc;

use crate::errors::{result_view, ValResult};
use crate::field::FieldValidator;
use crate::model::ModelValidator;
use crate::state::ValidationState;
use crate::tagged::TaggedUnionValidator;
use crate::union::UnionValidator;
use crate::validator::{leaf_view, Outcome, TagFunction, Validator, ValidatorView};
use crate::value::Value;
use vstd::prelude::*;

verus! {

/// Any validator: one of a single value or of the program's own making (`L`), or one that is
/// made of others. `F` is the type of the functions that read tags.
#[derive(Debug)]
pub enum CombinedValidator<L, F> {
    Leaf(L),
    Field(FieldValidator<L, F>),
    Model(ModelValidator<L, F>),
    Union(UnionValidator<L, F>),
    TaggedUnion(TaggedUnionValidator<L, F>),
}

impl<L: Validator, F: TagFunction> CombinedValidator<L, F> {
    /// The validator, as what it does.
    pub open spec fn view(&self) -> ValidatorView
        decreases self,
    {
        match self {
            CombinedValidator::Leaf(leaf) => leaf_view(*leaf),
            CombinedValidator::Field(field) => field@.as_validator(),
            CombinedValidator::Model(model) => model@.as_validator(),
            CombinedValidator::Union(union) => union@.as_validator(),
            CombinedValidator::TaggedUnion(union) => union@.as_validator(),
        }
    }

    /// The name under which errors of the validator are located.
    pub fn get_name(&self) -> (r: &str)
        ensures
            r@ == self@.name,
        decreases self,
    {
        match self {
            CombinedValidator::Leaf(leaf) => leaf.get_name(),
            CombinedValidator::Field(field) => field.get_name(),
            CombinedValidator::Model(model) => model.get_name(),
            CombinedValidator::Union(union) => union.get_name(),
            CombinedValidator::TaggedUnion(union) => union.get_name(),
        }
    }

    /// The strictness that the validator was itself given, if any.
    pub fn field_strict(&self) -> (r: Option<bool>)
        ensures
            r == self@.strict,
    {
        match self {
            CombinedValidator::Leaf(leaf) => leaf.field_strict(),
            CombinedValidator::Field(field) => field.strict,
            CombinedValidator::Model(_) => None,
            CombinedValidator::Union(_) => None,
            CombinedValidator::TaggedUnion(_) => None,
        }
    }

    /// Validates an input.
    pub fn validate(&self, input: &Arc<Value>, state: &mut ValidationState) -> (r: ValResult)
        ensures
            self@.yields(
                **input,
                *old(state),
                (Outcome { result: result_view(r), state: *final(state) }),
            ),
        decreases self, 0nat,
    {
        match self {
            CombinedValidator::Leaf(leaf) => leaf.validate(input, state),
            CombinedValidator::Field(field) => field.validate(input, state),
            CombinedValidator::Model(model) => model.validate(input, state),
            CombinedValidator::Union(union) => union.validate(input, state),
            CombinedValidator::TaggedUnion(union) => union.validate(input, state),
        }
    }
}

} // verus!
