//! Validators with a strictness of their own.
use std::sync::Arc;

use crate::combined::CombinedValidator;
use crate::errors::{result_view, ValResult};
use crate::state::ValidationState;
use crate::validator::{Outcome, TagFunction, Validator, ValidatorView};
use crate::value::Value;
use vstd::prelude::*;

verus! {

/// A validator with a strictness of its own, which holds whatever is said further out.
#[derive(Debug)]
pub struct FieldValidator<L, F> {
    pub validator: Arc<CombinedValidator<L, F>>,
    pub strict: Option<bool>,
}

/// A field, as what it does.
pub struct FieldView {
    pub validator: ValidatorView,
    pub strict: Option<bool>,
}

/// An outcome with another strictness in its state.
pub open spec fn with_strict(outcome: Outcome, strict: bool) -> Outcome {
    Outcome { state: (ValidationState { strict, ..outcome.state }), ..outcome }
}

impl FieldView {
    /// The state that the field's validator starts from.
    pub open spec fn entry(self, before: ValidationState) -> ValidationState {
        ValidationState {
            strict: match self.strict {
                Some(strict) => strict,
                None => before.strict,
            },
            ..before
        }
    }

    /// Whether validating an input from a state may end with an outcome: one of the field's
    /// validator under the field's strictness, with the strictness of before put back.
    pub open spec fn yields(self, input: Value, before: ValidationState, outcome: Outcome) -> bool {
        exists|inner: Outcome| #[trigger]
            self.validator.yields(input, self.entry(before), inner) && outcome == with_strict(
                inner,
                before.strict,
            )
    }

    /// The validator that the field is.
    pub open spec fn as_validator(self) -> ValidatorView {
        ValidatorView {
            name: self.validator.name,
            strict: self.strict,
            relation: |input: Value, before: ValidationState, outcome: Outcome|
                self.yields(input, before, outcome),
        }
    }
}

impl<L: Validator, F: TagFunction> FieldValidator<L, F> {
    /// The field, as what it does.
    pub open spec fn view(&self) -> FieldView
        decreases self,
    {
        FieldView { validator: self.validator@, strict: self.strict }
    }

    /// The name under which errors of the field are located.
    pub fn get_name(&self) -> (r: &str)
        ensures
            r@ == self@.validator.name,
        decreases self,
    {
        self.validator.get_name()
    }

    /// Validates an input under the field's strictness.
    pub fn validate(&self, input: &Arc<Value>, state: &mut ValidationState) -> (r: ValResult)
        ensures
            self@.yields(
                **input,
                *old(state),
                (Outcome { result: result_view(r), state: *final(state) }),
            ),
        decreases self, 0nat,
    {
        let old_strict = state.strict;
        match self.strict {
            Some(strict) => {
                state.strict = strict;
            },
            None => {},
        }
        let result = self.validator.validate(input, state);
        let ghost inner = Outcome { result: result_view(result), state: *state };
        assert(self@.validator.yields(**input, self@.entry(*old(state)), inner));
        state.strict = old_strict;
        result
    }
}

} // verus!
