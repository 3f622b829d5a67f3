//! Validators of single values.
use std::sync::Arc;

use crate::errors::{
    line_error, result_view, ErrorType, ErrorTypeView, ValError, ValErrorView, ValResult,
};
use crate::state::{floored, Exactness, ValidationState};
use crate::text::{parse_int, parsed_int};
use crate::validator::{Outcome, Validator};
use crate::value::{share, Value};
use vstd::prelude::*;

verus! {

/// Validates an integer.
#[derive(Clone, Copy, Debug, PartialEq, Eq)]
pub struct IntValidator {
    pub strict: bool,
}

/// Validates a string.
#[derive(Clone, Copy, Debug, PartialEq, Eq)]
pub struct StrValidator {
    pub strict: bool,
}

/// A single value that was accepted, converted, or found wrong.
pub enum Reading {
    Taken,
    Converted(Value),
    Wrong(ErrorTypeView),
}

/// What becomes of an input that is read as a single value: taken as it is, the match stays
/// as it was; converted, the match is lax; found wrong, it is the one error.
pub open spec fn reading_outcome(
    reading: Reading,
    input: Value,
    before: ValidationState,
    outcome: Outcome,
) -> bool {
    match reading {
        Reading::Taken => outcome == (Outcome { result: Ok(input), state: before }),
        Reading::Converted(value) => outcome == (Outcome {
            result: Ok(value),
            state: ValidationState {
                exactness: floored(before.exactness, Exactness::Lax),
                ..before
            },
        }),
        Reading::Wrong(error_type) => {
            &&& outcome.state == before
            &&& outcome.result matches Err(ValErrorView::LineErrors(lines))
            &&& lines == seq![line_error(error_type, input)]
        },
    }
}

/// How an input reads as an integer. Strict validation takes integers alone; otherwise a
/// boolean and the text of an integer are converted.
pub open spec fn int_reading(input: Value, strict: bool) -> Reading {
    match input {
        Value::Int(_) => Reading::Taken,
        Value::Bool(b) => if strict {
            Reading::Wrong(ErrorTypeView::IntType)
        } else {
            Reading::Converted(Value::Int(if b { 1 } else { 0 }))
        },
        Value::Str(s) => text_int_reading(s@, strict),
        Value::Text(s) => text_int_reading(s@, strict),
        _ => Reading::Wrong(ErrorTypeView::IntType),
    }
}

/// How a text reads as an integer.
pub open spec fn text_int_reading(text: Seq<char>, strict: bool) -> Reading {
    if strict {
        Reading::Wrong(ErrorTypeView::IntType)
    } else {
        match parsed_int(text) {
            Some(i) => Reading::Converted(Value::Int(i as i64)),
            None => Reading::Wrong(ErrorTypeView::IntParsing),
        }
    }
}

/// How an input reads as a string. Strict validation takes strings alone; otherwise text whose
/// type is not known is taken for a string.
pub open spec fn str_reading(input: Value, strict: bool) -> Reading {
    match input {
        Value::Str(_) => Reading::Taken,
        Value::Text(s) => if strict {
            Reading::Wrong(ErrorTypeView::StringType)
        } else {
            Reading::Converted(Value::Str(s))
        },
        _ => Reading::Wrong(ErrorTypeView::StringType),
    }
}

fn converted(value: Value, state: &mut ValidationState) -> (r: ValResult)
    ensures
        r == Ok::<Arc<Value>, ValError>(Arc::new(value)),
        *final(state) == (ValidationState {
            exactness: floored(old(state).exactness, Exactness::Lax),
            ..*old(state)
        }),
{
    state.floor_exactness(Exactness::Lax);
    Ok(Arc::new(value))
}

fn text_to_int(
    text: &String,
    strict: bool,
    input: &Arc<Value>,
    state: &mut ValidationState,
) -> (r: ValResult)
    ensures
        reading_outcome(
            text_int_reading(text@, strict),
            **input,
            *old(state),
            (Outcome { result: result_view(r), state: *final(state) }),
        ),
{
    if strict {
        Err(ValError::new(ErrorType::IntType, input))
    } else {
        match parse_int(text.as_str()) {
            Some(i) => converted(Value::Int(i), state),
            None => Err(ValError::new(ErrorType::IntParsing, input)),
        }
    }
}

impl Validator for IntValidator {
    open spec fn spec_name(&self) -> Seq<char> {
        "int"@
    }

    open spec fn spec_field_strict(&self) -> Option<bool> {
        Some(self.strict)
    }

    open spec fn may_yield(&self, input: Value, before: ValidationState, outcome: Outcome) -> bool {
        reading_outcome(int_reading(input, before.strict || self.strict), input, before, outcome)
    }

    fn get_name(&self) -> (r: &str) {
        "int"
    }

    fn field_strict(&self) -> (r: Option<bool>) {
        Some(self.strict)
    }

    fn validate(&self, input: &Arc<Value>, state: &mut ValidationState) -> (r: ValResult) {
        let strict = state.strict_or(self.strict);
        match &**input {
            Value::Int(_) => Ok(share(input)),
            Value::Bool(b) => if strict {
                Err(ValError::new(ErrorType::IntType, input))
            } else {
                converted(Value::Int(if *b { 1 } else { 0 }), state)
            },
            Value::Str(s) => text_to_int(s, strict, input, state),
            Value::Text(s) => text_to_int(s, strict, input, state),
            _ => Err(ValError::new(ErrorType::IntType, input)),
        }
    }
}

impl Validator for StrValidator {
    open spec fn spec_name(&self) -> Seq<char> {
        "str"@
    }

    open spec fn spec_field_strict(&self) -> Option<bool> {
        Some(self.strict)
    }

    open spec fn may_yield(&self, input: Value, before: ValidationState, outcome: Outcome) -> bool {
        reading_outcome(str_reading(input, before.strict || self.strict), input, before, outcome)
    }

    fn get_name(&self) -> (r: &str) {
        "str"
    }

    fn field_strict(&self) -> (r: Option<bool>) {
        Some(self.strict)
    }

    fn validate(&self, input: &Arc<Value>, state: &mut ValidationState) -> (r: ValResult) {
        let strict = state.strict_or(self.strict);
        match &**input {
            Value::Str(_) => Ok(share(input)),
            Value::Text(s) => if strict {
                Err(ValError::new(ErrorType::StringType, input))
            } else {
                converted(Value::Str(s.clone()), state)
            },
            _ => Err(ValError::new(ErrorType::StringType, input)),
        }
    }
}

/// A validator of a single value.
#[derive(Clone, Copy, Debug, PartialEq, Eq)]
pub enum ScalarValidator {
    Int(IntValidator),
    Str(StrValidator),
}

impl Validator for ScalarValidator {
    open spec fn spec_name(&self) -> Seq<char> {
        match self {
            ScalarValidator::Int(v) => v.spec_name(),
            ScalarValidator::Str(v) => v.spec_name(),
        }
    }

    open spec fn spec_field_strict(&self) -> Option<bool> {
        match self {
            ScalarValidator::Int(v) => v.spec_field_strict(),
            ScalarValidator::Str(v) => v.spec_field_strict(),
        }
    }

    open spec fn may_yield(&self, input: Value, before: ValidationState, outcome: Outcome) -> bool {
        match self {
            ScalarValidator::Int(v) => v.may_yield(input, before, outcome),
            ScalarValidator::Str(v) => v.may_yield(input, before, outcome),
        }
    }

    fn get_name(&self) -> (r: &str) {
        match self {
            ScalarValidator::Int(v) => v.get_name(),
            ScalarValidator::Str(v) => v.get_name(),
        }
    }

    fn field_strict(&self) -> (r: Option<bool>) {
        match self {
            ScalarValidator::Int(v) => v.field_strict(),
            ScalarValidator::Str(v) => v.field_strict(),
        }
    }

    fn validate(&self, input: &Arc<Value>, state: &mut ValidationState) -> (r: ValResult) {
        match self {
            ScalarValidator::Int(v) => v.validate(input, state),
            ScalarValidator::Str(v) => v.validate(input, state),
        }
    }
}

} // verus!
