//! Models: validators of inputs with named fields.
use std::sync::Arc;

use crate::combined::CombinedValidator;
use crate::errors::{
    append_located, line_error, lines_view, located, result_view, ErrorType, ErrorTypeView,
    LineErrorView, LocItem, LocItemView, ValError, ValErrorView, ValLineError, ValResult,
};
use crate::state::{floored, with_fields, Exactness, ValidationState};
use crate::union::{effective, outcome_lines, rejects};
use crate::validator::{Outcome, TagFunction, Validator, ValidatorView};
use crate::value::{field, held, spec_field, Fields, Value};
use vstd::pervasive::arbitrary;
use vstd::prelude::*;

verus! {

/// A field of a model.
#[derive(Debug)]
pub struct Field<L, F> {
    pub name: String,
    pub validator: Arc<CombinedValidator<L, F>>,
    /// The strictness of the field, where it has one of its own.
    pub strict: Option<bool>,
    /// Whether the field may not be set once the model is made. Validation does not look at it.
    pub frozen: bool,
}

/// Validates the fields of an input.
#[derive(Debug)]
pub struct ModelValidator<L, F> {
    pub name: String,
    pub fields: Vec<Field<L, F>>,
    pub strict: bool,
    /// Whether the one field of the model is the whole input. A model of another number of
    /// fields has no such field.
    pub root_model: bool,
    /// Whether attributes of the input may be read as its fields, where the validation does
    /// not say.
    pub from_attributes: bool,
}

/// A field of a model, as what it does.
pub struct ModelFieldView {
    pub name: String,
    pub validator: ValidatorView,
    pub strict: Option<bool>,
}

/// A model, as what it does.
pub struct ModelView {
    pub name: Seq<char>,
    pub fields: Seq<ModelFieldView>,
    pub strict: bool,
    pub root_model: bool,
    pub from_attributes: bool,
}

impl ModelView {
    /// Whether the one field of the model is the whole input.
    pub open spec fn is_root(self) -> bool {
        self.root_model && self.fields.len() == 1
    }

    /// Whether attributes of the input may be read as its fields.
    pub open spec fn reads_attributes(self, before: ValidationState) -> bool {
        match before.extra.from_attributes {
            Some(b) => b,
            None => self.from_attributes,
        }
    }

    /// The named parts of the input; `None` where it has none that may be read.
    pub open spec fn parts(self, input: Value, before: ValidationState) -> Option<Fields> {
        input.spec_model_fields(before.strict || self.strict, self.reads_attributes(before))
    }

    /// The part of the input that a field is read from; `None` where it is missing.
    pub open spec fn part(self, i: int, input: Value, before: ValidationState) -> Option<Value> {
        if self.is_root() {
            Some(input)
        } else {
            match self.parts(input, before) {
                Some(parts) => spec_field(parts@, self.fields[i].name@),
                None => None,
            }
        }
    }

    /// The state between two fields: as the last field left it, with the strictness of before.
    pub open spec fn between(
        before: ValidationState,
        trace: Seq<Outcome>,
        i: int,
    ) -> ValidationState {
        if i == 0 {
            before
        } else {
            ValidationState { strict: before.strict, ..trace[i - 1].state }
        }
    }

    /// The state that a field starts from. The field's own strictness holds, where it has one;
    /// else that of the model or of the validation.
    pub open spec fn entry(
        self,
        before: ValidationState,
        trace: Seq<Outcome>,
        i: int,
    ) -> ValidationState {
        ValidationState {
            strict: effective(self.fields[i].strict, self.strict, before.strict),
            ..Self::between(before, trace, i)
        }
    }

    /// Whether an outcome may be that of a field: one of its validator, the exception that
    /// reading the field raised, or the error of a missing field.
    pub open spec fn field_yields(
        self,
        i: int,
        input: Value,
        before: ValidationState,
        entry: ValidationState,
        outcome: Outcome,
    ) -> bool {
        match self.part(i, input, before) {
            Some(Value::Raised(id)) => {
                &&& outcome.state == entry
                &&& outcome.result == Err::<Value, ValErrorView>(ValErrorView::InternalErr(id))
            },
            Some(part) => self.fields[i].validator.yields(part, entry, outcome),
            None => {
                &&& outcome.state == entry
                &&& outcome.result == Err::<Value, ValErrorView>(
                    ValErrorView::LineErrors(seq![line_error(ErrorTypeView::Missing, input)]),
                )
            },
        }
    }

    /// Whether outcomes may be those of the first fields, in order.
    #[verifier::opaque]
    pub open spec fn tried(
        self,
        input: Value,
        before: ValidationState,
        trace: Seq<Outcome>,
    ) -> bool {
        &&& trace.len() <= self.fields.len()
        &&& forall|i: int|
            0 <= i < trace.len() ==> self.field_yields(
                i,
                input,
                before,
                self.entry(before, trace, i),
                #[trigger] trace[i],
            )
    }

    /// One more field is tried.
    proof fn lemma_push(
        self,
        input: Value,
        before: ValidationState,
        trace: Seq<Outcome>,
        outcome: Outcome,
    )
        requires
            self.tried(input, before, trace),
            trace.len() < self.fields.len(),
            self.field_yields(
                trace.len() as int,
                input,
                before,
                self.entry(before, trace, trace.len() as int),
                outcome,
            ),
        ensures
            self.tried(input, before, trace.push(outcome)),
    {
        reveal(ModelView::tried);
        let next = trace.push(outcome);
        assert forall|i: int| 0 <= i < next.len() implies self.field_yields(
            i,
            input,
            before,
            self.entry(before, next, i),
            #[trigger] next[i],
        ) by {
            if i < trace.len() {
                assert(next[i] == trace[i]);
                assert(self.entry(before, next, i) == self.entry(before, trace, i));
            }
        }
    }

    /// Whether outcomes are those of the fields, in order up to the first failure that is not
    /// about the input.
    pub open spec fn run(self, input: Value, before: ValidationState, trace: Seq<Outcome>) -> bool {
        &&& self.tried(input, before, trace)
        &&& forall|i: int|
            0 <= i < trace.len() - 1 ==> (#[trigger] trace[i]).result is Ok || rejects(trace[i])
        &&& trace.len() < self.fields.len() ==> trace.len() > 0 && trace.last().result is Err
            && !rejects(trace.last())
    }

    /// The errors of outcomes of the first fields, each under its field, in order.
    pub open spec fn trace_lines(self, trace: Seq<Outcome>) -> Seq<LineErrorView>
        decreases trace.len(),
    {
        if trace.len() == 0 {
            Seq::empty()
        } else {
            self.trace_lines(trace.drop_last()) + located(
                outcome_lines(trace.last()),
                LocItemView::S(self.fields[trace.len() - 1].name@),
            )
        }
    }

    /// Whether an outcome is what the model makes of the outcomes of its fields.
    pub open spec fn makes(
        self,
        before: ValidationState,
        trace: Seq<Outcome>,
        outcome: Outcome,
    ) -> bool {
        let last = Self::between(before, trace, trace.len() as int);
        if trace.len() > 0 && trace.last().result is Err && !rejects(trace.last()) {
            outcome == (Outcome { result: trace.last().result, state: last })
        } else if exists|i: int| 0 <= i < trace.len() && rejects(#[trigger] trace[i]) {
            outcome == (Outcome {
                result: Err(ValErrorView::LineErrors(self.trace_lines(trace))),
                state: last,
            })
        } else {
            &&& outcome.result matches Ok(Value::Object { attributes, text })
            &&& text@ == self.name
            &&& attributes@.len() == trace.len()
            &&& forall|i: int|
                0 <= i < trace.len() ==> (#[trigger] attributes@[i]).0 == self.fields[i].name
                    && trace[i].result == Ok::<Value, ValErrorView>(*attributes@[i].1)
            &&& outcome.state == (ValidationState {
                exactness: floored(last.exactness, Exactness::Lax),
                fields_set_count: with_fields(last.fields_set_count, trace.len() as usize),
                ..last
            })
        }
    }

    /// Whether validating an input from a state may end with an outcome.
    pub open spec fn yields(self, input: Value, before: ValidationState, outcome: Outcome) -> bool {
        if !self.is_root() && self.parts(input, before) is None {
            outcome == (Outcome {
                result: Err(
                    ValErrorView::LineErrors(
                        seq![
                            line_error(
                                if self.reads_attributes(before) {
                                    ErrorTypeView::ModelAttributesType
                                } else {
                                    ErrorTypeView::DictType
                                },
                                input,
                            ),
                        ],
                    ),
                ),
                state: before,
            })
        } else {
            exists|trace: Seq<Outcome>| #[trigger]
                self.run(input, before, trace) && self.makes(before, trace, outcome)
        }
    }

    /// The validator that the model is.
    pub open spec fn as_validator(self) -> ValidatorView {
        ValidatorView {
            name: self.name,
            strict: None,
            relation: |input: Value, before: ValidationState, outcome: Outcome|
                self.yields(input, before, outcome),
        }
    }
}

impl<L: Validator, F: TagFunction> ModelValidator<L, F> {
    /// The model, as what it does.
    pub open spec fn view(&self) -> ModelView
        decreases self,
    {
        ModelView {
            name: self.name@,
            fields: Seq::new(
                self.fields@.len(),
                |i: int|
                    if 0 <= i < self.fields@.len() {
                        ModelFieldView {
                            name: self.fields@[i].name,
                            validator: self.fields@[i].validator@,
                            strict: self.fields@[i].strict,
                        }
                    } else {
                        arbitrary()
                    },
            ),
            strict: self.strict,
            root_model: self.root_model,
            from_attributes: self.from_attributes,
        }
    }

    /// Validates an input.
    pub fn validate(&self, input: &Arc<Value>, state: &mut ValidationState) -> (r: ValResult)
        ensures
            self@.yields(
                **input,
                *old(state),
                (Outcome { result: result_view(r), state: *final(state) }),
            ),
        decreases self, 0nat,
    {
        let ghost model = self@;
        let ghost value = held(input);
        let ghost before = *state;
        let ghost mut trace: Seq<Outcome> = Seq::empty();
        let old_strict = state.strict;
        let is_root = self.root_model && self.fields.len() == 1;
        let from_attributes = match state.extra().from_attributes {
            Some(b) => b,
            None => self.from_attributes,
        };
        let parts = input.model_fields(state.strict_or(self.strict), from_attributes);
        if !is_root && parts.is_none() {
            return if from_attributes {
                Err(ValError::new(ErrorType::ModelAttributesType, input))
            } else {
                Err(ValError::new(ErrorType::DictType, input))
            };
        }
        let mut attributes: Fields = Vec::new();
        let mut lines: Vec<ValLineError> = Vec::new();
        let mut rejected = false;
        let mut i: usize = 0;
        assert(model.tried(value, before, trace)) by {
            reveal(ModelView::tried);
        }
        assert(lines_view(lines@) =~= model.trace_lines(trace));
        while i < self.fields.len()
            invariant
                0 <= i <= self.fields.len(),
                model == self@,
                value == **input,
                before == *old(state),
                old_strict == before.strict,
                is_root == model.is_root(),
                match parts {
                    Some(fields) => model.parts(value, before) == Some(*fields),
                    None => model.parts(value, before) is None,
                },
                trace.len() == i,
                *state == ModelView::between(before, trace, i as int),
                model.tried(value, before, trace),
                forall|k: int|
                    0 <= k < trace.len() ==> (#[trigger] trace[k]).result is Ok || rejects(
                        trace[k],
                    ),
                rejected == (exists|k: int| 0 <= k < trace.len() && rejects(#[trigger] trace[k])),
                lines_view(lines@) == model.trace_lines(trace),
                !rejected ==> attributes@.len() == i && forall|k: int|
                    0 <= k < i ==> (#[trigger] attributes@[k]).0 == model.fields[k].name
                        && trace[k].result == Ok::<Value, ValErrorView>(*attributes@[k].1),
            decreases self.fields.len() - i,
        {
            let item = &self.fields[i];
            state.strict = match item.strict {
                Some(strict) => strict,
                None => self.strict || state.strict,
            };
            let part = if is_root {
                Some(input)
            } else {
                match parts {
                    Some(fields) => field(fields, &item.name),
                    None => None,
                }
            };
            let ghost entry = *state;
            assert(entry == model.entry(before, trace, i as int));
            let result = match part {
                Some(part) => match &**part {
                    Value::Raised(id) => Err(ValError::InternalErr(*id)),
                    _ => item.validator.validate(part, state),
                },
                None => Err(ValError::new(ErrorType::Missing, input)),
            };
            let ghost outcome = Outcome { result: result_view(result), state: *state };
            assert(model.field_yields(i as int, value, before, entry, outcome));
            let ghost next = trace.push(outcome);
            state.strict = old_strict;
            proof {
                assert(next.drop_last() =~= trace);
                model.lemma_push(value, before, trace, outcome);
            }
            match result {
                Ok(made) => {
                    attributes.push((item.name.clone(), made));
                    assert(lines_view(lines@) =~= model.trace_lines(next));
                    assert(rejected == (exists|k: int|
                        0 <= k < next.len() && rejects(#[trigger] next[k]))) by {
                        if rejected {
                            let k = choose|k: int|
                                0 <= k < trace.len() && rejects(#[trigger] trace[k]);
                            assert(rejects(next[k]));
                        }
                    }
                },
                Err(ValError::LineErrors(found)) => {
                    rejected = true;
                    append_located(&mut lines, found, &LocItem::S(item.name.clone()));
                    assert(rejects(next[i as int]));
                },
                otherwise => {
                    assert(model.run(value, before, next));
                    return otherwise;
                },
            }
            proof {
                trace = next;
            }
            i += 1;
        }
        assert(model.run(value, before, trace));
        if rejected {
            Err(ValError::LineErrors(lines))
        } else {
            state.floor_exactness(Exactness::Lax);
            state.add_fields_set(self.fields.len());
            let r = Ok(Arc::new(Value::Object { attributes, text: self.name.clone() }));
            assert(model.makes(
                before,
                trace,
                Outcome { result: result_view(r), state: *state },
            ));
            r
        }
    }

    /// The name under which errors of the model are located.
    pub fn get_name(&self) -> (r: &str)
        ensures
            r@ == self.name@,
    {
        self.name.as_str()
    }
}

} // verus!
