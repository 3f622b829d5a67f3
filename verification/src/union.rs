//! Unions.
use std::sync::Arc;

use crate::choice_errors::{choice_lines, MaybeErrors};
use crate::combined::CombinedValidator;
use crate::errors::{
    located, result_view, CustomError, LineErrorView, LocItemView, ValError, ValErrorView, ValResult,
};
use crate::state::{floored, with_fields, Exactness, ValidationState};
use crate::validator::{Outcome, TagFunction, Validator, ValidatorView};
use crate::value::{held, Value};
use vstd::pervasive::arbitrary;
use vstd::prelude::*;

verus! {

/// How a union picks among its choices.
#[derive(Clone, Copy, Debug, PartialEq, Eq, Structural)]
pub enum UnionMode {
    /// The choice that matches best.
    Smart,
    /// The first choice that matches.
    LeftToRight,
}

/// Validates an input against several choices.
#[derive(Debug)]
pub struct UnionValidator<L, F> {
    pub mode: UnionMode,
    pub choices: Vec<(CombinedValidator<L, F>, Option<String>)>,
    pub custom_error: Option<CustomError>,
    pub name: String,
    pub strict: bool,
}

/// The strictness of a choice: its own, where it was given one, else that of the union or of
/// the validation.
pub open spec fn effective(own: Option<bool>, union_strict: bool, state_strict: bool) -> bool {
    match own {
        Some(strict) => strict,
        None => union_strict || state_strict,
    }
}

/// The errors of an outcome about the input.
pub open spec fn outcome_lines(outcome: Outcome) -> Seq<LineErrorView> {
    match outcome.result {
        Err(ValErrorView::LineErrors(lines)) => lines,
        _ => Seq::empty(),
    }
}

/// Whether an outcome says that the input is not valid.
pub open spec fn rejects(outcome: Outcome) -> bool {
    outcome.result matches Err(ValErrorView::LineErrors(_))
}

/// Whether an outcome ends a smart union at once: an exact match that set no fields, or a
/// failure that is not about the input.
pub open spec fn decisive(outcome: Outcome) -> bool {
    match outcome.result {
        Ok(_) => outcome.state.exactness == Some(Exactness::Exact)
            && outcome.state.fields_set_count is None,
        Err(_) => !rejects(outcome),
    }
}

/// How closely a success matched.
pub open spec fn match_exactness(outcome: Outcome) -> Exactness {
    match outcome.state.exactness {
        Some(exactness) => exactness,
        None => Exactness::Lax,
    }
}

/// Whether a match is better than the current one: by the number of fields set, where both set
/// some and the numbers differ, else by exactness.
pub open spec fn better_match(
    current_exactness: Exactness,
    current_fields_set: Option<usize>,
    new_exactness: Exactness,
    new_fields_set: Option<usize>,
) -> bool {
    match (current_fields_set, new_fields_set) {
        (Some(c), Some(n)) => if c != n {
            c < n
        } else {
            current_exactness.rank() < new_exactness.rank()
        },
        _ => current_exactness.rank() < new_exactness.rank(),
    }
}

/// Whether one success is a better match than another.
pub open spec fn beats(new: Outcome, current: Outcome) -> bool {
    better_match(
        match_exactness(current),
        current.state.fields_set_count,
        match_exactness(new),
        new.state.fields_set_count,
    )
}

/// The best match among outcomes: each success takes the place of the best one before it where
/// it beats it.
pub open spec fn best_match(trace: Seq<Outcome>) -> Option<int>
    decreases trace.len(),
{
    if trace.len() == 0 {
        None
    } else {
        let best = best_match(trace.drop_last());
        if trace.last().result is Ok && (best is None || beats(
            trace.last(),
            trace[best->0],
        )) {
            Some(trace.len() - 1)
        } else {
            best
        }
    }
}

/// Whether a success is a better match than the best one so far.
pub fn is_better_match(
    current_exactness: Exactness,
    current_fields_set: Option<usize>,
    new_exactness: Exactness,
    new_fields_set: Option<usize>,
) -> (r: bool)
    ensures
        r == better_match(
            current_exactness,
            current_fields_set,
            new_exactness,
            new_fields_set,
        ),
        current_fields_set is Some && new_fields_set is Some && current_fields_set->0
            < new_fields_set->0 ==> r,
        current_fields_set is Some && new_fields_set is Some && new_fields_set->0
            < current_fields_set->0 ==> !r,
        current_fields_set is None || new_fields_set is None || current_fields_set
            == new_fields_set ==> r == (new_exactness is Exact && current_exactness !is Exact
            || new_exactness is Strict && current_exactness is Lax),
{
    match (current_fields_set, new_fields_set) {
        (Some(c), Some(n)) => if c != n {
            c < n
        } else {
            current_exactness.is_looser_than(new_exactness)
        },
        _ => current_exactness.is_looser_than(new_exactness),
    }
}

/// A union, as what it does.
pub struct UnionView {
    pub mode: UnionMode,
    /// The choices, each with its label, if any.
    pub choices: Seq<(ValidatorView, Option<Seq<char>>)>,
    pub custom_error: Option<CustomError>,
    pub name: Seq<char>,
    pub strict: bool,
}

impl UnionView {
    /// The step under which the errors of a choice are located: its label, or else its name.
    pub open spec fn choice_label(self, i: int) -> LocItemView {
        match self.choices[i].1 {
            Some(label) => LocItemView::S(label),
            None => LocItemView::S(self.choices[i].0.name),
        }
    }

    /// The errors of outcomes of the first choices, each under its choice, in order.
    pub open spec fn trace_lines(self, trace: Seq<Outcome>) -> Seq<LineErrorView>
        decreases trace.len(),
    {
        if trace.len() == 0 {
            Seq::empty()
        } else {
            self.trace_lines(trace.drop_last()) + located(
                outcome_lines(trace.last()),
                self.choice_label(trace.len() - 1),
            )
        }
    }

    /// The failure of the union where every choice rejected the input.
    pub open spec fn trace_error(self, input: Value, trace: Seq<Outcome>) -> ValErrorView {
        match self.custom_error {
            Some(custom_error) => custom_error.spec_as_val_error(input),
            None => ValErrorView::LineErrors(self.trace_lines(trace)),
        }
    }

    /// The state between two choices: as the last choice left it, with the strictness of before.
    pub open spec fn between(before: ValidationState, trace: Seq<Outcome>, i: int) -> ValidationState {
        if i == 0 {
            before
        } else {
            ValidationState { strict: before.strict, ..trace[i - 1].state }
        }
    }

    /// The strictness that a choice is validated with.
    pub open spec fn choice_strict(self, i: int, state_strict: bool) -> bool {
        effective(self.choices[i].0.strict, self.strict, state_strict)
    }

    /// The state that a choice of a smart union starts from.
    pub open spec fn smart_entry(
        self,
        before: ValidationState,
        trace: Seq<Outcome>,
        i: int,
    ) -> ValidationState {
        ValidationState {
            exactness: Some(Exactness::Exact),
            fields_set_count: None,
            strict: self.choice_strict(i, before.strict),
            extra: Self::between(before, trace, i).extra,
        }
    }

    /// Whether outcomes may be those of the first choices, tried in order by a smart union.
    #[verifier::opaque]
    pub open spec fn smart_tried(
        self,
        input: Value,
        before: ValidationState,
        trace: Seq<Outcome>,
    ) -> bool {
        &&& trace.len() <= self.choices.len()
        &&& forall|i: int|
            0 <= i < trace.len() ==> self.choices[i].0.yields(
                input,
                self.smart_entry(before, trace, i),
                #[trigger] trace[i],
            )
    }

    /// One more choice is tried.
    proof fn lemma_smart_push(
        self,
        input: Value,
        before: ValidationState,
        trace: Seq<Outcome>,
        outcome: Outcome,
    )
        requires
            self.smart_tried(input, before, trace),
            trace.len() < self.choices.len(),
            self.choices[trace.len() as int].0.yields(
                input,
                self.smart_entry(before, trace, trace.len() as int),
                outcome,
            ),
        ensures
            self.smart_tried(input, before, trace.push(outcome)),
    {
        reveal(UnionView::smart_tried);
        let next = trace.push(outcome);
        assert forall|i: int| 0 <= i < next.len() implies self.choices[i].0.yields(
            input,
            self.smart_entry(before, next, i),
            #[trigger] next[i],
        ) by {
            if i < trace.len() {
                assert(next[i] == trace[i]);
                assert(self.smart_entry(before, next, i) == self.smart_entry(before, trace, i));
            }
        }
    }

    /// Whether outcomes are those of the choices of a smart union, tried in order up to the
    /// first decisive one.
    pub open spec fn smart_run(
        self,
        input: Value,
        before: ValidationState,
        trace: Seq<Outcome>,
    ) -> bool {
        &&& self.smart_tried(input, before, trace)
        &&& forall|i: int| 0 <= i < trace.len() - 1 ==> !decisive(#[trigger] trace[i])
        &&& trace.len() < self.choices.len() ==> trace.len() > 0 && decisive(trace.last())
    }

    /// What a smart union makes of the outcomes of its choices.
    pub open spec fn smart_outcome(
        self,
        input: Value,
        before: ValidationState,
        trace: Seq<Outcome>,
    ) -> Outcome {
        let last = Self::between(before, trace, trace.len() as int);
        let kept = ValidationState { extra: last.extra, ..before };
        if trace.len() > 0 && decisive(trace.last()) {
            Outcome {
                result: trace.last().result,
                state: if trace.last().result is Ok {
                    kept
                } else {
                    last
                },
            }
        } else {
            match best_match(trace) {
                Some(b) => Outcome {
                    result: trace[b].result,
                    state: ValidationState {
                        exactness: floored(before.exactness, match_exactness(trace[b])),
                        fields_set_count: match trace[b].state.fields_set_count {
                            Some(count) => with_fields(before.fields_set_count, count),
                            None => before.fields_set_count,
                        },
                        ..kept
                    },
                },
                None => Outcome { result: Err(self.trace_error(input, trace)), state: kept },
            }
        }
    }

    /// The state that a choice of a left-to-right union starts from.
    pub open spec fn left_to_right_entry(
        self,
        before: ValidationState,
        trace: Seq<Outcome>,
        i: int,
    ) -> ValidationState {
        ValidationState {
            strict: self.choice_strict(i, before.strict),
            ..Self::between(before, trace, i)
        }
    }

    /// Whether outcomes may be those of the first choices, tried in order from left to right.
    #[verifier::opaque]
    pub open spec fn left_to_right_tried(
        self,
        input: Value,
        before: ValidationState,
        trace: Seq<Outcome>,
    ) -> bool {
        &&& trace.len() <= self.choices.len()
        &&& forall|i: int|
            0 <= i < trace.len() ==> self.choices[i].0.yields(
                input,
                self.left_to_right_entry(before, trace, i),
                #[trigger] trace[i],
            )
    }

    /// One more choice is tried.
    proof fn lemma_left_to_right_push(
        self,
        input: Value,
        before: ValidationState,
        trace: Seq<Outcome>,
        outcome: Outcome,
    )
        requires
            self.left_to_right_tried(input, before, trace),
            trace.len() < self.choices.len(),
            self.choices[trace.len() as int].0.yields(
                input,
                self.left_to_right_entry(before, trace, trace.len() as int),
                outcome,
            ),
        ensures
            self.left_to_right_tried(input, before, trace.push(outcome)),
    {
        reveal(UnionView::left_to_right_tried);
        let next = trace.push(outcome);
        assert forall|i: int| 0 <= i < next.len() implies self.choices[i].0.yields(
            input,
            self.left_to_right_entry(before, next, i),
            #[trigger] next[i],
        ) by {
            if i < trace.len() {
                assert(next[i] == trace[i]);
                assert(self.left_to_right_entry(before, next, i) == self.left_to_right_entry(
                    before,
                    trace,
                    i,
                ));
            }
        }
    }

    /// Whether outcomes are those of the choices of a left-to-right union, tried in order up to
    /// the first that does not reject the input.
    pub open spec fn left_to_right_run(
        self,
        input: Value,
        before: ValidationState,
        trace: Seq<Outcome>,
    ) -> bool {
        &&& self.left_to_right_tried(input, before, trace)
        &&& forall|i: int| 0 <= i < trace.len() - 1 ==> rejects(#[trigger] trace[i])
        &&& trace.len() < self.choices.len() ==> trace.len() > 0 && !rejects(trace.last())
    }

    /// What a left-to-right union makes of the outcomes of its choices.
    pub open spec fn left_to_right_outcome(
        self,
        input: Value,
        before: ValidationState,
        trace: Seq<Outcome>,
    ) -> Outcome {
        Outcome {
            result: if trace.len() > 0 && !rejects(trace.last()) {
                trace.last().result
            } else {
                Err(self.trace_error(input, trace))
            },
            state: Self::between(before, trace, trace.len() as int),
        }
    }

    /// Whether validating an input in smart mode may end with an outcome.
    pub open spec fn smart_yields(
        self,
        input: Value,
        before: ValidationState,
        outcome: Outcome,
    ) -> bool {
        exists|trace: Seq<Outcome>| #[trigger]
            self.smart_run(input, before, trace) && outcome == self.smart_outcome(
                input,
                before,
                trace,
            )
    }

    /// Whether validating an input from left to right may end with an outcome.
    pub open spec fn left_to_right_yields(
        self,
        input: Value,
        before: ValidationState,
        outcome: Outcome,
    ) -> bool {
        exists|trace: Seq<Outcome>| #[trigger]
            self.left_to_right_run(input, before, trace) && outcome == self.left_to_right_outcome(
                input,
                before,
                trace,
            )
    }

    /// Whether validating an input from a state may end with an outcome.
    pub open spec fn yields(self, input: Value, before: ValidationState, outcome: Outcome) -> bool {
        match self.mode {
            UnionMode::Smart => self.smart_yields(input, before, outcome),
            UnionMode::LeftToRight => self.left_to_right_yields(input, before, outcome),
        }
    }

    /// The validator that the union is.
    pub open spec fn as_validator(self) -> ValidatorView {
        ValidatorView {
            name: self.name,
            strict: None,
            relation: |input: Value, before: ValidationState, outcome: Outcome|
                self.yields(input, before, outcome),
        }
    }
}

impl<L: Validator, F: TagFunction> UnionValidator<L, F> {
    /// The union, as what it does.
    pub open spec fn view(&self) -> UnionView
        decreases self,
    {
        UnionView {
            mode: self.mode,
            choices: Seq::new(
                self.choices@.len(),
                |i: int|
                    if 0 <= i < self.choices@.len() {
                        (
                            self.choices@[i].0@,
                            match self.choices@[i].1 {
                                Some(label) => Some(label@),
                                None => None,
                            },
                        )
                    } else {
                        arbitrary()
                    },
            ),
            custom_error: self.custom_error,
            name: self.name@,
            strict: self.strict,
        }
    }

    /// The strictness that a choice is validated with: its own, where it was given one, else
    /// that of the union or of the validation.
    pub fn effective_strict(
        &self,
        state: &ValidationState,
        validator: &CombinedValidator<L, F>,
    ) -> (r: bool)
        ensures
            r == effective(validator@.strict, self.strict, state.strict),
    {
        match validator.field_strict() {
            Some(strict) => strict,
            None => self.strict || state.strict,
        }
    }

    /// Validates an input against all choices and takes the best match.
    pub fn validate_smart(&self, input: &Arc<Value>, state: &mut ValidationState) -> (r: ValResult)
        ensures
            self@.smart_yields(
                **input,
                *old(state),
                (Outcome { result: result_view(r), state: *final(state) }),
            ),
        decreases self, 1nat,
    {
        let old_exactness = state.exactness;
        let old_fields_set_count = state.fields_set_count;
        let old_strict = state.strict;
        let ghost before = *state;
        let ghost value = held(input);
        let ghost u = self@;
        let ghost mut trace: Seq<Outcome> = Seq::empty();
        let mut errors = MaybeErrors::new(self.custom_error.as_ref());
        let mut best: Option<(Arc<Value>, Exactness, Option<usize>)> = None;
        let mut i: usize = 0;
        assert(u.smart_tried(value, before, trace)) by {
            reveal(UnionView::smart_tried);
        }
        while i < self.choices.len()
            invariant
                0 <= i <= self.choices.len(),
                trace.len() == i,
                before == *old(state),
                value == **input,
                u == self@,
                old_exactness == before.exactness,
                old_fields_set_count == before.fields_set_count,
                old_strict == before.strict,
                *state == UnionView::between(before, trace, i as int),
                u.smart_tried(value, before, trace),
                forall|k: int| 0 <= k < trace.len() ==> !decisive(#[trigger] trace[k]),
                errors.custom() == self.custom_error,
                match best {
                    Some((value, exactness, fields_set_count)) => {
                        &&& best_match(trace) matches Some(b)
                        &&& 0 <= b < trace.len()
                        &&& trace[b].result == Ok::<Value, ValErrorView>(*value)
                        &&& match_exactness(trace[b]) == exactness
                        &&& trace[b].state.fields_set_count == fields_set_count
                    },
                    None => {
                        &&& best_match(trace) is None
                        &&& self.custom_error is None ==> choice_lines(errors.gathered())
                            == u.trace_lines(trace)
                    },
                },
            decreases self.choices.len() - i,
        {
            let choice = &self.choices[i].0;
            let label = match &self.choices[i].1 {
                Some(label) => Some(label.as_str()),
                None => None,
            };
            state.exactness = Some(Exactness::Exact);
            state.fields_set_count = None;
            state.strict = self.effective_strict(state, choice);
            let result = choice.validate(input, state);
            let ghost outcome = Outcome { result: result_view(result), state: *state };
            let ghost next = trace.push(outcome);
            state.strict = old_strict;
            proof {
                assert(next.drop_last() =~= trace);
                u.lemma_smart_push(value, before, trace, outcome);
            }
            match result {
                Ok(new_success) => {
                    let is_exact = match state.exactness {
                        Some(exactness) => exactness == Exactness::Exact,
                        None => false,
                    };
                    if is_exact && state.fields_set_count.is_none() {
                        state.exactness = old_exactness;
                        state.fields_set_count = old_fields_set_count;
                        assert(u.smart_run(value, before, next));
                        return Ok(new_success);
                    }
                    let new_exactness = state.exactness.unwrap_or(Exactness::Lax);
                    let new_fields_set_count = state.fields_set_count;
                    let new_success_is_best_match = match &best {
                        Some((_, current_exactness, current_fields_set_count)) => is_better_match(
                            *current_exactness,
                            *current_fields_set_count,
                            new_exactness,
                            new_fields_set_count,
                        ),
                        None => true,
                    };
                    if new_success_is_best_match {
                        best = Some((new_success, new_exactness, new_fields_set_count));
                    }
                },
                Err(ValError::LineErrors(lines)) => {
                    if best.is_none() {
                        let ghost gathered = errors.gathered();
                        errors.push(choice.get_name(), label, lines);
                        assert(self.custom_error is None ==> errors.gathered().drop_last()
                            =~= gathered);
                    }
                },
                otherwise => {
                    assert(u.smart_run(value, before, next));
                    return otherwise;
                },
            }
            proof {
                trace = next;
            }
            i += 1;
        }
        assert(u.smart_run(value, before, trace));
        state.exactness = old_exactness;
        state.fields_set_count = old_fields_set_count;
        match best {
            Some((best_match, exactness, fields_set_count)) => {
                state.floor_exactness(exactness);
                match fields_set_count {
                    Some(count) => {
                        state.add_fields_set(count);
                    },
                    None => {},
                }
                Ok(best_match)
            },
            None => Err(errors.into_val_error(input)),
        }
    }

    /// Validates an input against the choices in order and takes the first match.
    pub fn validate_left_to_right(
        &self,
        input: &Arc<Value>,
        state: &mut ValidationState,
    ) -> (r: ValResult)
        ensures
            self@.left_to_right_yields(
                **input,
                *old(state),
                (Outcome { result: result_view(r), state: *final(state) }),
            ),
        decreases self, 1nat,
    {
        let old_strict = state.strict;
        let ghost before = *state;
        let ghost value = held(input);
        let ghost u = self@;
        let ghost mut trace: Seq<Outcome> = Seq::empty();
        let mut errors = MaybeErrors::new(self.custom_error.as_ref());
        let mut i: usize = 0;
        assert(u.left_to_right_tried(value, before, trace)) by {
            reveal(UnionView::left_to_right_tried);
        }
        while i < self.choices.len()
            invariant
                0 <= i <= self.choices.len(),
                trace.len() == i,
                before == *old(state),
                value == **input,
                u == self@,
                old_strict == before.strict,
                *state == UnionView::between(before, trace, i as int),
                u.left_to_right_tried(value, before, trace),
                forall|k: int| 0 <= k < trace.len() ==> rejects(#[trigger] trace[k]),
                errors.custom() == self.custom_error,
                self.custom_error is None ==> choice_lines(errors.gathered()) == u.trace_lines(
                    trace,
                ),
            decreases self.choices.len() - i,
        {
            let validator = &self.choices[i].0;
            let label = match &self.choices[i].1 {
                Some(label) => Some(label.as_str()),
                None => None,
            };
            state.strict = self.effective_strict(state, validator);
            let result = validator.validate(input, state);
            let ghost outcome = Outcome { result: result_view(result), state: *state };
            let ghost next = trace.push(outcome);
            state.strict = old_strict;
            proof {
                assert(next.drop_last() =~= trace);
                u.lemma_left_to_right_push(value, before, trace, outcome);
            }
            match result {
                Err(ValError::LineErrors(lines)) => {
                    let ghost gathered = errors.gathered();
                    errors.push(validator.get_name(), label, lines);
                    assert(self.custom_error is None ==> errors.gathered().drop_last() =~= gathered);
                },
                otherwise => {
                    assert(u.left_to_right_run(value, before, next));
                    return otherwise;
                },
            }
            proof {
                trace = next;
            }
            i += 1;
        }
        assert(u.left_to_right_run(value, before, trace));
        Err(errors.into_val_error(input))
    }

    /// Validates an input.
    pub fn validate(&self, input: &Arc<Value>, state: &mut ValidationState) -> (r: ValResult)
        ensures
            self@.yields(
                **input,
                *old(state),
                (Outcome { result: result_view(r), state: *final(state) }),
            ),
        decreases self, 2nat,
    {
        match self.mode {
            UnionMode::Smart => self.validate_smart(input, state),
            UnionMode::LeftToRight => self.validate_left_to_right(input, state),
        }
    }

    /// The name under which errors of the union are located.
    pub fn get_name(&self) -> (r: &str)
        ensures
            r@ == self.name@,
    {
        self.name.as_str()
    }
}

impl<L: Validator, F: TagFunction> Validator for UnionValidator<L, F> {
    open spec fn spec_name(&self) -> Seq<char> {
        self.name@
    }

    open spec fn spec_field_strict(&self) -> Option<bool> {
        None
    }

    open spec fn may_yield(&self, input: Value, before: ValidationState, outcome: Outcome) -> bool {
        self@.yields(input, before, outcome)
    }

    fn get_name(&self) -> (r: &str) {
        self.get_name()
    }

    fn field_strict(&self) -> (r: Option<bool>) {
        None
    }

    fn validate(&self, input: &Arc<Value>, state: &mut ValidationState) -> (r: ValResult) {
        self.validate(input, state)
    }
}

} // verus!
