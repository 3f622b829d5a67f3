//! What holds of unions as a whole.
use crate::combined::CombinedValidator;
use crate::errors::{line_error, located, LocItem, ValErrorView};
use crate::field::{with_strict, FieldView};
use crate::model::ModelView;
use crate::scalar::{int_reading, str_reading, Reading, ScalarValidator};
use crate::state::{Exactness, Extra, ValidationState};
use crate::tagged::{
    called_tag, lemma_find, spec_find, under_tag, DiscriminatorView, TaggedUnionView,
};
use crate::union::{
    beats, best_match, decisive, outcome_lines, rejects, UnionMode, UnionView,
};
use crate::validator::{leaf_view, Outcome, TagFunction, Validator, ValidatorView};
use crate::value::Value;
use vstd::prelude::*;

verus! {

/// Whether an outcome is a failure that is not about the input.
pub open spec fn interrupts(outcome: Outcome) -> bool {
    outcome.result is Err && !rejects(outcome)
}

/// Whether leaves of a type leave the strictness of the state as they found it.
pub open spec fn leaves_keep_strict<L: Validator>() -> bool {
    forall|leaf: L, input: Value, before: ValidationState, outcome: Outcome|
        #[trigger] leaf.may_yield(input, before, outcome) ==> outcome.state.strict == before.strict
}

/// A union leaves the strictness of the state as it found it, whatever its choices do to it and
/// however it ends.
pub proof fn law_union_restores_strict(
    union: UnionView,
    input: Value,
    before: ValidationState,
    outcome: Outcome,
)
    requires
        union.yields(input, before, outcome),
    ensures
        outcome.state.strict == before.strict,
{
}

/// Validators of single values leave the strictness of the state as they found it.
pub proof fn law_scalars_keep_strict()
    ensures
        leaves_keep_strict::<ScalarValidator>(),
{
}

/// Every validator leaves the strictness of the state as it found it, at any depth of nesting,
/// if its leaves do.
pub proof fn law_validators_restore_strict<L: Validator, F: TagFunction>(
    validator: CombinedValidator<L, F>,
    input: Value,
    before: ValidationState,
    outcome: Outcome,
)
    requires
        leaves_keep_strict::<L>(),
        validator@.yields(input, before, outcome),
    ensures
        outcome.state.strict == before.strict,
    decreases validator,
{
    match validator {
        CombinedValidator::Leaf(leaf) => {
            assert(leaf.may_yield(input, before, outcome));
        },
        CombinedValidator::TaggedUnion(tagged) => {
            let view = tagged@;
            assert(view.yields(input, before, outcome));
            let found = match view.discriminator {
                DiscriminatorView::LookupKey(key) => view.key_tag(key, input, before),
                DiscriminatorView::Function(may_tag) => {
                    let called = choose|called: Result<Value, u64>| #[trigger]
                        may_tag(input, called) && view.found_yields(
                            called_tag(called),
                            input,
                            before,
                            outcome,
                        );
                    called_tag(called)
                },
            };
            assert(view.found_yields(found, input, before, outcome));
            if let Ok(Some(tag)) = found {
                lemma_find(view.entries, tag);
                if let Some(i) = spec_find(view.entries, tag) {
                    assert(view.choice_yields(i, tag, input, before, outcome));
                    let inner = choose|inner: Outcome| #[trigger]
                        view.entries[i].1.yields(input, before, inner) && outcome
                            == under_tag(inner, tag);
                    law_validators_restore_strict(
                        tagged.lookup.entries@[i].1,
                        input,
                        before,
                        inner,
                    );
                }
            }
        },
        _ => {},
    }
}

/// Each choice that was tried started from a state of the strictness that it is validated with.
proof fn lemma_choice_entry(
    union: UnionView,
    input: Value,
    before: ValidationState,
    trace: Seq<Outcome>,
    i: int,
) -> (entry: ValidationState)
    requires
        0 <= i < trace.len(),
        union.smart_run(input, before, trace) || union.left_to_right_run(input, before, trace),
    ensures
        entry.strict == union.choice_strict(i, before.strict),
        union.choices[i].0.yields(input, entry, trace[i]),
{
    reveal(UnionView::smart_tried);
    reveal(UnionView::left_to_right_tried);
    if union.smart_run(input, before, trace) {
        union.smart_entry(before, trace, i)
    } else {
        union.left_to_right_entry(before, trace, i)
    }
}

/// A choice that was given a strictness of its own is validated with it, whatever the
/// strictness of the union and of the validation.
pub proof fn law_own_strictness_wins(
    union: UnionView,
    input: Value,
    before: ValidationState,
    trace: Seq<Outcome>,
    i: int,
    strict: bool,
)
    requires
        0 <= i < trace.len(),
        union.smart_run(input, before, trace) || union.left_to_right_run(input, before, trace),
        union.choices[i].0.strict == Some(strict),
    ensures
        exists|entry: ValidationState|
            entry.strict == strict && #[trigger] union.choices[i].0.yields(input, entry, trace[i]),
{
    let entry = lemma_choice_entry(union, input, before, trace, i);
}

/// A choice without a strictness of its own is validated strictly where the union or the
/// validation is strict.
pub proof fn law_strictness_is_inherited(
    union: UnionView,
    input: Value,
    before: ValidationState,
    trace: Seq<Outcome>,
    i: int,
)
    requires
        0 <= i < trace.len(),
        union.smart_run(input, before, trace) || union.left_to_right_run(input, before, trace),
        union.choices[i].0.strict is None,
    ensures
        exists|entry: ValidationState|
            entry.strict == (union.strict || before.strict)
                && #[trigger] union.choices[i].0.yields(input, entry, trace[i]),
{
    let entry = lemma_choice_entry(union, input, before, trace, i);
}

/// A union with a choice that is not strict and takes the input without strictness does not
/// reject the input, however strict the union and the validation are.
pub proof fn law_lenient_choice_is_enough(
    union: UnionView,
    input: Value,
    before: ValidationState,
    outcome: Outcome,
    i: int,
)
    requires
        union.yields(input, before, outcome),
        0 <= i < union.choices.len(),
        union.choices[i].0.strict == Some(false),
        forall|entry: ValidationState, inner: Outcome|
            !entry.strict && #[trigger] union.choices[i].0.yields(input, entry, inner)
                ==> inner.result is Ok,
    ensures
        !rejects(outcome),
{
    match union.mode {
        UnionMode::Smart => {
            let trace = choose|trace: Seq<Outcome>| #[trigger]
                union.smart_run(input, before, trace) && outcome == union.smart_outcome(
                    input,
                    before,
                    trace,
                );
            if !(trace.len() > 0 && decisive(trace.last())) {
                law_own_strictness_wins(union, input, before, trace, i, false);
                lemma_best(trace);
            }
        },
        UnionMode::LeftToRight => {
            let trace = choose|trace: Seq<Outcome>| #[trigger]
                union.left_to_right_run(input, before, trace) && outcome
                    == union.left_to_right_outcome(input, before, trace);
            if trace.len() > 0 && rejects(trace.last()) || trace.len() == 0 {
                law_own_strictness_wins(union, input, before, trace, i, false);
                if i == trace.len() - 1 {
                    assert(!rejects(trace.last()));
                } else {
                    assert(rejects(trace[i]));
                }
            }
        },
    }
}

/// Whether a validator never rejects an input, whatever the state.
pub open spec fn never_rejects(validator: ValidatorView, input: Value) -> bool {
    forall|before: ValidationState, outcome: Outcome|
        #[trigger] validator.yields(input, before, outcome) ==> !rejects(outcome)
}

/// A field that is not strict never rejects an input that its validator takes without
/// strictness.
pub proof fn law_lenient_field_is_sure(field: FieldView, input: Value)
    requires
        field.strict == Some(false),
        forall|entry: ValidationState, inner: Outcome|
            !entry.strict && #[trigger] field.validator.yields(input, entry, inner)
                ==> inner.result is Ok,
    ensures
        never_rejects(field.as_validator(), input),
{
    assert forall|before: ValidationState, outcome: Outcome| #[trigger]
        field.as_validator().yields(input, before, outcome) implies !rejects(outcome) by {
        let inner = choose|inner: Outcome| #[trigger]
            field.validator.yields(input, field.entry(before), inner) && outcome == with_strict(
                inner,
                before.strict,
            );
        assert(inner.result is Ok);
    }
}

/// A union with a choice that never rejects an input never rejects it either, at any depth of
/// nesting and however strict the unions are.
pub proof fn law_sure_choice_makes_a_sure_union(union: UnionView, input: Value, i: int)
    requires
        0 <= i < union.choices.len(),
        never_rejects(union.choices[i].0, input),
    ensures
        never_rejects(union.as_validator(), input),
{
    assert forall|before: ValidationState, outcome: Outcome| #[trigger]
        union.as_validator().yields(input, before, outcome) implies !rejects(outcome) by {
        match union.mode {
            UnionMode::Smart => {
                let trace = choose|trace: Seq<Outcome>| #[trigger]
                    union.smart_run(input, before, trace) && outcome == union.smart_outcome(
                        input,
                        before,
                        trace,
                    );
                law_smart_result(union, input, before, trace);
                if rejects(outcome) {
                    reveal(UnionView::smart_tried);
                    assert(union.choices[i].0.yields(
                        input,
                        union.smart_entry(before, trace, i),
                        trace[i],
                    ));
                    assert(rejects(trace[i]));
                }
            },
            UnionMode::LeftToRight => {
                let trace = choose|trace: Seq<Outcome>| #[trigger]
                    union.left_to_right_run(input, before, trace) && outcome
                        == union.left_to_right_outcome(input, before, trace);
                law_left_to_right_result(union, input, before, trace);
                if rejects(outcome) {
                    reveal(UnionView::left_to_right_tried);
                    assert(union.choices[i].0.yields(
                        input,
                        union.left_to_right_entry(before, trace, i),
                        trace[i],
                    ));
                    assert(rejects(trace[i]));
                }
            },
        }
    }
}

/// Whether a validator has at most one outcome for an input in each state.
pub open spec fn determined(validator: ValidatorView, input: Value) -> bool {
    forall|before: ValidationState, a: Outcome, b: Outcome|
        #[trigger] validator.yields(input, before, a) && #[trigger] validator.yields(
            input,
            before,
            b,
        ) ==> a == b
}

/// Whether a validator has at most one outcome for each input in each state.
pub open spec fn deterministic(validator: ValidatorView) -> bool {
    forall|input: Value| #[trigger] determined(validator, input)
}

/// Two runs of a smart union agree as far as both go.
proof fn lemma_smart_runs_agree(
    union: UnionView,
    input: Value,
    before: ValidationState,
    a: Seq<Outcome>,
    b: Seq<Outcome>,
    i: int,
)
    requires
        forall|k: int|
            0 <= k < union.choices.len() ==> determined((#[trigger] union.choices[k]).0, input),
        union.smart_tried(input, before, a),
        union.smart_tried(input, before, b),
        0 <= i < a.len(),
        i < b.len(),
    ensures
        a[i] == b[i],
    decreases i,
{
    reveal(UnionView::smart_tried);
    if i > 0 {
        lemma_smart_runs_agree(union, input, before, a, b, i - 1);
    }
    assert(determined(union.choices[i].0, input));
    assert(union.smart_entry(before, a, i) == union.smart_entry(before, b, i));
    assert(union.choices[i].0.yields(input, union.smart_entry(before, a, i), a[i]));
    assert(union.choices[i].0.yields(input, union.smart_entry(before, b, i), b[i]));
}

/// A smart union whose choices are determined has one run.
proof fn lemma_one_smart_run(
    union: UnionView,
    input: Value,
    before: ValidationState,
    a: Seq<Outcome>,
    b: Seq<Outcome>,
)
    requires
        forall|k: int|
            0 <= k < union.choices.len() ==> determined((#[trigger] union.choices[k]).0, input),
        union.smart_run(input, before, a),
        union.smart_run(input, before, b),
    ensures
        a == b,
{
    assert forall|i: int| 0 <= i < a.len() && i < b.len() implies a[i] == b[i] by {
        lemma_smart_runs_agree(union, input, before, a, b, i);
    }
    assert(a.len() <= union.choices.len() && b.len() <= union.choices.len()) by {
        reveal(UnionView::smart_tried);
    }
    if a.len() < b.len() {
        assert(decisive(a[a.len() - 1]));
        assert(!decisive(b[a.len() - 1]));
    } else if b.len() < a.len() {
        assert(decisive(b[b.len() - 1]));
        assert(!decisive(a[b.len() - 1]));
    }
    assert(a =~= b);
}

/// Two runs of a left-to-right union agree as far as both go.
proof fn lemma_left_to_right_runs_agree(
    union: UnionView,
    input: Value,
    before: ValidationState,
    a: Seq<Outcome>,
    b: Seq<Outcome>,
    i: int,
)
    requires
        forall|k: int|
            0 <= k < union.choices.len() ==> determined((#[trigger] union.choices[k]).0, input),
        union.left_to_right_tried(input, before, a),
        union.left_to_right_tried(input, before, b),
        0 <= i < a.len(),
        i < b.len(),
    ensures
        a[i] == b[i],
    decreases i,
{
    reveal(UnionView::left_to_right_tried);
    if i > 0 {
        lemma_left_to_right_runs_agree(union, input, before, a, b, i - 1);
    }
    assert(determined(union.choices[i].0, input));
    assert(union.left_to_right_entry(before, a, i) == union.left_to_right_entry(before, b, i));
    assert(union.choices[i].0.yields(input, union.left_to_right_entry(before, a, i), a[i]));
    assert(union.choices[i].0.yields(input, union.left_to_right_entry(before, b, i), b[i]));
}

/// The outcome of a union is fixed by the input and the state where those of its choices are.
pub proof fn law_union_is_deterministic(union: UnionView)
    requires
        forall|k: int|
            0 <= k < union.choices.len() ==> deterministic((#[trigger] union.choices[k]).0),
    ensures
        deterministic(union.as_validator()),
{
    assert forall|input: Value, before: ValidationState, x: Outcome, y: Outcome|
        #[trigger] union.as_validator().yields(input, before, x)
            && #[trigger] union.as_validator().yields(input, before, y) implies x == y by {
        match union.mode {
            UnionMode::Smart => {
                let a = choose|a: Seq<Outcome>| #[trigger]
                    union.smart_run(input, before, a) && x == union.smart_outcome(input, before, a);
                let b = choose|b: Seq<Outcome>| #[trigger]
                    union.smart_run(input, before, b) && y == union.smart_outcome(input, before, b);
                lemma_one_smart_run(union, input, before, a, b);
            },
            UnionMode::LeftToRight => {
                let a = choose|a: Seq<Outcome>| #[trigger]
                    union.left_to_right_run(input, before, a) && x == union.left_to_right_outcome(
                        input,
                        before,
                        a,
                    );
                let b = choose|b: Seq<Outcome>| #[trigger]
                    union.left_to_right_run(input, before, b) && y == union.left_to_right_outcome(
                        input,
                        before,
                        b,
                    );
                assert forall|i: int| 0 <= i < a.len() && i < b.len() implies a[i] == b[i] by {
                    lemma_left_to_right_runs_agree(union, input, before, a, b, i);
                }
                assert(a.len() <= union.choices.len() && b.len() <= union.choices.len()) by {
                    reveal(UnionView::left_to_right_tried);
                }
                if a.len() < b.len() {
                    assert(!rejects(a[a.len() - 1]));
                    assert(rejects(b[a.len() - 1]));
                } else if b.len() < a.len() {
                    assert(!rejects(b[b.len() - 1]));
                    assert(rejects(a[b.len() - 1]));
                }
                assert(a =~= b);
            },
        }
    }
}

/// The outcome of a validator of a single value is fixed by the input and the state.
pub proof fn law_scalars_are_deterministic(scalar: ScalarValidator)
    ensures
        deterministic(leaf_view(scalar)),
{
}

/// The outcome of a field is fixed by the input and the state where that of its validator is.
pub proof fn law_field_is_deterministic(field: FieldView)
    requires
        deterministic(field.validator),
    ensures
        deterministic(field.as_validator()),
{
    assert forall|input: Value, before: ValidationState, x: Outcome, y: Outcome|
        #[trigger] field.as_validator().yields(input, before, x)
            && #[trigger] field.as_validator().yields(input, before, y) implies x == y by {
        assert(determined(field.validator, input));
        assert(field.yields(input, before, x) && field.yields(input, before, y));
    }
}

/// The outcome of a tagged union is fixed by the input and the state where those of its choices
/// are and its function, if it has one, gives one tag for an input.
pub proof fn law_tagged_union_is_deterministic(union: TaggedUnionView)
    requires
        forall|k: int|
            0 <= k < union.entries.len() ==> deterministic((#[trigger] union.entries[k]).1),
        union.discriminator matches DiscriminatorView::Function(may_tag) ==> forall|
            input: Value,
            a: Result<Value, u64>,
            b: Result<Value, u64>,
        | #[trigger] may_tag(input, a) && #[trigger] may_tag(input, b) ==> a == b,
    ensures
        deterministic(union.as_validator()),
{
    assert forall|input: Value, before: ValidationState, x: Outcome, y: Outcome|
        #[trigger] union.as_validator().yields(input, before, x)
            && #[trigger] union.as_validator().yields(input, before, y) implies x == y by {
        assert(union.yields(input, before, x) && union.yields(input, before, y));
        let found = match union.discriminator {
            DiscriminatorView::LookupKey(key) => union.key_tag(key, input, before),
            DiscriminatorView::Function(may_tag) => {
                let called = choose|called: Result<Value, u64>| #[trigger]
                    may_tag(input, called) && union.found_yields(
                        called_tag(called),
                        input,
                        before,
                        x,
                    );
                called_tag(called)
            },
        };
        assert(union.found_yields(found, input, before, x));
        assert(union.found_yields(found, input, before, y));
        if let Ok(Some(tag)) = found {
            lemma_find(union.entries, tag);
            if let Some(i) = spec_find(union.entries, tag) {
                assert(union.choice_yields(i, tag, input, before, x));
                assert(union.choice_yields(i, tag, input, before, y));
                assert(deterministic(union.entries[i].1));
                assert(determined(union.entries[i].1, input));
            }
        }
    }
}

/// The best match is a success, there is one where there is any success, and no success after
/// it beats it.
proof fn lemma_best(trace: Seq<Outcome>)
    ensures
        match best_match(trace) {
            Some(b) => 0 <= b < trace.len() && trace[b].result is Ok && forall|j: int|
                b < j < trace.len() && (#[trigger] trace[j]).result is Ok ==> !beats(
                    trace[j],
                    trace[b],
                ),
            None => forall|j: int|
                0 <= j < trace.len() ==> (#[trigger] trace[j]).result is Err,
        },
    decreases trace.len(),
{
    if trace.len() > 0 {
        let init = trace.drop_last();
        lemma_best(init);
        match best_match(trace) {
            Some(b) => {
                assert forall|j: int|
                    b < j < trace.len() && (#[trigger] trace[j]).result is Ok implies !beats(
                    trace[j],
                    trace[b],
                ) by {
                    if j < init.len() {
                        assert(init[j] == trace[j]);
                    }
                }
            },
            None => {
                assert forall|j: int| 0 <= j < trace.len() implies (
                #[trigger] trace[j]).result is Err by {
                    if j < init.len() {
                        assert(init[j] == trace[j]);
                    }
                }
            },
        }
    }
}

/// A smart union gives a value exactly where no choice interrupts it and some choice gives one;
/// the value is then one that a choice gave. It rejects the input exactly where it tried every
/// choice and each rejected it. An interruption is passed on as it is.
pub proof fn law_smart_result(
    union: UnionView,
    input: Value,
    before: ValidationState,
    trace: Seq<Outcome>,
)
    requires
        union.smart_run(input, before, trace),
    ensures
        ({
            let outcome = union.smart_outcome(input, before, trace);
            &&& outcome.result is Ok <==> (exists|i: int|
                0 <= i < trace.len() && (#[trigger] trace[i]).result is Ok) && !(trace.len() > 0
                && interrupts(trace.last()))
            &&& outcome.result is Ok ==> exists|i: int|
                0 <= i < trace.len() && outcome.result == (#[trigger] trace[i]).result
            &&& rejects(outcome) <==> trace.len() == union.choices.len() && forall|i: int|
                0 <= i < trace.len() ==> rejects(#[trigger] trace[i])
            &&& trace.len() > 0 && interrupts(trace.last()) ==> outcome.result
                == trace.last().result
        }),
{
    reveal(UnionView::smart_tried);
    lemma_best(trace);
    let outcome = union.smart_outcome(input, before, trace);
    assert forall|i: int| 0 <= i < trace.len() - 1 implies (#[trigger] trace[i]).result is Ok
        || rejects(trace[i]) by {
        assert(!decisive(trace[i]));
    }
    if trace.len() > 0 && decisive(trace.last()) {
        assert(trace[trace.len() - 1] == trace.last());
    } else {
        match best_match(trace) {
            Some(b) => {
                assert(!rejects(trace[b]));
            },
            None => {
                assert forall|i: int| 0 <= i < trace.len() implies rejects(#[trigger] trace[i]) by {
                    assert(trace[i].result is Err);
                    if i == trace.len() - 1 {
                        assert(!decisive(trace.last()));
                    }
                }
            },
        }
    }
}

/// A left-to-right union ends with the first choice that does not reject the input, and tries
/// none after it; it rejects the input exactly where every choice did.
pub proof fn law_left_to_right_result(
    union: UnionView,
    input: Value,
    before: ValidationState,
    trace: Seq<Outcome>,
)
    requires
        union.left_to_right_run(input, before, trace),
    ensures
        ({
            let outcome = union.left_to_right_outcome(input, before, trace);
            &&& forall|i: int|
                0 <= i < trace.len() && !rejects(#[trigger] trace[i]) ==> i == trace.len() - 1
                    && outcome.result == trace[i].result
            &&& rejects(outcome) <==> trace.len() == union.choices.len() && forall|i: int|
                0 <= i < trace.len() ==> rejects(#[trigger] trace[i])
        }),
{
    reveal(UnionView::left_to_right_tried);
    let outcome = union.left_to_right_outcome(input, before, trace);
    if trace.len() > 0 && !rejects(trace.last()) {
        assert(trace[trace.len() - 1] == trace.last());
    } else {
        assert forall|i: int| 0 <= i < trace.len() implies rejects(#[trigger] trace[i]) by {
            if i == trace.len() - 1 {
                assert(trace[i] == trace.last());
            }
        }
    }
}

/// Whether a validator leaves the settings of the validation as it found them.
pub open spec fn keeps_extra(validator: ValidatorView) -> bool {
    forall|input: Value, before: ValidationState, outcome: Outcome|
        #[trigger] validator.yields(input, before, outcome) ==> outcome.state.extra == before.extra
}

/// Whether a validator answers an input in one way from all states of one strictness and of the
/// same settings: neither the match recorded so far nor the number of set fields counts.
pub open spec fn answers(
    validator: ValidatorView,
    input: Value,
    strict: bool,
    extra: Extra,
    answer: Result<Value, ValErrorView>,
) -> bool {
    forall|before: ValidationState, outcome: Outcome|
        before.strict == strict && before.extra == extra && #[trigger] validator.yields(
            input,
            before,
            outcome,
        ) ==> outcome.result == answer
}

/// Whether each choice of a union, under the strictness that it is validated with, gives one
/// answer to an input, and keeps the settings.
pub open spec fn choices_answer(
    union: UnionView,
    input: Value,
    before: ValidationState,
    given: Seq<Result<Value, ValErrorView>>,
) -> bool {
    &&& given.len() == union.choices.len()
    &&& forall|i: int|
        #![trigger given[i]]
        #![trigger union.choices[i]]
        0 <= i < given.len() ==> {
            &&& keeps_extra(union.choices[i].0)
            &&& answers(
                union.choices[i].0,
                input,
                union.choice_strict(i, before.strict),
                before.extra,
                given[i],
            )
        }
}

/// Whether each answer is a value or a rejection.
pub open spec fn none_interrupts(given: Seq<Result<Value, ValErrorView>>) -> bool {
    forall|i: int|
        0 <= i < given.len() ==> (#[trigger] given[i] matches Err(error) ==> error is LineErrors)
}

/// Whether leaves of a type leave the settings of the validation as they found them.
pub open spec fn leaves_keep_extra<L: Validator>() -> bool {
    forall|leaf: L, input: Value, before: ValidationState, outcome: Outcome|
        #[trigger] leaf.may_yield(input, before, outcome) ==> outcome.state.extra == before.extra
}

/// Validators of single values leave the settings as they found them, and answer an input in
/// one way under one strictness, with a value or a rejection.
pub proof fn law_scalars_answer_alike(
    scalar: ScalarValidator,
    input: Value,
    strict: bool,
    extra: Extra,
)
    ensures
        leaves_keep_extra::<ScalarValidator>(),
        exists|answer: Result<Value, ValErrorView>| #[trigger]
            answers(leaf_view(scalar), input, strict, extra, answer) && (answer matches Err(
                error,
            ) ==> error is LineErrors),
{
    let reading = match scalar {
        ScalarValidator::Int(v) => int_reading(input, strict || v.strict),
        ScalarValidator::Str(v) => str_reading(input, strict || v.strict),
    };
    let answer = match reading {
        Reading::Taken => Ok(input),
        Reading::Converted(value) => Ok(value),
        Reading::Wrong(error_type) => Err(
            ValErrorView::LineErrors(seq![line_error(error_type, input)]),
        ),
    };
    assert(answers(leaf_view(scalar), input, strict, extra, answer));
}

/// Every validator leaves the settings as it found them, at any depth of nesting, if its leaves
/// do.
pub proof fn law_validators_keep_extra<L: Validator, F: TagFunction>(
    validator: &CombinedValidator<L, F>,
)
    requires
        leaves_keep_extra::<L>(),
    ensures
        keeps_extra(validator@),
    decreases validator,
{
    match validator {
        CombinedValidator::Leaf(leaf) => {
            assert forall|input: Value, before: ValidationState, outcome: Outcome| #[trigger]
                validator@.yields(input, before, outcome) implies outcome.state.extra
                == before.extra by {
                assert(leaf.may_yield(input, before, outcome));
            }
        },
        CombinedValidator::Field(field) => {
            law_validators_keep_extra(&*field.validator);
        },
        CombinedValidator::Model(model) => {
            assert forall|k: int| 0 <= k < model@.fields.len() implies keeps_extra(
                (#[trigger] model@.fields[k]).validator,
            ) by {
                law_validators_keep_extra(&*model.fields@[k].validator);
            }
            lemma_model_keeps_extra(model@);
        },
        CombinedValidator::Union(union) => {
            assert forall|k: int| 0 <= k < union@.choices.len() implies keeps_extra(
                (#[trigger] union@.choices[k]).0,
            ) by {
                law_validators_keep_extra(&union.choices@[k].0);
            }
            lemma_union_keeps_extra(union@);
        },
        CombinedValidator::TaggedUnion(union) => {
            assert forall|k: int| 0 <= k < union@.entries.len() implies keeps_extra(
                (#[trigger] union@.entries[k]).1,
            ) by {
                law_validators_keep_extra(&union.lookup.entries@[k].1);
            }
            lemma_tagged_union_keeps_extra(union@);
        },
    }
}

/// A model keeps the settings if the validators of its fields do.
proof fn lemma_model_keeps_extra(model: ModelView)
    requires
        forall|k: int|
            0 <= k < model.fields.len() ==> keeps_extra((#[trigger] model.fields[k]).validator),
    ensures
        keeps_extra(model.as_validator()),
{
    assert forall|input: Value, before: ValidationState, outcome: Outcome| #[trigger]
        model.as_validator().yields(input, before, outcome) implies outcome.state.extra
        == before.extra by {
        assert(model.yields(input, before, outcome));
        if model.is_root() || model.parts(input, before) is Some {
            let trace = choose|trace: Seq<Outcome>| #[trigger]
                model.run(input, before, trace) && model.makes(before, trace, outcome);
            lemma_model_extra_stays(model, input, before, trace, trace.len() as int);
        }
    }
}

/// Between two fields whose validators keep the settings they are those of before.
proof fn lemma_model_extra_stays(
    model: ModelView,
    input: Value,
    before: ValidationState,
    trace: Seq<Outcome>,
    i: int,
)
    requires
        forall|k: int|
            0 <= k < model.fields.len() ==> keeps_extra((#[trigger] model.fields[k]).validator),
        model.tried(input, before, trace),
        0 <= i <= trace.len(),
    ensures
        ModelView::between(before, trace, i).extra == before.extra,
    decreases i,
{
    if i > 0 {
        reveal(ModelView::tried);
        lemma_model_extra_stays(model, input, before, trace, i - 1);
        assert(keeps_extra(model.fields[i - 1].validator));
        assert(trace[i - 1].state.extra == before.extra);
    }
}

/// A union keeps the settings if its choices do.
proof fn lemma_union_keeps_extra(union: UnionView)
    requires
        forall|k: int|
            0 <= k < union.choices.len() ==> keeps_extra((#[trigger] union.choices[k]).0),
    ensures
        keeps_extra(union.as_validator()),
{
    reveal(UnionView::smart_tried);
    reveal(UnionView::left_to_right_tried);
    assert forall|input: Value, before: ValidationState, outcome: Outcome| #[trigger]
        union.as_validator().yields(input, before, outcome) implies outcome.state.extra
        == before.extra by {
        match union.mode {
            UnionMode::Smart => {
                let trace = choose|trace: Seq<Outcome>| #[trigger]
                    union.smart_run(input, before, trace) && outcome == union.smart_outcome(
                        input,
                        before,
                        trace,
                    );
                lemma_extra_stays(union, input, before, trace, trace.len() as int);
            },
            UnionMode::LeftToRight => {
                let trace = choose|trace: Seq<Outcome>| #[trigger]
                    union.left_to_right_run(input, before, trace) && outcome
                        == union.left_to_right_outcome(input, before, trace);
                lemma_extra_stays(union, input, before, trace, trace.len() as int);
            },
        }
    }
}

/// A tagged union keeps the settings if its choices do.
proof fn lemma_tagged_union_keeps_extra(union: TaggedUnionView)
    requires
        forall|k: int|
            0 <= k < union.entries.len() ==> keeps_extra((#[trigger] union.entries[k]).1),
    ensures
        keeps_extra(union.as_validator()),
{
    assert forall|input: Value, before: ValidationState, outcome: Outcome| #[trigger]
        union.as_validator().yields(input, before, outcome) implies outcome.state.extra
        == before.extra by {
        assert(union.yields(input, before, outcome));
        let found = match union.discriminator {
            DiscriminatorView::LookupKey(key) => union.key_tag(key, input, before),
            DiscriminatorView::Function(may_tag) => {
                let called = choose|called: Result<Value, u64>| #[trigger]
                    may_tag(input, called) && union.found_yields(
                        called_tag(called),
                        input,
                        before,
                        outcome,
                    );
                called_tag(called)
            },
        };
        assert(union.found_yields(found, input, before, outcome));
        if let Ok(Some(tag)) = found {
            lemma_find(union.entries, tag);
            if let Some(i) = spec_find(union.entries, tag) {
                assert(union.choice_yields(i, tag, input, before, outcome));
                assert(keeps_extra(union.entries[i].1));
            }
        }
    }
}

/// Between two choices that keep the settings they are those of before.
proof fn lemma_extra_stays(
    union: UnionView,
    input: Value,
    before: ValidationState,
    trace: Seq<Outcome>,
    i: int,
)
    requires
        union.smart_tried(input, before, trace) || union.left_to_right_tried(input, before, trace),
        forall|k: int| 0 <= k < trace.len() ==> keeps_extra((#[trigger] union.choices[k]).0),
        0 <= i <= trace.len(),
    ensures
        UnionView::between(before, trace, i).extra == before.extra,
    decreases i,
{
    if i > 0 {
        reveal(UnionView::smart_tried);
        reveal(UnionView::left_to_right_tried);
        lemma_extra_stays(union, input, before, trace, i - 1);
        assert(keeps_extra(union.choices[i - 1].0));
        assert(trace[i - 1].state.extra == before.extra);
    }
}

/// Each choice that was tried gave its answer.
proof fn lemma_answers_given(
    union: UnionView,
    input: Value,
    before: ValidationState,
    given: Seq<Result<Value, ValErrorView>>,
    trace: Seq<Outcome>,
    i: int,
)
    requires
        choices_answer(union, input, before, given),
        union.smart_tried(input, before, trace) || union.left_to_right_tried(input, before, trace),
        0 <= i < trace.len(),
    ensures
        i < given.len(),
        trace[i].result == given[i],
{
    reveal(UnionView::smart_tried);
    reveal(UnionView::left_to_right_tried);
    lemma_extra_stays(union, input, before, trace, i);
    assert(answers(
        union.choices[i].0,
        input,
        union.choice_strict(i, before.strict),
        before.extra,
        given[i],
    ));
    assert(trace[i].result == given[i]);
}

/// Unions with the same choices report the same errors where their choices gave the same
/// results.
proof fn lemma_same_lines(a: UnionView, b: UnionView, x: Seq<Outcome>, y: Seq<Outcome>)
    requires
        a.choices == b.choices,
        x.len() == y.len(),
        forall|i: int| 0 <= i < x.len() ==> (#[trigger] x[i]).result == y[i].result,
    ensures
        a.trace_lines(x) == b.trace_lines(y),
    decreases x.len(),
{
    if x.len() > 0 {
        assert(x[x.len() - 1].result == y[y.len() - 1].result);
        assert forall|i: int| 0 <= i < x.drop_last().len() implies (
        #[trigger] x.drop_last()[i]).result == y.drop_last()[i].result by {
            assert(x[i].result == y[i].result);
        }
        lemma_same_lines(a, b, x.drop_last(), y.drop_last());
    }
}

/// The outcomes of a run of a union, and what they come to where each choice gives one answer.
proof fn lemma_answers_decide(
    union: UnionView,
    input: Value,
    before: ValidationState,
    given: Seq<Result<Value, ValErrorView>>,
    outcome: Outcome,
) -> (trace: Seq<Outcome>)
    requires
        choices_answer(union, input, before, given),
        none_interrupts(given),
        union.yields(input, before, outcome),
    ensures
        outcome.result is Ok <==> exists|i: int| 0 <= i < given.len() && #[trigger] given[i] is Ok,
        outcome.result is Ok ==> exists|i: int|
            0 <= i < given.len() && #[trigger] given[i] == outcome.result,
        outcome.result is Err ==> {
            &&& trace.len() == given.len()
            &&& forall|i: int| 0 <= i < trace.len() ==> (#[trigger] trace[i]).result == given[i]
            &&& outcome.result == Err::<Value, ValErrorView>(union.trace_error(input, trace))
        },
{
    let trace = match union.mode {
        UnionMode::Smart => choose|trace: Seq<Outcome>| #[trigger]
            union.smart_run(input, before, trace) && outcome == union.smart_outcome(
                input,
                before,
                trace,
            ),
        UnionMode::LeftToRight => choose|trace: Seq<Outcome>| #[trigger]
            union.left_to_right_run(input, before, trace) && outcome
                == union.left_to_right_outcome(input, before, trace),
    };
    assert forall|i: int| 0 <= i < trace.len() implies i < given.len() && (
    #[trigger] trace[i]).result == given[i] && !interrupts(trace[i]) by {
        lemma_answers_given(union, input, before, given, trace, i);
    }
    if trace.len() > 0 {
        assert(trace[trace.len() - 1] == trace.last());
    }
    match union.mode {
        UnionMode::Smart => {
            law_smart_result(union, input, before, trace);
            lemma_best(trace);
        },
        UnionMode::LeftToRight => {
            law_left_to_right_result(union, input, before, trace);
        },
    }
    if outcome.result is Ok {
        let i = choose|i: int| 0 <= i < trace.len() && outcome.result == (#[trigger] trace[i]).result;
        assert(given[i] == outcome.result);
    } else {
        assert(rejects(outcome) || trace.len() == 0);
        assert forall|i: int| 0 <= i < given.len() implies #[trigger] given[i] is Err by {
            assert(rejects(trace[i]));
        }
    }
    trace
}

/// Where no choice interrupts and what a choice answers does not depend on the match or the
/// number of set fields recorded before it, unions that differ in nothing but the mode take the
/// same inputs: those that some choice takes under the strictness that it is validated with. The
/// value is then that of such a choice. An input that none takes is rejected with the same error
/// in both modes.
pub proof fn law_modes_agree(
    union: UnionView,
    other: UnionView,
    input: Value,
    before: ValidationState,
    given: Seq<Result<Value, ValErrorView>>,
    outcome: Outcome,
    other_outcome: Outcome,
)
    requires
        other == (UnionView { mode: other.mode, ..union }),
        choices_answer(union, input, before, given),
        none_interrupts(given),
        union.yields(input, before, outcome),
        other.yields(input, before, other_outcome),
    ensures
        outcome.result is Ok <==> exists|i: int| 0 <= i < given.len() && #[trigger] given[i] is Ok,
        other_outcome.result is Ok <==> outcome.result is Ok,
        outcome.result is Ok ==> exists|i: int|
            0 <= i < given.len() && #[trigger] given[i] == outcome.result,
        other_outcome.result is Ok ==> exists|i: int|
            0 <= i < given.len() && #[trigger] given[i] == other_outcome.result,
        outcome.result is Err ==> other_outcome.result == outcome.result,
{
    assert(choices_answer(other, input, before, given)) by {
        assert forall|i: int| 0 <= i < given.len() implies {
            &&& keeps_extra(other.choices[i].0)
            &&& answers(
                other.choices[i].0,
                input,
                other.choice_strict(i, before.strict),
                before.extra,
                #[trigger] given[i],
            )
        } by {
            assert(other.choice_strict(i, before.strict) == union.choice_strict(i, before.strict));
        }
    }
    let trace = lemma_answers_decide(union, input, before, given, outcome);
    let other_trace = lemma_answers_decide(other, input, before, given, other_outcome);
    if outcome.result is Err {
        lemma_same_lines(union, other, trace, other_trace);
    }
}

/// The outcomes of a union with one more choice, without that of the added choice.
spec fn without(trace: Seq<Outcome>, at: int) -> Seq<Outcome> {
    if at < trace.len() {
        trace.remove(at)
    } else {
        trace
    }
}

/// Where an outcome stands that stands at a place without the added choice.
spec fn place(at: int, i: int) -> int {
    if i < at {
        i
    } else {
        i + 1
    }
}

/// A failure among outcomes does not count for the best match.
proof fn lemma_best_without(trace: Seq<Outcome>, at: int)
    requires
        0 <= at < trace.len(),
        trace[at].result is Err,
    ensures
        match best_match(trace.remove(at)) {
            Some(b) => 0 <= b < trace.len() - 1 && best_match(trace) == Some(place(at, b)),
            None => best_match(trace) is None,
        },
    decreases trace.len(),
{
    let rest = trace.remove(at);
    lemma_best(rest);
    if at == trace.len() - 1 {
        assert(rest =~= trace.drop_last());
    } else {
        assert(trace.drop_last().remove(at) =~= rest.drop_last());
        assert(rest.last() == trace.last());
        lemma_best(rest.drop_last());
        lemma_best_without(trace.drop_last(), at);
    }
}

/// Whether a union is another with one more choice, which rejects an input and keeps the
/// settings. The name of the union may differ.
pub open spec fn adds_rejecting(
    union: UnionView,
    other: UnionView,
    at: int,
    input: Value,
    before: ValidationState,
) -> bool {
    &&& 0 <= at <= union.choices.len()
    &&& other == (UnionView {
        choices: union.choices.insert(at, other.choices[at]),
        name: other.name,
        ..union
    })
    &&& keeps_extra(other.choices[at].0)
    &&& forall|entry: ValidationState, inner: Outcome|
        entry.strict == other.choice_strict(at, before.strict) && entry.extra == before.extra
            && #[trigger] other.choices[at].0.yields(input, entry, inner) ==> rejects(inner)
}

/// All choices keep the settings where those of a union and the added one do.
proof fn lemma_added_keeps_extra(
    union: UnionView,
    other: UnionView,
    at: int,
    input: Value,
    before: ValidationState,
    given: Seq<Result<Value, ValErrorView>>,
    k: int,
)
    requires
        adds_rejecting(union, other, at, input, before),
        choices_answer(union, input, before, given),
        0 <= k < other.choices.len(),
    ensures
        keeps_extra(other.choices[k].0),
{
    if k < at {
        assert(other.choices[k] == union.choices[k]);
    } else if k > at {
        assert(other.choices[k] == union.choices[k - 1]);
    }
}

/// With one more choice that keeps the settings, those between two choices are those of before,
/// and so they are without the outcome of the added choice.
proof fn lemma_added_extra_stays(
    union: UnionView,
    other: UnionView,
    at: int,
    input: Value,
    before: ValidationState,
    given: Seq<Result<Value, ValErrorView>>,
    trace: Seq<Outcome>,
    i: int,
)
    requires
        adds_rejecting(union, other, at, input, before),
        choices_answer(union, input, before, given),
        other.smart_tried(input, before, trace) || other.left_to_right_tried(input, before, trace),
    ensures
        0 <= i <= trace.len() ==> UnionView::between(before, trace, i).extra == before.extra,
        0 <= i <= without(trace, at).len() ==> UnionView::between(
            before,
            without(trace, at),
            i,
        ).extra == before.extra,
{
    assert(trace.len() <= other.choices.len()) by {
        reveal(UnionView::smart_tried);
        reveal(UnionView::left_to_right_tried);
    }
    assert forall|k: int| 0 <= k < trace.len() implies keeps_extra(
        (#[trigger] other.choices[k]).0,
    ) by {
        lemma_added_keeps_extra(union, other, at, input, before, given, k);
    }
    if 0 <= i <= trace.len() {
        lemma_extra_stays(other, input, before, trace, i);
    }
    let rest = without(trace, at);
    if 0 < i <= rest.len() {
        let k = place(at, i - 1);
        assert(rest[i - 1] == trace[k]);
        lemma_extra_stays(other, input, before, trace, k + 1);
    }
}

/// Each choice but the added one starts from the state that it would start from without it.
proof fn lemma_smart_choice_without(
    union: UnionView,
    other: UnionView,
    at: int,
    input: Value,
    before: ValidationState,
    given: Seq<Result<Value, ValErrorView>>,
    trace: Seq<Outcome>,
    i: int,
)
    requires
        adds_rejecting(union, other, at, input, before),
        choices_answer(union, input, before, given),
        other.smart_tried(input, before, trace),
        0 <= i < without(trace, at).len(),
    ensures
        union.choices[i].0.yields(
            input,
            union.smart_entry(before, without(trace, at), i),
            without(trace, at)[i],
        ),
{
    let rest = without(trace, at);
    let k = place(at, i);
    assert(rest[i] == trace[k]);
    assert(k < other.choices.len() && other.choices[k].0.yields(
        input,
        other.smart_entry(before, trace, k),
        trace[k],
    )) by {
        reveal(UnionView::smart_tried);
    }
    assert(other.choices[k] == union.choices[i]);
    lemma_added_extra_stays(union, other, at, input, before, given, trace, k);
    lemma_added_extra_stays(union, other, at, input, before, given, trace, i);
    assert(other.smart_entry(before, trace, k) == union.smart_entry(before, rest, i));
}

/// Without the added choice, a smart run of a union with one more choice that rejects the input
/// is a run of the union.
proof fn lemma_smart_without(
    union: UnionView,
    other: UnionView,
    at: int,
    input: Value,
    before: ValidationState,
    given: Seq<Result<Value, ValErrorView>>,
    trace: Seq<Outcome>,
)
    requires
        adds_rejecting(union, other, at, input, before),
        choices_answer(union, input, before, given),
        other.smart_run(input, before, trace),
    ensures
        union.smart_run(input, before, without(trace, at)),
        at < trace.len() ==> rejects(trace[at]),
{
    let rest = without(trace, at);
    if at < trace.len() {
        assert(rejects(trace[at])) by {
            reveal(UnionView::smart_tried);
            lemma_added_extra_stays(union, other, at, input, before, given, trace, at);
            assert(other.choices[at].0.yields(
                input,
                other.smart_entry(before, trace, at),
                trace[at],
            ));
        }
    }
    assert(union.smart_tried(input, before, rest)) by {
        assert forall|i: int| 0 <= i < rest.len() implies union.choices[i].0.yields(
            input,
            union.smart_entry(before, rest, i),
            #[trigger] rest[i],
        ) by {
            lemma_smart_choice_without(union, other, at, input, before, given, trace, i);
        }
        reveal(UnionView::smart_tried);
    }
    assert forall|i: int| 0 <= i < rest.len() - 1 implies !decisive(#[trigger] rest[i]) by {
        assert(rest[i] == trace[place(at, i)]);
    }
    if rest.len() < union.choices.len() {
        assert(rest.last() == trace.last());
    }
}

/// The outcome of a smart union is the same without a choice that rejects the input, where it
/// is a value.
proof fn lemma_smart_outcome_without(
    union: UnionView,
    other: UnionView,
    at: int,
    input: Value,
    before: ValidationState,
    given: Seq<Result<Value, ValErrorView>>,
    trace: Seq<Outcome>,
)
    requires
        adds_rejecting(union, other, at, input, before),
        choices_answer(union, input, before, given),
        other.smart_run(input, before, trace),
        union.smart_outcome(input, before, without(trace, at)).result is Ok,
    ensures
        other.smart_outcome(input, before, trace) == union.smart_outcome(
            input,
            before,
            without(trace, at),
        ),
{
    let rest = without(trace, at);
    lemma_smart_without(union, other, at, input, before, given, trace);
    lemma_added_extra_stays(union, other, at, input, before, given, trace, trace.len() as int);
    lemma_added_extra_stays(union, other, at, input, before, given, trace, rest.len() as int);
    lemma_best(rest);
    if at < trace.len() {
        lemma_best_without(trace, at);
        if at == trace.len() - 1 {
            assert(!decisive(trace.last()));
            if rest.len() > 0 {
                assert(rest.last() == trace[trace.len() - 2]);
                assert(!decisive(rest.last()));
            }
        } else {
            assert(rest.last() == trace.last());
        }
        if let Some(b) = best_match(rest) {
            assert(rest[b] == trace[best_match(trace)->0]);
        }
    } else {
        assert(rest == trace);
    }
}

/// From left to right, a choice that rejects the input does not change the value.
proof fn lemma_left_to_right_without(
    union: UnionView,
    other: UnionView,
    at: int,
    input: Value,
    before: ValidationState,
    given: Seq<Result<Value, ValErrorView>>,
    a: Seq<Outcome>,
    b: Seq<Outcome>,
)
    requires
        adds_rejecting(union, other, at, input, before),
        choices_answer(union, input, before, given),
        union.left_to_right_run(input, before, a),
        union.left_to_right_outcome(input, before, a).result is Ok,
        other.left_to_right_run(input, before, b),
    ensures
        other.left_to_right_outcome(input, before, b).result == union.left_to_right_outcome(
            input,
            before,
            a,
        ).result,
{
    reveal(UnionView::left_to_right_tried);
    assert forall|i: int| 0 <= i < a.len() implies (#[trigger] a[i]).result == given[i] by {
        lemma_answers_given(union, input, before, given, a, i);
    }
    assert forall|k: int| 0 <= k < b.len() implies (if k == at {
        rejects(#[trigger] b[k])
    } else {
        b[k].result == given[if k < at {
            k
        } else {
            k - 1
        }]
    }) by {
        lemma_added_extra_stays(union, other, at, input, before, given, b, k);
        let entry = other.left_to_right_entry(before, b, k);
        assert(other.choices[k].0.yields(input, entry, b[k]));
        if k != at {
            let i = if k < at {
                k
            } else {
                k - 1
            };
            assert(other.choices[k] == union.choices[i]);
            assert(answers(
                union.choices[i].0,
                input,
                union.choice_strict(i, before.strict),
                before.extra,
                given[i],
            ));
        }
    }
    let last = a.len() - 1;
    let end = place(at, last);
    assert(a[last].result == given[last]);
    if end < b.len() {
        assert(b[end].result == given[last]);
        assert(!rejects(b[end]));
        assert(end == b.len() - 1);
    } else {
        let k = b.len() - 1;
        assert(!rejects(b[k]));
        let i = if k < at {
            k
        } else {
            k - 1
        };
        assert(b[k].result == given[i]);
        assert(rejects(a[i]));
    }
}

/// One more choice that rejects an input, at whatever place, changes no value that a union gives,
/// in either mode, where what a choice answers does not depend on the match or the number of set
/// fields recorded before it. Nor does it change the state after a smart union.
pub proof fn law_rejecting_choice_changes_no_value(
    union: UnionView,
    other: UnionView,
    at: int,
    input: Value,
    before: ValidationState,
    given: Seq<Result<Value, ValErrorView>>,
    outcome: Outcome,
    other_outcome: Outcome,
)
    requires
        adds_rejecting(union, other, at, input, before),
        choices_answer(union, input, before, given),
        union.mode is Smart ==> forall|k: int|
            0 <= k < union.choices.len() ==> determined((#[trigger] union.choices[k]).0, input),
        union.yields(input, before, outcome),
        outcome.result is Ok,
        other.yields(input, before, other_outcome),
    ensures
        other_outcome.result == outcome.result,
        union.mode is Smart ==> other_outcome == outcome,
{
    match union.mode {
        UnionMode::Smart => {
            let a = choose|a: Seq<Outcome>| #[trigger]
                union.smart_run(input, before, a) && outcome == union.smart_outcome(
                    input,
                    before,
                    a,
                );
            let b = choose|b: Seq<Outcome>| #[trigger]
                other.smart_run(input, before, b) && other_outcome == other.smart_outcome(
                    input,
                    before,
                    b,
                );
            lemma_smart_without(union, other, at, input, before, given, b);
            lemma_one_smart_run(union, input, before, a, without(b, at));
            lemma_smart_outcome_without(union, other, at, input, before, given, b);
        },
        UnionMode::LeftToRight => {
            let a = choose|a: Seq<Outcome>| #[trigger]
                union.left_to_right_run(input, before, a) && outcome
                    == union.left_to_right_outcome(input, before, a);
            let b = choose|b: Seq<Outcome>| #[trigger]
                other.left_to_right_run(input, before, b) && other_outcome
                    == other.left_to_right_outcome(input, before, b);
            lemma_left_to_right_without(union, other, at, input, before, given, a, b);
        },
    }
}

/// The first exact match that sets no fields ends a smart union: its value is the union's, no
/// choice after it is tried, and the state keeps what it recorded before.
pub proof fn law_exact_match_wins(
    union: UnionView,
    input: Value,
    before: ValidationState,
    trace: Seq<Outcome>,
    i: int,
)
    requires
        union.smart_run(input, before, trace),
        0 <= i < trace.len(),
        trace[i].result is Ok,
        trace[i].state.exactness == Some(Exactness::Exact),
        trace[i].state.fields_set_count is None,
    ensures
        i == trace.len() - 1,
        union.smart_outcome(input, before, trace).result == trace[i].result,
        union.smart_outcome(input, before, trace).state.exactness == before.exactness,
        union.smart_outcome(input, before, trace).state.fields_set_count
            == before.fields_set_count,
{
    assert(decisive(trace[i]));
}

/// No success after the best match is a better one.
pub proof fn law_nothing_later_beats_the_best(trace: Seq<Outcome>, b: int, j: int)
    requires
        best_match(trace) == Some(b),
        b < j < trace.len(),
        trace[j].result is Ok,
    ensures
        !beats(trace[j], trace[b]),
{
    lemma_best(trace);
}

/// Whether all successes count set fields, or none does.
pub open spec fn counts_alike(trace: Seq<Outcome>) -> bool {
    forall|i: int, j: int|
        0 <= i < trace.len() && 0 <= j < trace.len() && (#[trigger] trace[i]).result is Ok && (
        #[trigger] trace[j]).result is Ok ==> (trace[i].state.fields_set_count is Some
            <==> trace[j].state.fields_set_count is Some)
}

/// Where all successes count set fields, or none does, the best match is beaten by none, and it
/// beats each success before it: it is the first of the greatest by number of fields, then by
/// exactness.
pub proof fn law_best_match_is_the_first_greatest(trace: Seq<Outcome>, b: int, j: int)
    requires
        counts_alike(trace),
        best_match(trace) == Some(b),
        0 <= j < trace.len(),
        trace[j].result is Ok,
    ensures
        0 <= b < trace.len(),
        trace[b].result is Ok,
        !beats(trace[j], trace[b]),
        j < b ==> beats(trace[b], trace[j]),
    decreases trace.len(),
{
    lemma_best(trace);
    let init = trace.drop_last();
    assert forall|x: int, y: int|
        0 <= x < init.len() && 0 <= y < init.len() && (#[trigger] init[x]).result is Ok && (
        #[trigger] init[y]).result is Ok implies (init[x].state.fields_set_count is Some
        <==> init[y].state.fields_set_count is Some) by {
        assert(init[x] == trace[x] && init[y] == trace[y]);
    }
    if j < trace.len() - 1 {
        assert(init[j] == trace[j]);
        lemma_best(init);
        if let Some(c) = best_match(init) {
            law_best_match_is_the_first_greatest(init, c, j);
            assert(init[c] == trace[c]);
            if b == trace.len() - 1 {
                assert(beats(trace[b], trace[c]));
                assert(trace[b].state.fields_set_count is Some
                    <==> trace[j].state.fields_set_count is Some);
                assert(trace[c].state.fields_set_count is Some
                    <==> trace[j].state.fields_set_count is Some);
            }
        } else {
            assert(init[j].result is Err);
        }
    }
}

/// A smart union that is not interrupted never makes the recorded match closer, never lowers
/// the number of set fields, and records neither where it rejects the input.
pub proof fn law_smart_state(
    union: UnionView,
    input: Value,
    before: ValidationState,
    trace: Seq<Outcome>,
)
    requires
        union.smart_run(input, before, trace),
        trace.len() > 0 ==> !interrupts(trace.last()),
    ensures
        ({
            let outcome = union.smart_outcome(input, before, trace);
            &&& before.exactness is None <==> outcome.state.exactness is None
            &&& before.exactness matches Some(kept) ==> outcome.state.exactness->0.rank()
                <= kept.rank()
            &&& before.fields_set_count matches Some(count) ==> count
                <= outcome.state.fields_set_count->0 && outcome.state.fields_set_count is Some
            &&& rejects(outcome) ==> outcome.state.exactness == before.exactness
                && outcome.state.fields_set_count == before.fields_set_count
        }),
{
    law_smart_result(union, input, before, trace);
    lemma_best(trace);
}

/// Where a union has a custom error, each rejection is that one error, about the whole input.
pub proof fn law_custom_error_replaces_all(
    union: UnionView,
    input: Value,
    before: ValidationState,
    outcome: Outcome,
)
    requires
        union.yields(input, before, outcome),
        union.custom_error is Some,
        rejects(outcome),
    ensures
        outcome.result == Err::<Value, ValErrorView>(
            union.custom_error->0.spec_as_val_error(input),
        ),
{
    match union.mode {
        UnionMode::Smart => {
            let trace = choose|trace: Seq<Outcome>| #[trigger]
                union.smart_run(input, before, trace) && outcome == union.smart_outcome(
                    input,
                    before,
                    trace,
                );
            lemma_best(trace);
        },
        UnionMode::LeftToRight => {},
    }
}

/// Without a custom error, the errors of a rejection are those of the choices: each error of
/// each choice is among them, under the label or the name of its choice.
pub proof fn law_every_error_is_reported(union: UnionView, trace: Seq<Outcome>, i: int, k: int)
    requires
        0 <= i < trace.len(),
        0 <= k < outcome_lines(trace[i]).len(),
    ensures
        union.trace_lines(trace).contains(
            outcome_lines(trace[i])[k].with_outer_location(union.choice_label(i)),
        ),
    decreases trace.len(),
{
    let init = trace.drop_last();
    let head = union.trace_lines(init);
    let tail = located(outcome_lines(trace.last()), union.choice_label(trace.len() - 1));
    let line = outcome_lines(trace[i])[k].with_outer_location(union.choice_label(i));
    if i == trace.len() - 1 {
        assert(tail[k] == line);
        assert((head + tail)[head.len() + k] == line);
    } else {
        assert(init[i] == trace[i]);
        law_every_error_is_reported(union, init, i, k);
        let at = choose|at: int| 0 <= at < head.len() && head[at] == line;
        assert((head + tail)[at] == line);
    }
}

/// Without a custom error, a rejection reports nothing but errors of the choices.
pub proof fn law_only_choice_errors_are_reported(
    union: UnionView,
    trace: Seq<Outcome>,
    at: int,
) -> (r: (int, int))
    requires
        0 <= at < union.trace_lines(trace).len(),
    ensures
        0 <= r.0 < trace.len(),
        0 <= r.1 < outcome_lines(trace[r.0]).len(),
        union.trace_lines(trace)[at] == outcome_lines(trace[r.0])[r.1].with_outer_location(
            union.choice_label(r.0),
        ),
    decreases trace.len(),
{
    let init = trace.drop_last();
    let head = union.trace_lines(init);
    if at < head.len() {
        let r = law_only_choice_errors_are_reported(union, init, at);
        assert(init[r.0] == trace[r.0]);
        r
    } else {
        (trace.len() - 1, at - head.len())
    }
}

/// Where no tag occurs twice, an input whose tag is that of a choice is validated against that
/// choice and no other.
pub proof fn law_tag_names_its_choice(
    union: TaggedUnionView,
    tag: Value,
    i: int,
    input: Value,
    before: ValidationState,
    outcome: Outcome,
)
    requires
        0 <= i < union.entries.len(),
        union.entries[i].0.spec_is(tag),
        forall|j: int|
            0 <= j < union.entries.len() && j != i ==> !(#[trigger] union.entries[j]).0.spec_is(
                tag,
            ),
    ensures
        union.tag_yields(tag, input, before, outcome) <==> union.choice_yields(
            i,
            tag,
            input,
            before,
            outcome,
        ),
{
    lemma_find(union.entries, tag);
}

/// A tag that no choice has is answered with the one error that names the tag and those
/// expected, or with the custom error; the state stays as it was.
pub proof fn law_unknown_tag_is_rejected(
    union: TaggedUnionView,
    tag: Value,
    input: Value,
    before: ValidationState,
    outcome: Outcome,
)
    requires
        forall|j: int|
            0 <= j < union.entries.len() ==> !(#[trigger] union.entries[j]).0.spec_is(tag),
    ensures
        union.tag_yields(tag, input, before, outcome) <==> outcome == (Outcome {
            result: Err(union.tag_invalid_error(tag, input)),
            state: before,
        }),
        rejects(Outcome { result: Err(union.tag_invalid_error(tag, input)), state: before }),
{
    lemma_find(union.entries, tag);
}

/// Errors of the choice that a tag names are located under the tag, and reported even where the
/// union has a custom error.
pub proof fn law_choice_errors_are_under_the_tag(
    union: TaggedUnionView,
    tag: Value,
    i: int,
    input: Value,
    before: ValidationState,
    outcome: Outcome,
    k: int,
)
    requires
        union.choice_yields(i, tag, input, before, outcome),
        0 <= k < outcome_lines(outcome).len(),
    ensures
        outcome_lines(outcome)[k].location.len() > 0,
        outcome_lines(outcome)[k].location[0] == LocItem::spec_of_value(tag),
{
}

/// A field of a model that was given a strictness of its own is validated with it, whatever the
/// strictness of the model and of the validation.
pub proof fn law_field_strictness_overrides_model(
    model: ModelView,
    input: Value,
    before: ValidationState,
    trace: Seq<Outcome>,
    i: int,
    strict: bool,
)
    requires
        model.run(input, before, trace),
        0 <= i < trace.len(),
        model.fields[i].strict == Some(strict),
    ensures
        exists|entry: ValidationState|
            entry.strict == strict && #[trigger] model.field_yields(
                i,
                input,
                before,
                entry,
                trace[i],
            ),
{
    reveal(ModelView::tried);
    let entry = model.entry(before, trace, i);
    assert(model.field_yields(i, input, before, entry, trace[i]));
}

/// A root model whose field is not strict and takes the input without strictness takes the
/// input, however strict the model and the validation are.
pub proof fn law_lenient_root_is_enough(
    model: ModelView,
    input: Value,
    before: ValidationState,
    outcome: Outcome,
)
    requires
        model.is_root(),
        input !is Raised,
        model.yields(input, before, outcome),
        model.fields[0].strict == Some(false),
        forall|entry: ValidationState, inner: Outcome|
            !entry.strict && #[trigger] model.fields[0].validator.yields(input, entry, inner)
                ==> inner.result is Ok,
    ensures
        outcome.result is Ok,
{
    let trace = choose|trace: Seq<Outcome>| #[trigger]
        model.run(input, before, trace) && model.makes(before, trace, outcome);
    reveal(ModelView::tried);
    assert(trace.len() == 1);
    law_field_strictness_overrides_model(model, input, before, trace, 0, false);
    assert(trace[0].result is Ok);
}

/// A model leaves the strictness of the state as it found it.
pub proof fn law_model_restores_strict(
    model: ModelView,
    input: Value,
    before: ValidationState,
    outcome: Outcome,
)
    requires
        model.yields(input, before, outcome),
    ensures
        outcome.state.strict == before.strict,
{
}

} // verus!
