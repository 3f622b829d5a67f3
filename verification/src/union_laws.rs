//! What unions do, in terms of their choices, inputs and results alone.
use crate::errors::{ErrorTypeView, LineErrorView, LocItemView, ValErrorView};
use crate::laws::law_smart_result;
use crate::state::{Exactness, ValidationState};
use crate::union::{best_match, better_match, UnionValidator, UnionView};
use crate::validator::{Outcome, TagFunction, Validator};
use crate::value::Value;
use vstd::prelude::*;

verus! {

/// How close a recorded match is: an exact one is closest, then a strict one, then any other.
pub open spec fn closeness(exactness: Option<Exactness>) -> int {
    match exactness {
        Some(Exactness::Exact) => 2,
        Some(Exactness::Strict) => 1,
        _ => 0,
    }
}

/// The errors about the input that an outcome holds.
pub open spec fn lines_of(outcome: Outcome) -> Seq<LineErrorView> {
    match outcome.result {
        Err(ValErrorView::LineErrors(lines)) => lines,
        _ => Seq::empty(),
    }
}

/// How many errors the first outcomes hold together.
pub open spec fn lines_before(trace: Seq<Outcome>, i: int) -> int
    decreases i,
{
    if i <= 0 {
        0
    } else {
        lines_before(trace, i - 1) + lines_of(trace[i - 1]).len()
    }
}

/// Whether errors are all those of some outcomes and no others, in order, each located one step
/// further out, under the label of its outcome.
pub open spec fn reports(
    reported: Seq<LineErrorView>,
    trace: Seq<Outcome>,
    labels: Seq<Seq<char>>,
) -> bool {
    &&& reported.len() == lines_before(trace, trace.len() as int)
    &&& forall|i: int, k: int|
        0 <= i < trace.len() && 0 <= k < lines_of(trace[i]).len() ==> {
            let line = #[trigger] lines_of(trace[i])[k];
            let shown = reported[lines_before(trace, i) + k];
            &&& shown.error_type == line.error_type
            &&& shown.input_value == line.input_value
            &&& shown.location == seq![LocItemView::S(labels[i])] + line.location
        }
}

/// Whether a failure is one error about the whole input.
pub open spec fn one_error(error: ValErrorView, error_type: ErrorTypeView, input: Value) -> bool {
    &&& error matches ValErrorView::LineErrors(lines)
    &&& lines.len() == 1
    &&& lines[0].error_type == error_type
    &&& lines[0].input_value == input
    &&& lines[0].location.len() == 0
}

/// What the choices of a union are called: by their labels, or else by their names.
pub open spec fn labels<L: Validator, F: TagFunction>(union: &UnionValidator<L, F>) -> Seq<
    Seq<char>,
> {
    Seq::new(
        union.choices@.len(),
        |i: int|
            match union.choices@[i].1 {
                Some(label) => label@,
                None => union.choices@[i].0@.name,
            },
    )
}

/// Whether a failure is that of a union whose choices all rejected the input: its custom error,
/// or else all the errors of the choices.
pub open spec fn refuses<L: Validator, F: TagFunction>(
    union: &UnionValidator<L, F>,
    input: Value,
    trace: Seq<Outcome>,
    error: ValErrorView,
) -> bool {
    match union.custom_error {
        Some(custom) => one_error(
            error,
            ErrorTypeView::CustomError {
                error_type: custom.error_type@,
                message_template: custom.message_template@,
                context: custom.context,
            },
            input,
        ),
        None => error matches ValErrorView::LineErrors(reported) && reports(
            reported,
            trace,
            labels(union),
        ),
    }
}

/// Whether an outcome is one of a choice of a union, validated under the choice's own strictness,
/// or else strictly where the union or the validation is strict.
pub open spec fn choice_gave<L: Validator, F: TagFunction>(
    union: &UnionValidator<L, F>,
    i: int,
    input: Value,
    before: ValidationState,
    entry: ValidationState,
    outcome: Outcome,
) -> bool {
    &&& union.choices@[i].0@.yields(input, entry, outcome)
    &&& union.choices@[i].0@.strict matches Some(own) ==> entry.strict == own
    &&& union.choices@[i].0@.strict is None ==> entry.strict == (union.strict || before.strict)
}

/// Whether one success betters another: by setting more fields, where both set some and not
/// equally many; else by matching more closely.
pub open spec fn betters(new: Outcome, old_best: Outcome) -> bool {
    match (new.state.fields_set_count, old_best.state.fields_set_count) {
        (Some(n), Some(m)) => n > m || n == m && closeness(new.state.exactness) > closeness(
            old_best.state.exactness,
        ),
        _ => closeness(new.state.exactness) > closeness(old_best.state.exactness),
    }
}

/// Whether no success after one, up to an end, betters it.
pub open spec fn unbettered(trace: Seq<Outcome>, holder: int, end: int) -> bool {
    forall|j: int|
        holder < j < end && (#[trigger] trace[j]).result is Ok ==> !betters(trace[j], trace[holder])
}

/// Whether successes are those that were the best so far, in order, from the first success on:
/// each is the first that betters the one before it, and none betters the last.
pub open spec fn record_holders(trace: Seq<Outcome>, holders: Seq<int>) -> bool {
    &&& holders.len() > 0
    &&& forall|h: int|
        0 <= h < holders.len() ==> 0 <= #[trigger] holders[h] < trace.len()
            && trace[holders[h]].result is Ok
    &&& forall|j: int| 0 <= j < holders[0] ==> (#[trigger] trace[j]).result is Err
    &&& forall|g: int, h: int|
        #![trigger holders[g], holders[h]]
        0 <= g && h == g + 1 && h < holders.len() ==> holders[g] < holders[h] && betters(
            trace[holders[h]],
            trace[holders[g]],
        ) && unbettered(trace, holders[g], holders[h])
    &&& unbettered(trace, holders.last(), trace.len() as int)
}

/// A run of successes without one that betters the best stays so in a longer run.
proof fn lemma_unbettered(a: Seq<Outcome>, b: Seq<Outcome>, holder: int, end: int)
    requires
        0 <= holder < a.len(),
        end <= a.len() <= b.len(),
        forall|k: int| 0 <= k < a.len() ==> #[trigger] b[k] == a[k],
        unbettered(a, holder, end),
    ensures
        unbettered(b, holder, end),
{
    assert forall|j: int| holder < j < end && (#[trigger] b[j]).result is Ok implies !betters(
        b[j],
        b[holder],
    ) by {
        assert(b[j] == a[j]);
        assert(b[holder] == a[holder]);
    }
}

/// Records are kept where one more outcome does not better the last, and a new one is set where
/// it does.
proof fn lemma_one_more(trace: Seq<Outcome>, earlier: Seq<int>)
    requires
        trace.len() > 0,
        record_holders(trace.drop_last(), earlier),
    ensures
        !(trace.last().result is Ok && betters(trace.last(), trace[earlier.last()]))
            ==> record_holders(trace, earlier),
        trace.last().result is Ok && betters(trace.last(), trace[earlier.last()])
            ==> record_holders(trace, earlier.push(trace.len() - 1)),
{
    let init = trace.drop_last();
    let last = trace.len() - 1;
    let top = earlier.len() - 1;
    assert(earlier[top] == earlier.last());
    assert(0 <= earlier[0] < init.len());
    assert forall|h: int| 0 <= h < earlier.len() implies 0 <= #[trigger] earlier[h] < init.len()
        && trace[earlier[h]].result is Ok by {
        assert(init[earlier[h]].result is Ok);
    }
    assert forall|j: int| 0 <= j < earlier[0] implies (#[trigger] trace[j]).result is Err by {
        assert(init[j].result is Err);
    }
    assert forall|g: int, h: int|
        #![trigger earlier[g], earlier[h]]
        0 <= g && h == g + 1 && h < earlier.len() implies earlier[g] < earlier[h] && betters(
        trace[earlier[h]],
        trace[earlier[g]],
    ) && unbettered(trace, earlier[g], earlier[h]) by {
        assert(init[earlier[g]] == trace[earlier[g]]);
        assert(init[earlier[h]] == trace[earlier[h]]);
        lemma_unbettered(init, trace, earlier[g], earlier[h]);
    }
    lemma_unbettered(init, trace, earlier[top], last);
    if trace.last().result is Ok && betters(trace.last(), trace[earlier.last()]) {
        let holders = earlier.push(last);
        assert forall|g: int, h: int|
            #![trigger holders[g], holders[h]]
            0 <= g && h == g + 1 && h < holders.len() implies holders[g] < holders[h] && betters(
            trace[holders[h]],
            trace[holders[g]],
        ) && unbettered(trace, holders[g], holders[h]) by {
            assert(holders[g] == earlier[g]);
            if h < earlier.len() {
                assert(holders[h] == earlier[h]);
            }
        }
        assert forall|h: int| 0 <= h < holders.len() implies 0 <= #[trigger] holders[h]
            < trace.len() && trace[holders[h]].result is Ok by {
            if h < earlier.len() {
                assert(holders[h] == earlier[h]);
            }
        }
        assert(holders[0] == earlier[0]);
    } else {
        assert forall|j: int|
            earlier.last() < j < trace.len() && (#[trigger] trace[j]).result is Ok implies !betters(
            trace[j],
            trace[earlier.last()],
        ) by {
            if j < last {
                assert(unbettered(trace, earlier[top], last));
            }
        }
    }
}

/// The best match holds the record at the end, or there is no success.
proof fn lemma_record_holders(trace: Seq<Outcome>) -> (holders: Seq<int>)
    ensures
        best_match(trace) is None ==> forall|j: int|
            0 <= j < trace.len() ==> (#[trigger] trace[j]).result is Err,
        best_match(trace) matches Some(b) ==> record_holders(trace, holders) && holders.last()
            == b,
    decreases trace.len(),
{
    if trace.len() == 0 {
        Seq::empty()
    } else {
        let init = trace.drop_last();
        let last = trace.len() - 1;
        let earlier = lemma_record_holders(init);
        match best_match(init) {
            None => {
                assert forall|j: int| 0 <= j < last implies (
                #[trigger] trace[j]).result is Err by {
                    assert(init[j].result is Err);
                }
                seq![last]
            },
            Some(b) => {
                assert(earlier[earlier.len() - 1] == b);
                lemma_one_more(trace, earlier);
                if trace.last().result is Ok && betters(trace.last(), trace[b]) {
                    earlier.push(last)
                } else {
                    earlier
                }
            },
        }
    }
}

/// Errors that are gathered outcome by outcome are all those of the outcomes.
proof fn lemma_union_reports(view: UnionView, trace: Seq<Outcome>, names: Seq<Seq<char>>)
    requires
        trace.len() <= names.len(),
        forall|i: int|
            0 <= i < trace.len() ==> #[trigger] view.choice_label(i) == LocItemView::S(names[i]),
    ensures
        reports(view.trace_lines(trace), trace, names),
    decreases trace.len(),
{
    if trace.len() > 0 {
        let init = trace.drop_last();
        let last = trace.len() - 1;
        lemma_union_reports(view, init, names);
        lemma_lines_before(init, trace, last);
        assert(view.choice_label(last) == LocItemView::S(names[last]));
        let all = view.trace_lines(trace);
        let head = view.trace_lines(init);
        assert forall|i: int, k: int|
            0 <= i < trace.len() && 0 <= k < lines_of(trace[i]).len() implies {
            let line = #[trigger] lines_of(trace[i])[k];
            let shown = all[lines_before(trace, i) + k];
            &&& shown.error_type == line.error_type
            &&& shown.input_value == line.input_value
            &&& shown.location == seq![LocItemView::S(names[i])] + line.location
        } by {
            let line = lines_of(trace[i])[k];
            if i < last {
                assert(init[i] == trace[i]);
                lemma_lines_before(init, trace, i);
                lemma_lines_grow(init, i, init.len() as int);
                assert(lines_of(init[i])[k] == line);
                assert(all[lines_before(trace, i) + k] == head[lines_before(init, i) + k]);
            }
        }
    }
}

/// The errors of the first outcomes are as many in a longer run.
pub proof fn lemma_lines_before(a: Seq<Outcome>, b: Seq<Outcome>, i: int)
    requires
        0 <= i <= a.len(),
        a.len() <= b.len(),
        forall|k: int| 0 <= k < a.len() ==> #[trigger] a[k] == b[k],
    ensures
        lines_before(a, i) == lines_before(b, i),
    decreases i,
{
    if i > 0 {
        lemma_lines_before(a, b, i - 1);
        assert(a[i - 1] == b[i - 1]);
    }
}

/// The errors of one more outcome add to those before.
pub proof fn lemma_lines_grow(trace: Seq<Outcome>, i: int, n: int)
    requires
        0 <= i < n,
    ensures
        0 <= lines_before(trace, i),
        lines_before(trace, i) + lines_of(trace[i]).len() <= lines_before(trace, n),
    decreases n,
{
    if i < n - 1 {
        lemma_lines_grow(trace, i, n - 1);
    } else {
        lemma_lines_not_negative(trace, i);
    }
}

proof fn lemma_lines_not_negative(trace: Seq<Outcome>, i: int)
    ensures
        0 <= lines_before(trace, i),
    decreases i,
{
    if i > 0 {
        lemma_lines_not_negative(trace, i - 1);
    }
}

/// The failure of a union whose choices all rejected the input is the custom error or reports
/// all errors.
proof fn lemma_refuses<L: Validator, F: TagFunction>(
    union: &UnionValidator<L, F>,
    input: Value,
    trace: Seq<Outcome>,
)
    requires
        trace.len() <= union.choices@.len(),
    ensures
        refuses(union, input, trace, union@.trace_error(input, trace)),
{
    if union.custom_error is None {
        lemma_union_reports(union@, trace, labels(union));
    }
}

/// A smart union tries its choices in order, each as for an exact match without set fields and
/// each under its own strictness or else that of the union or the validation. It stops at an
/// exact match that set no fields, whose value it gives, and at a failure that is not about the
/// input, which it passes on.
pub proof fn law_smart_union_tries_its_choices<L: Validator, F: TagFunction>(
    union: &UnionValidator<L, F>,
    input: Value,
    before: ValidationState,
    outcome: Outcome,
) -> (r: (Seq<Outcome>, Seq<ValidationState>))
    requires
        union@.smart_yields(input, before, outcome) || union.mode is Smart && union@.yields(
            input,
            before,
            outcome,
        ),
    ensures
        smart_trial(union, input, before, r.0, r.1),
        smart_verdict(union, input, before, r.0, outcome),
{
    let view = union@;
    reveal(UnionView::smart_tried);
    let trace = choose|trace: Seq<Outcome>| #[trigger]
        view.smart_run(input, before, trace) && outcome == view.smart_outcome(input, before, trace);
    let entries = Seq::new(trace.len(), |i: int| view.smart_entry(before, trace, i));
    law_smart_result(view, input, before, trace);
    assert forall|i: int| 0 <= i < trace.len() implies {
        &&& choice_gave(union, i, input, before, #[trigger] entries[i], trace[i])
        &&& entries[i].exactness == Some(Exactness::Exact)
        &&& entries[i].fields_set_count is None
        &&& entries[i].extra == if i == 0 {
            before.extra
        } else {
            trace[i - 1].state.extra
        }
    } by {
        assert(view.choices[i].0.yields(input, view.smart_entry(before, trace, i), trace[i]));
    }
    let holders = lemma_record_holders(trace);
    lemma_refuses(union, input, trace);
    if trace.len() > 0 {
        assert(trace[trace.len() - 1] == trace.last());
    }
    assert forall|i: int| 0 <= i < trace.len() - 1 implies goes_on(#[trigger] trace[i]) by {}
    if trace.len() == 0 || goes_on(trace.last()) {
        if best_match(trace) is Some {
            assert(record_holders(trace, holders));
        }
    }
    (trace, entries)
}

/// Whether a smart union goes on after an outcome: a success that was not exact or that set
/// fields, or a rejection.
pub open spec fn goes_on(outcome: Outcome) -> bool {
    match outcome.result {
        Ok(_) => outcome.state.exactness != Some(Exactness::Exact)
            || outcome.state.fields_set_count is Some,
        Err(error) => error is LineErrors,
    }
}

/// Whether outcomes are those of the choices that a smart union tried, from the given states.
pub open spec fn smart_trial<L: Validator, F: TagFunction>(
    union: &UnionValidator<L, F>,
    input: Value,
    before: ValidationState,
    trace: Seq<Outcome>,
    entries: Seq<ValidationState>,
) -> bool {
    &&& trace.len() == entries.len() <= union.choices@.len()
    &&& forall|i: int|
        0 <= i < trace.len() ==> {
            &&& choice_gave(union, i, input, before, #[trigger] entries[i], trace[i])
            &&& entries[i].exactness == Some(Exactness::Exact)
            &&& entries[i].fields_set_count is None
            &&& entries[i].extra == if i == 0 {
                before.extra
            } else {
                trace[i - 1].state.extra
            }
        }
    &&& forall|i: int| 0 <= i < trace.len() - 1 ==> goes_on(#[trigger] trace[i])
    &&& trace.len() < union.choices@.len() ==> trace.len() > 0 && !goes_on(trace.last())
}

/// Whether an outcome is what a smart union makes of the outcomes of its choices.
pub open spec fn smart_verdict<L: Validator, F: TagFunction>(
    union: &UnionValidator<L, F>,
    input: Value,
    before: ValidationState,
    trace: Seq<Outcome>,
    outcome: Outcome,
) -> bool {
    let extra = if trace.len() == 0 {
        before.extra
    } else {
        trace.last().state.extra
    };
    &&& outcome.state.strict == before.strict
    &&& outcome.state.extra == extra
    &&& if trace.len() > 0 && !goes_on(trace.last()) {
        &&& outcome.result == trace.last().result
        &&& outcome.result is Ok ==> outcome.state.exactness == before.exactness
            && outcome.state.fields_set_count == before.fields_set_count
        &&& outcome.result is Err ==> outcome.state.exactness == trace.last().state.exactness
            && outcome.state.fields_set_count == trace.last().state.fields_set_count
    } else if exists|i: int| 0 <= i < trace.len() && (#[trigger] trace[i]).result is Ok {
        exists|holders: Seq<int>| #[trigger]
            record_holders(trace, holders) && smart_success(
                before,
                trace[holders.last()],
                outcome,
            )
    } else {
        &&& outcome.result matches Err(error)
        &&& refuses(union, input, trace, error)
        &&& outcome.state.exactness == before.exactness
        &&& outcome.state.fields_set_count == before.fields_set_count
    }
}

/// Whether an outcome hands on a success: with its value, with the looser of its match and the
/// recorded one, and with its fields added to those counted before.
pub open spec fn smart_success(before: ValidationState, best: Outcome, outcome: Outcome) -> bool {
    &&& outcome.result is Ok
    &&& outcome.result == best.result
    &&& outcome.state.exactness is Some <==> before.exactness is Some
    &&& before.exactness is Some ==> closeness(outcome.state.exactness) == if closeness(
        best.state.exactness,
    ) < closeness(before.exactness) {
        closeness(best.state.exactness)
    } else {
        closeness(before.exactness)
    }
    &&& match best.state.fields_set_count {
        Some(count) => counted(before.fields_set_count, count, outcome.state.fields_set_count),
        None => outcome.state.fields_set_count == before.fields_set_count,
    }
}

/// Whether a count is another and some more, or the largest that there is.
pub open spec fn counted(kept: Option<usize>, more: usize, sum: Option<usize>) -> bool {
    let all: int = more + match kept {
        Some(n) => n as int,
        None => 0,
    };
    &&& sum is Some
    &&& sum->0 == if all <= usize::MAX {
        all
    } else {
        usize::MAX as int
    }
}

/// Among successes that all set fields, a smart union takes one that set the most of them; among
/// those the one that matched most closely; and among those the first. Among successes that set
/// no fields it takes the first of those that matched most closely.
pub proof fn law_smart_union_takes_the_best<L: Validator, F: TagFunction>(
    union: &UnionValidator<L, F>,
    input: Value,
    before: ValidationState,
    outcome: Outcome,
) -> (r: (Seq<Outcome>, Seq<ValidationState>, int))
    requires
        union@.smart_yields(input, before, outcome) || union.mode is Smart && union@.yields(
            input,
            before,
            outcome,
        ),
    ensures
        smart_trial(union, input, before, r.0, r.1),
        ({
            let (trace, entries, best) = r;
            (forall|i: int| 0 <= i < trace.len() ==> goes_on(#[trigger] trace[i])) && (exists|i: int|
                0 <= i < trace.len() && (#[trigger] trace[i]).result is Ok) ==> {
                &&& 0 <= best < trace.len()
                &&& trace[best].result is Ok
                &&& outcome.result == trace[best].result
                &&& (forall|i: int|
                    0 <= i < trace.len() && (#[trigger] trace[i]).result is Ok
                        ==> trace[i].state.fields_set_count is Some) ==> forall|j: int|
                    0 <= j < trace.len() && (#[trigger] trace[j]).result is Ok ==> {
                        let most = trace[best].state.fields_set_count->0;
                        let count = trace[j].state.fields_set_count->0;
                        &&& count <= most
                        &&& count == most ==> closeness(trace[j].state.exactness) <= closeness(
                            trace[best].state.exactness,
                        )
                        &&& count == most && j < best ==> closeness(trace[j].state.exactness)
                            < closeness(trace[best].state.exactness)
                    }
                &&& (forall|i: int|
                    0 <= i < trace.len() && (#[trigger] trace[i]).result is Ok
                        ==> trace[i].state.fields_set_count is None) ==> forall|j: int|
                    0 <= j < trace.len() && (#[trigger] trace[j]).result is Ok ==> {
                        &&& closeness(trace[j].state.exactness) <= closeness(
                            trace[best].state.exactness,
                        )
                        &&& j < best ==> closeness(trace[j].state.exactness) < closeness(
                            trace[best].state.exactness,
                        )
                    }
            }
        }),
{
    let (trace, entries) = law_smart_union_tries_its_choices(union, input, before, outcome);
    let all_go_on = forall|i: int| 0 <= i < trace.len() ==> goes_on(#[trigger] trace[i]);
    if all_go_on && exists|i: int| 0 <= i < trace.len() && (#[trigger] trace[i]).result is Ok {
        if trace.len() > 0 {
            assert(goes_on(trace[trace.len() - 1]));
        }
        let holders = choose|holders: Seq<int>| #[trigger]
            record_holders(trace, holders) && smart_success(before, trace[holders.last()], outcome);
        let top = holders.len() - 1;
        let best = holders[top];
        assert(holders.last() == best);
        assert forall|j: int|
            0 <= j < trace.len() && (#[trigger] trace[j]).result is Ok
                && all_count_alike(trace) implies !betters(trace[j], trace[best]) && (j < best
            ==> betters(trace[best], trace[j])) by {
            lemma_last_holder_is_best(trace, holders, top, j);
        }
        (trace, entries, best)
    } else {
        (trace, entries, 0)
    }
}

/// Whether all successes set fields, or none does.
spec fn all_count_alike(trace: Seq<Outcome>) -> bool {
    ||| forall|i: int|
        0 <= i < trace.len() && (#[trigger] trace[i]).result is Ok
            ==> trace[i].state.fields_set_count is Some
    ||| forall|i: int|
        0 <= i < trace.len() && (#[trigger] trace[i]).result is Ok
            ==> trace[i].state.fields_set_count is None
}

/// A record holder betters each success before it, and the last one is bettered by none.
proof fn lemma_last_holder_is_best(trace: Seq<Outcome>, holders: Seq<int>, h: int, j: int)
    requires
        record_holders(trace, holders),
        all_count_alike(trace),
        0 <= h < holders.len(),
        0 <= j < trace.len(),
        trace[j].result is Ok,
    ensures
        j < holders[h] ==> betters(trace[holders[h]], trace[j]),
        h == holders.len() - 1 ==> !betters(trace[j], trace[holders[h]]),
    decreases h,
{
    let b = holders[h];
    assert(trace[b].result is Ok);
    if j < b {
        if h == 0 {
            assert(trace[j].result is Err);
        } else {
            let a = holders[h - 1];
            assert(trace[a].result is Ok);
            assert(betters(trace[b], trace[a]));
            assert(unbettered(trace, a, b));
            lemma_last_holder_is_best(trace, holders, h - 1, j);
        }
    } else if h == holders.len() - 1 {
        assert(holders.last() == b);
    }
}

/// A success that set more fields than every other success is the one that a smart union takes,
/// whatever the order of the choices and however closely the others matched.
pub proof fn law_most_fields_win<L: Validator, F: TagFunction>(
    union: &UnionValidator<L, F>,
    input: Value,
    before: ValidationState,
    outcome: Outcome,
) -> (r: (Seq<Outcome>, Seq<ValidationState>))
    requires
        union@.smart_yields(input, before, outcome) || union.mode is Smart && union@.yields(
            input,
            before,
            outcome,
        ),
    ensures
        smart_trial(union, input, before, r.0, r.1),
        forall|w: int|
            (forall|i: int| 0 <= i < r.0.len() ==> goes_on(#[trigger] r.0[i])) && 0 <= w
                < r.0.len() && (#[trigger] r.0[w]).result is Ok
                && r.0[w].state.fields_set_count is Some && (forall|j: int|
                0 <= j < r.0.len() && j != w && (#[trigger] r.0[j]).result is Ok
                    ==> r.0[j].state.fields_set_count is Some && r.0[j].state.fields_set_count->0
                    < r.0[w].state.fields_set_count->0) ==> outcome.result == r.0[w].result,
{
    let (trace, entries, best) = law_smart_union_takes_the_best(union, input, before, outcome);
    assert forall|w: int|
        (forall|i: int| 0 <= i < trace.len() ==> goes_on(#[trigger] trace[i])) && 0 <= w
            < trace.len() && (#[trigger] trace[w]).result is Ok
            && trace[w].state.fields_set_count is Some && (forall|j: int|
            0 <= j < trace.len() && j != w && (#[trigger] trace[j]).result is Ok
                ==> trace[j].state.fields_set_count is Some && trace[j].state.fields_set_count->0
                < trace[w].state.fields_set_count->0) implies outcome.result
        == trace[w].result by {
        assert(trace[best].result is Ok);
    }
    (trace, entries)
}

/// Of two matches that both set fields, the one that set more is better, however closely they
/// matched; where they set as many, or one set none, the one that matched more closely is. No
/// match is better than itself, and no two are each better than the other.
pub proof fn law_better_match(
    a: Exactness,
    a_fields: Option<usize>,
    b: Exactness,
    b_fields: Option<usize>,
)
    ensures
        a_fields is Some && b_fields is Some && a_fields->0 < b_fields->0 ==> better_match(
            a,
            a_fields,
            b,
            b_fields,
        ) && !better_match(b, b_fields, a, a_fields),
        a_fields is None || b_fields is None || a_fields == b_fields ==> (better_match(
            a,
            a_fields,
            b,
            b_fields,
        ) <==> closeness(Some(a)) < closeness(Some(b))),
        !better_match(a, a_fields, a, a_fields),
{
}

/// A left-to-right union tries its choices in order, each from the state that the one before left
/// and each under its own strictness or else that of the union or the validation. It ends with
/// the first that does not reject the input, whose result it gives; where each rejects the input,
/// so does the union.
pub proof fn law_left_to_right_union_tries_its_choices<L: Validator, F: TagFunction>(
    union: &UnionValidator<L, F>,
    input: Value,
    before: ValidationState,
    outcome: Outcome,
) -> (r: (Seq<Outcome>, Seq<ValidationState>))
    requires
        union@.left_to_right_yields(input, before, outcome) || union.mode is LeftToRight
            && union@.yields(input, before, outcome),
    ensures
        ({
            let (trace, entries) = r;
            let n = trace.len() as int;
            &&& n == entries.len() <= union.choices@.len()
            &&& forall|i: int|
                0 <= i < n ==> {
                    let last = if i == 0 {
                        before
                    } else {
                        trace[i - 1].state
                    };
                    &&& choice_gave(union, i, input, before, #[trigger] entries[i], trace[i])
                    &&& entries[i].exactness == last.exactness
                    &&& entries[i].fields_set_count == last.fields_set_count
                    &&& entries[i].extra == last.extra
                }
            &&& forall|i: int|
                0 <= i < n - 1 ==> ((#[trigger] trace[i]).result matches Err(error)
                    && error is LineErrors)
            &&& outcome.state.strict == before.strict
            &&& n == 0 ==> outcome.state == before
            &&& n > 0 ==> outcome.state.exactness == trace.last().state.exactness
                && outcome.state.fields_set_count == trace.last().state.fields_set_count
                && outcome.state.extra == trace.last().state.extra
            &&& if n > 0 && !(trace.last().result matches Err(error) && error is LineErrors) {
                outcome.result == trace.last().result
            } else {
                &&& n == union.choices@.len()
                &&& outcome.result matches Err(error)
                &&& refuses(union, input, trace, error)
            }
        }),
{
    let view = union@;
    reveal(UnionView::left_to_right_tried);
    let trace = choose|trace: Seq<Outcome>| #[trigger]
        view.left_to_right_run(input, before, trace) && outcome == view.left_to_right_outcome(
            input,
            before,
            trace,
        );
    let entries = Seq::new(trace.len(), |i: int| view.left_to_right_entry(before, trace, i));
    assert forall|i: int| 0 <= i < trace.len() implies {
        let last = if i == 0 {
            before
        } else {
            trace[i - 1].state
        };
        &&& choice_gave(union, i, input, before, #[trigger] entries[i], trace[i])
        &&& entries[i].exactness == last.exactness
        &&& entries[i].fields_set_count == last.fields_set_count
        &&& entries[i].extra == last.extra
    } by {
        assert(view.choices[i].0.yields(
            input,
            view.left_to_right_entry(before, trace, i),
            trace[i],
        ));
    }
    lemma_refuses(union, input, trace);
    (trace, entries)
}

/// A union that is a leaf of another does there what it does by itself, under its name, and has
/// no strictness of its own.
pub proof fn law_union_as_a_leaf<L: Validator, F: TagFunction>(
    union: UnionValidator<L, F>,
    input: Value,
    before: ValidationState,
    outcome: Outcome,
)
    ensures
        union.may_yield(input, before, outcome) <==> union@.yields(input, before, outcome),
        union.spec_name() == union.name@,
        union.spec_field_strict() is None,
{
}

} // verus!
