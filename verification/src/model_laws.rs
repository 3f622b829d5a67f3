//! What models, fields and validators of single values do, in terms of inputs and results alone.
use crate::combined::CombinedValidator;
use crate::errors::{ErrorTypeView, LocItemView, ValErrorView};
use crate::field::{with_strict, FieldValidator};
use crate::model::{ModelValidator, ModelView};
use crate::scalar::{IntValidator, ScalarValidator, StrValidator};
use crate::state::{Exactness, ValidationState};
use crate::text::parsed_int;
use crate::union::rejects;
use crate::union_laws::{
    closeness, counted, lemma_lines_before, lemma_lines_grow, lines_before, lines_of, one_error,
    reports,
};
use crate::validator::{NoTag, Outcome, TagFunction, Validator};
use crate::value::{Fields, Value};
use crate::value_laws::{first_named, law_first_named_part};
use vstd::prelude::*;

verus! {

/// Whether attributes of an input may be read: as the validation says, or else as the model says.
pub open spec fn reads_attributes<L: Validator, F: TagFunction>(
    model: &ModelValidator<L, F>,
    before: ValidationState,
) -> bool {
    if before.extra.from_attributes is Some {
        before.extra.from_attributes->0
    } else {
        model.from_attributes
    }
}

/// Whether parts of an input may be read by name: those of a dictionary always, of another
/// mapping where neither the validation nor the model is strict, of an object where attributes
/// may be read.
pub open spec fn readable<L: Validator, F: TagFunction>(
    model: &ModelValidator<L, F>,
    input: Value,
    before: ValidationState,
    parts: Fields,
) -> bool {
    match input {
        Value::Dict { fields, .. } => parts == fields,
        Value::Mapping { fields, .. } => !before.strict && !model.strict && parts == fields,
        Value::Object { attributes, .. } => reads_attributes(model, before) && parts == attributes,
        _ => false,
    }
}

/// Whether the one field of a model is the whole input.
pub open spec fn is_root<L: Validator, F: TagFunction>(model: &ModelValidator<L, F>) -> bool {
    model.root_model && model.fields@.len() == 1
}

/// Whether an outcome may be that of a field, read from a part: one that its validator yields, the
/// exception that reading the part raised, or the one error of a missing part.
pub open spec fn field_gave<L: Validator, F: TagFunction>(
    model: &ModelValidator<L, F>,
    i: int,
    part: Option<Value>,
    input: Value,
    entry: ValidationState,
    outcome: Outcome,
) -> bool {
    match part {
        Some(Value::Raised(id)) => outcome == (Outcome {
            result: Err(ValErrorView::InternalErr(id)),
            state: entry,
        }),
        Some(value) => model.fields@[i].validator@.yields(value, entry, outcome),
        None => {
            &&& outcome.state == entry
            &&& outcome.result matches Err(error)
            &&& one_error(error, ErrorTypeView::Missing, input)
        },
    }
}

/// Whether outcomes are those of the first fields of a model, in order, each from the part of its
/// name and from the state that the field before left. A field's own strictness holds; a field
/// without one is validated strictly where the model or the validation is strict.
pub open spec fn fields_gave<L: Validator, F: TagFunction>(
    model: &ModelValidator<L, F>,
    input: Value,
    before: ValidationState,
    parts: Seq<Option<Value>>,
    entries: Seq<ValidationState>,
    trace: Seq<Outcome>,
) -> bool {
    &&& trace.len() == entries.len() == parts.len() <= model.fields@.len()
    &&& forall|i: int|
        0 <= i < trace.len() ==> {
            let last = if i == 0 {
                before
            } else {
                trace[i - 1].state
            };
            &&& field_gave(model, i, parts[i], input, #[trigger] entries[i], trace[i])
            &&& entries[i].exactness == last.exactness
            &&& entries[i].fields_set_count == last.fields_set_count
            &&& entries[i].extra == last.extra
            &&& model.fields@[i].strict matches Some(own) ==> entries[i].strict == own
            &&& model.fields@[i].strict is None ==> entries[i].strict == (model.strict
                || before.strict)
        }
}

/// Whether an outcome is what a model makes of those of its fields: the failure that ended it, or
/// all errors of the fields under their names, or an object with all the values, which counts as
/// a lax match that set all fields.
pub open spec fn model_verdict<L: Validator, F: TagFunction>(
    model: &ModelValidator<L, F>,
    before: ValidationState,
    trace: Seq<Outcome>,
    outcome: Outcome,
) -> bool {
    let last = if trace.len() == 0 {
        before
    } else {
        trace.last().state
    };
    &&& outcome.state.strict == before.strict
    &&& outcome.state.extra == last.extra
    &&& if trace.len() > 0 && ends(trace.last()) {
        &&& outcome.result == trace.last().result
        &&& outcome.state.exactness == last.exactness
        &&& outcome.state.fields_set_count == last.fields_set_count
    } else if exists|i: int| 0 <= i < trace.len() && (#[trigger] trace[i]).result is Err {
        &&& outcome.result matches Err(ValErrorView::LineErrors(reported))
        &&& reports(reported, trace, field_names(model))
        &&& outcome.state.exactness == last.exactness
        &&& outcome.state.fields_set_count == last.fields_set_count
    } else {
        &&& outcome.result matches Ok(Value::Object { attributes, text })
        &&& text@ == model.name@
        &&& attributes@.len() == model.fields@.len() == trace.len()
        &&& forall|i: int|
            0 <= i < trace.len() ==> (#[trigger] attributes@[i]).0 == model.fields@[i].name
                && trace[i].result == Ok::<Value, ValErrorView>(*attributes@[i].1)
        &&& outcome.state.exactness is Some <==> last.exactness is Some
        &&& closeness(outcome.state.exactness) == 0
        &&& counted(
            last.fields_set_count,
            model.fields.len(),
            outcome.state.fields_set_count,
        )
    }
}

/// Whether an outcome is a failure that is not about the input.
pub open spec fn ends(outcome: Outcome) -> bool {
    outcome.result is Err && outcome.result->Err_0 !is LineErrors
}

/// The names of the fields of a model.
pub open spec fn field_names<L: Validator, F: TagFunction>(model: &ModelValidator<L, F>) -> Seq<
    Seq<char>,
> {
    Seq::new(model.fields@.len(), |i: int| model.fields@[i].name@)
}

proof fn lemma_model_reports(view: ModelView, trace: Seq<Outcome>, names: Seq<Seq<char>>)
    requires
        trace.len() <= names.len(),
        forall|i: int| 0 <= i < trace.len() ==> (#[trigger] view.fields[i]).name@ == names[i],
    ensures
        reports(view.trace_lines(trace), trace, names),
    decreases trace.len(),
{
    if trace.len() > 0 {
        let init = trace.drop_last();
        let last = trace.len() - 1;
        lemma_model_reports(view, init, names);
        lemma_lines_before(init, trace, last);
        assert(view.fields[last].name@ == names[last]);
        let all = view.trace_lines(trace);
        let head = view.trace_lines(init);
        assert forall|i: int, k: int|
            0 <= i < trace.len() && 0 <= k < lines_of(trace[i]).len() implies {
            let line = #[trigger] lines_of(trace[i])[k];
            let shown = all[lines_before(trace, i) + k];
            &&& shown.error_type == line.error_type
            &&& shown.input_value == line.input_value
            &&& shown.location == seq![LocItemView::S(names[i])] + line.location
        } by {
            let line = lines_of(trace[i])[k];
            if i < last {
                assert(init[i] == trace[i]);
                lemma_lines_before(init, trace, i);
                lemma_lines_grow(init, i, init.len() as int);
                assert(lines_of(init[i])[k] == line);
                assert(all[lines_before(trace, i) + k] == head[lines_before(init, i) + k]);
            }
        }
    }
}

/// The parts and states that the fields of a model were validated from.
proof fn lemma_model_trial<L: Validator, F: TagFunction>(
    model: &ModelValidator<L, F>,
    parts: Fields,
    input: Value,
    before: ValidationState,
    trace: Seq<Outcome>,
) -> (r: (Seq<Option<Value>>, Seq<ValidationState>))
    requires
        is_root(model) || readable(model, input, before, parts),
        model@.run(input, before, trace),
    ensures
        fields_gave(model, input, before, r.0, r.1, trace),
        forall|i: int|
            0 <= i < r.0.len() ==> if is_root(model) {
                #[trigger] r.0[i] == Some(input)
            } else {
                first_named(parts@, model.fields@[i].name@, r.0[i])
            },
{
    let view = model@;
    reveal(ModelView::tried);
    let entries = Seq::new(trace.len(), |i: int| view.entry(before, trace, i));
    let found = Seq::new(trace.len(), |i: int| view.part(i, input, before));
    assert forall|i: int| 0 <= i < trace.len() implies {
        let last = if i == 0 {
            before
        } else {
            trace[i - 1].state
        };
        &&& field_gave(model, i, found[i], input, #[trigger] entries[i], trace[i])
        &&& entries[i].exactness == last.exactness
        &&& entries[i].fields_set_count == last.fields_set_count
        &&& entries[i].extra == last.extra
        &&& model.fields@[i].strict matches Some(own) ==> entries[i].strict == own
        &&& model.fields@[i].strict is None ==> entries[i].strict == (model.strict
            || before.strict)
    } by {
        assert(view.field_yields(i, input, before, view.entry(before, trace, i), trace[i]));
    }
    assert forall|i: int| 0 <= i < found.len() implies if is_root(model) {
        #[trigger] found[i] == Some(input)
    } else {
        first_named(parts@, model.fields@[i].name@, found[i])
    } by {
        law_first_named_part(parts@, model.fields@[i].name@);
    }
    (found, entries)
}

/// What a model makes of the outcomes of its fields.
proof fn lemma_model_verdict<L: Validator, F: TagFunction>(
    model: &ModelValidator<L, F>,
    input: Value,
    before: ValidationState,
    trace: Seq<Outcome>,
    outcome: Outcome,
)
    requires
        model@.run(input, before, trace),
        model@.makes(before, trace, outcome),
    ensures
        forall|i: int| 0 <= i < trace.len() - 1 ==> !ends(#[trigger] trace[i]),
        trace.len() < model.fields@.len() ==> trace.len() > 0 && ends(trace.last()),
        model_verdict(model, before, trace, outcome),
{
    assert(trace.len() <= model.fields@.len()) by {
        reveal(ModelView::tried);
    }
    lemma_model_reports(model@, trace, field_names(model));
    assert(model.fields.len() == model.fields@.len());
    if trace.len() > 0 && ends(trace.last()) {
    } else if exists|i: int| 0 <= i < trace.len() && (#[trigger] trace[i]).result is Err {
        let i = choose|i: int| 0 <= i < trace.len() && (#[trigger] trace[i]).result is Err;
        if i == trace.len() - 1 {
            assert(trace[i] == trace.last());
        }
        assert(rejects(trace[i]));
    } else {
        assert forall|i: int| 0 <= i < trace.len() implies !rejects(#[trigger] trace[i]) by {
            assert(trace[i].result is Ok);
        }
    }
}

/// A model validates its fields in order, each from the part of the input that has its name, and
/// makes an object of their values. A field without a strictness of its own is validated strictly
/// where the model or the validation is strict; one that has its own is validated with it.
pub proof fn law_model_validates_its_fields<L: Validator, F: TagFunction>(
    model: &ModelValidator<L, F>,
    parts: Fields,
    input: Value,
    before: ValidationState,
    outcome: Outcome,
) -> (r: (Seq<Option<Value>>, Seq<ValidationState>, Seq<Outcome>))
    requires
        is_root(model) || readable(model, input, before, parts),
        model@.yields(input, before, outcome),
    ensures
        fields_gave(model, input, before, r.0, r.1, r.2),
        forall|i: int|
            0 <= i < r.0.len() ==> if is_root(model) {
                #[trigger] r.0[i] == Some(input)
            } else {
                first_named(parts@, model.fields@[i].name@, r.0[i])
            },
        forall|i: int| 0 <= i < r.2.len() - 1 ==> !ends(#[trigger] r.2[i]),
        r.2.len() < model.fields@.len() ==> r.2.len() > 0 && ends(r.2.last()),
        model_verdict(model, before, r.2, outcome),
{
    let trace = choose|trace: Seq<Outcome>| #[trigger]
        model@.run(input, before, trace) && model@.makes(before, trace, outcome);
    let (found, entries) = lemma_model_trial(model, parts, input, before, trace);
    lemma_model_verdict(model, input, before, trace, outcome);
    (found, entries, trace)
}

/// A model rejects an input whose parts may not be read by name, unless its one field is the
/// whole input, with the one error that it is no dictionary, or no object either where attributes
/// may be read.
pub proof fn law_model_needs_named_parts<L: Validator, F: TagFunction>(
    model: &ModelValidator<L, F>,
    input: Value,
    before: ValidationState,
    outcome: Outcome,
)
    requires
        !is_root(model),
        input !is Dict,
        input is Mapping ==> before.strict || model.strict,
        input is Object ==> !reads_attributes(model, before),
        model@.yields(input, before, outcome),
    ensures
        outcome.state == before,
        outcome.result is Err,
        one_error(
            outcome.result->Err_0,
            if reads_attributes(model, before) {
                ErrorTypeView::ModelAttributesType
            } else {
                ErrorTypeView::DictType
            },
            input,
        ),
{
}

/// A field of a model without a strictness of its own is validated strictly where the model or
/// the validation is strict.
pub proof fn law_field_inherits_strictness(
    model: ModelView,
    input: Value,
    before: ValidationState,
    trace: Seq<Outcome>,
    i: int,
)
    requires
        model.run(input, before, trace),
        0 <= i < trace.len(),
        model.fields[i].strict is None,
    ensures
        exists|entry: ValidationState|
            entry.strict == (model.strict || before.strict) && #[trigger] model.field_yields(
                i,
                input,
                before,
                entry,
                trace[i],
            ),
{
    reveal(ModelView::tried);
    let entry = model.entry(before, trace, i);
    assert(model.field_yields(i, input, before, entry, trace[i]));
}

/// A field validates with its validator under its own strictness, or else under that of the
/// validation. It gives the same result, and leaves the state as its validator did, with the
/// strictness of before.
pub proof fn law_field_validates_under_its_strictness<L: Validator, F: TagFunction>(
    field: &FieldValidator<L, F>,
    input: Value,
    before: ValidationState,
    outcome: Outcome,
) -> (r: (ValidationState, Outcome))
    requires
        field@.yields(input, before, outcome),
    ensures
        field.validator@.yields(input, r.0, r.1),
        field.strict matches Some(own) ==> r.0.strict == own,
        field.strict is None ==> r.0.strict == before.strict,
        r.0.exactness == before.exactness,
        r.0.fields_set_count == before.fields_set_count,
        r.0.extra == before.extra,
        outcome.result == r.1.result,
        outcome.state.exactness == r.1.state.exactness,
        outcome.state.fields_set_count == r.1.state.fields_set_count,
        outcome.state.extra == r.1.state.extra,
        outcome.state.strict == before.strict,
{
    let entry = field@.entry(before);
    let inner = choose|inner: Outcome| #[trigger]
        field@.validator.yields(input, entry, inner) && outcome == with_strict(
            inner,
            before.strict,
        );
    (entry, inner)
}

/// Whether an outcome hands the input on as it is.
pub open spec fn taken(input: Value, before: ValidationState, outcome: Outcome) -> bool {
    outcome.result == Ok::<Value, ValErrorView>(input) && outcome.state == before
}

/// Whether an outcome is a value that the input was converted to, which is a lax match.
pub open spec fn converted(value: Value, before: ValidationState, outcome: Outcome) -> bool {
    &&& outcome.result == Ok::<Value, ValErrorView>(value)
    &&& outcome.state.exactness == if before.exactness is Some {
        Some(Exactness::Lax)
    } else {
        None
    }
    &&& outcome.state.fields_set_count == before.fields_set_count
    &&& outcome.state.strict == before.strict
    &&& outcome.state.extra == before.extra
}

/// Whether an outcome is one error about the input.
pub open spec fn wrong(
    error_type: ErrorTypeView,
    input: Value,
    before: ValidationState,
    outcome: Outcome,
) -> bool {
    &&& outcome.state == before
    &&& outcome.result matches Err(error)
    &&& one_error(error, error_type, input)
}

/// An integer is taken for an integer as it is. Where neither the validator nor the validation is
/// strict, a boolean is converted to one or zero, and a text to the integer that it stands for.
/// Everything else is rejected.
pub proof fn law_integers(
    validator: IntValidator,
    input: Value,
    before: ValidationState,
    outcome: Outcome,
)
    requires
        validator.may_yield(input, before, outcome),
    ensures
        input is Int ==> taken(input, before, outcome),
        input !is Int && (before.strict || validator.strict) ==> wrong(
            ErrorTypeView::IntType,
            input,
            before,
            outcome,
        ),
        input is Bool && !before.strict && !validator.strict ==> converted(
            Value::Int(
                if input->Bool_0 {
                    1
                } else {
                    0
                },
            ),
            before,
            outcome,
        ),
        (input is Str || input is Text) && !before.strict && !validator.strict ==> {
            let text = if input is Str {
                input->Str_0@
            } else {
                input->Text_0@
            };
            match parsed_int(text) {
                Some(i) => i64::MIN <= i <= i64::MAX && converted(
                    Value::Int(i as i64),
                    before,
                    outcome,
                ),
                None => wrong(ErrorTypeView::IntParsing, input, before, outcome),
            }
        },
        input !is Int && input !is Bool && input !is Str && input !is Text ==> wrong(
            ErrorTypeView::IntType,
            input,
            before,
            outcome,
        ),
{
}

/// A string is taken for a string as it is. Where neither the validator nor the validation is
/// strict, text whose type is not known is converted to the same string. Everything else is
/// rejected.
pub proof fn law_strings(
    validator: StrValidator,
    input: Value,
    before: ValidationState,
    outcome: Outcome,
)
    requires
        validator.may_yield(input, before, outcome),
    ensures
        input is Str ==> taken(input, before, outcome),
        input is Text && !before.strict && !validator.strict ==> converted(
            Value::Str(input->Text_0),
            before,
            outcome,
        ),
        input is Text && (before.strict || validator.strict) ==> wrong(
            ErrorTypeView::StringType,
            input,
            before,
            outcome,
        ),
        input !is Str && input !is Text ==> wrong(
            ErrorTypeView::StringType,
            input,
            before,
            outcome,
        ),
{
}

/// A validator of a single value does what the validator of its kind does, is called by the kind,
/// and has the strictness that it was made with.
pub proof fn law_scalars(
    validator: ScalarValidator,
    input: Value,
    before: ValidationState,
    outcome: Outcome,
)
    ensures
        validator matches ScalarValidator::Int(kind) ==> {
            &&& validator.may_yield(input, before, outcome) <==> kind.may_yield(
                input,
                before,
                outcome,
            )
            &&& validator.spec_name() == "int"@
            &&& kind.spec_name() == "int"@
            &&& validator.spec_field_strict() == Some(kind.strict)
            &&& kind.spec_field_strict() == Some(kind.strict)
        },
        validator matches ScalarValidator::Str(kind) ==> {
            &&& validator.may_yield(input, before, outcome) <==> kind.may_yield(
                input,
                before,
                outcome,
            )
            &&& validator.spec_name() == "str"@
            &&& kind.spec_name() == "str"@
            &&& validator.spec_field_strict() == Some(kind.strict)
            &&& kind.spec_field_strict() == Some(kind.strict)
        },
{
}

/// A combined validator does what the validator does that it is. A field has the strictness that
/// it was given and the name of its validator; models and unions have none of their own and are
/// called by their names.
pub proof fn law_combined_validator_is_its_validator<L: Validator, F: TagFunction>(
    validator: &CombinedValidator<L, F>,
    input: Value,
    before: ValidationState,
    outcome: Outcome,
)
    ensures
        match *validator {
            CombinedValidator::Leaf(leaf) => {
                &&& validator@.yields(input, before, outcome) <==> leaf.may_yield(
                    input,
                    before,
                    outcome,
                )
                &&& validator@.name == leaf.spec_name()
                &&& validator@.strict == leaf.spec_field_strict()
            },
            CombinedValidator::Field(field) => {
                &&& validator@.yields(input, before, outcome) <==> field@.yields(
                    input,
                    before,
                    outcome,
                )
                &&& validator@.name == field.validator@.name
                &&& validator@.strict == field.strict
            },
            CombinedValidator::Model(model) => {
                &&& validator@.yields(input, before, outcome) <==> model@.yields(
                    input,
                    before,
                    outcome,
                )
                &&& validator@.name == model.name@
                &&& validator@.strict is None
            },
            CombinedValidator::Union(union) => {
                &&& validator@.yields(input, before, outcome) <==> union@.yields(
                    input,
                    before,
                    outcome,
                )
                &&& validator@.name == union.name@
                &&& validator@.strict is None
            },
            CombinedValidator::TaggedUnion(union) => {
                &&& validator@.yields(input, before, outcome) <==> union@.yields(
                    input,
                    before,
                    outcome,
                )
                &&& validator@.name == union.name@
                &&& validator@.strict is None
            },
        },
{
}

/// The function that finds no tag gives none for every input.
pub proof fn law_no_tag_gives_none(input: Value, tag: Result<Value, u64>)
    requires
        NoTag.may_tag(input, tag),
    ensures
        tag matches Ok(value) && value is Null,
{
}

} // verus!
