//! What tagged unions do, in terms of their tags, inputs and results alone.
use std::sync::Arc;

use crate::errors::{ErrorTypeView, LocItemView, ValErrorView};
use crate::state::ValidationState;
use crate::tagged::{
    called_tag, lemma_find, spec_find, under_tag, Discriminator, DiscriminatorView, Literal,
    TaggedUnionValidator,
};
use crate::text::decimal_int;
use crate::union_laws::one_error;
use crate::validator::{tag_view, Outcome, TagFunction, Validator};
use crate::value::{Fields, LookupKey, PathItem, Value};
use crate::value_laws::{first_named, law_key_of_one_name};
use vstd::prelude::*;

verus! {

/// Whether a failure is the custom error of a tagged union, or else the given one, about the
/// whole input.
pub open spec fn fails_with<L: Validator, F: TagFunction>(
    union: &TaggedUnionValidator<L, F>,
    error_type: ErrorTypeView,
    input: Value,
    error: ValErrorView,
) -> bool {
    match union.custom_error {
        Some(custom) => one_error(
            error,
            ErrorTypeView::CustomError {
                error_type: custom.error_type@,
                message_template: custom.message_template@,
                context: custom.context,
            },
            input,
        ),
        None => one_error(error, error_type, input),
    }
}

/// Whether an outcome is the failure for an input without a tag.
pub open spec fn finds_no_tag<L: Validator, F: TagFunction>(
    union: &TaggedUnionValidator<L, F>,
    input: Value,
    before: ValidationState,
    outcome: Outcome,
) -> bool {
    &&& outcome.state == before
    &&& outcome.result matches Err(error)
    &&& fails_with(
        union,
        ErrorTypeView::UnionTagNotFound {
            discriminator: union.discriminator_repr@,
            context: None,
        },
        input,
        error,
    )
}

/// Whether an outcome is the failure for a tag that no choice has, shown by its text.
pub open spec fn knows_no_tag<L: Validator, F: TagFunction>(
    union: &TaggedUnionValidator<L, F>,
    text: Seq<char>,
    input: Value,
    before: ValidationState,
    outcome: Outcome,
) -> bool {
    &&& outcome.state == before
    &&& outcome.result matches Err(error)
    &&& fails_with(
        union,
        ErrorTypeView::UnionTagInvalid {
            discriminator: union.discriminator_repr@,
            tag: text,
            expected_tags: union.tags_repr@,
            context: None,
        },
        input,
        error,
    )
}

/// Whether an outcome is one of a choice, its errors located under a step.
pub open spec fn choice_under<L: Validator, F: TagFunction>(
    union: &TaggedUnionValidator<L, F>,
    i: int,
    step: LocItemView,
    input: Value,
    before: ValidationState,
    outcome: Outcome,
) -> bool {
    exists|inner: Outcome| #[trigger]
        union.lookup.entries@[i].1@.yields(input, before, inner) && passed_on(inner, step, outcome)
}

/// Whether an outcome is another one with its errors located under a step.
pub open spec fn passed_on(inner: Outcome, step: LocItemView, outcome: Outcome) -> bool {
    &&& outcome.state == inner.state
    &&& match inner.result {
        Err(ValErrorView::LineErrors(lines)) => {
            &&& outcome.result matches Err(ValErrorView::LineErrors(shown))
            &&& shown.len() == lines.len()
            &&& forall|k: int|
                0 <= k < lines.len() ==> {
                    &&& (#[trigger] shown[k]).error_type == lines[k].error_type
                    &&& shown[k].input_value == lines[k].input_value
                    &&& shown[k].location == seq![step] + lines[k].location
                }
        },
        _ => outcome.result == inner.result,
    }
}

/// The outcome of the choice at a position, under the step that the tag names.
proof fn lemma_choice_under<L: Validator, F: TagFunction>(
    union: &TaggedUnionValidator<L, F>,
    tag: Value,
    step: LocItemView,
    i: int,
    input: Value,
    before: ValidationState,
    outcome: Outcome,
)
    requires
        0 <= i < union.lookup.entries@.len(),
        spec_find(union@.entries, tag) == Some(i),
        step == crate::errors::LocItem::spec_of_value(tag),
        union@.tag_yields(tag, input, before, outcome),
    ensures
        choice_under(union, i, step, input, before, outcome),
{
    assert(union@.choice_yields(i, tag, input, before, outcome));
    let inner = choose|inner: Outcome| #[trigger]
        union@.entries[i].1.yields(input, before, inner) && outcome == under_tag(inner, tag);
    assert(union.lookup.entries@[i].1@.yields(input, before, inner));
    assert(passed_on(inner, step, outcome));
}

/// The last entry that a tag is that of is the one that is found.
proof fn lemma_found_at<L: Validator, F: TagFunction>(
    union: &TaggedUnionValidator<L, F>,
    tag: Value,
    i: int,
)
    requires
        0 <= i < union.lookup.entries@.len(),
        union.lookup.entries@[i].0.spec_is(tag),
        forall|j: int|
            i < j < union.lookup.entries@.len() ==> !(
            #[trigger] union.lookup.entries@[j]).0.spec_is(tag),
    ensures
        spec_find(union@.entries, tag) == Some(i),
{
    lemma_find(union@.entries, tag);
    assert(union@.entries[i].0 == union.lookup.entries@[i].0);
    if let Some(k) = spec_find(union@.entries, tag) {
        assert(union@.entries[k].0 == union.lookup.entries@[k].0);
    }
}

/// An entry that is not that of a tag is not found.
proof fn lemma_found_nowhere<L: Validator, F: TagFunction>(
    union: &TaggedUnionValidator<L, F>,
    tag: Value,
)
    requires
        forall|j: int|
            0 <= j < union.lookup.entries@.len() ==> !(
            #[trigger] union.lookup.entries@[j]).0.spec_is(tag),
    ensures
        spec_find(union@.entries, tag) is None,
{
    lemma_find(union@.entries, tag);
    if let Some(k) = spec_find(union@.entries, tag) {
        assert(union@.entries[k].0 == union.lookup.entries@[k].0);
    }
}

/// An input whose tag is a text is validated against the choice whose tag is the same text,
/// character by character (the last one, where several have it), with errors located under that
/// text.
pub proof fn law_text_tag_finds_its_choice<L: Validator, F: TagFunction>(
    union: &TaggedUnionValidator<L, F>,
    tag: Value,
    text: Seq<char>,
    i: int,
    input: Value,
    before: ValidationState,
    outcome: Outcome,
)
    requires
        (tag matches Value::Str(s) && s@ == text) || (tag matches Value::Text(s) && s@ == text),
        0 <= i < union.lookup.entries@.len(),
        union.lookup.entries@[i].0 matches Literal::Str(own) && own@ == text,
        forall|j: int|
            i < j < union.lookup.entries@.len() ==> ((
            #[trigger] union.lookup.entries@[j]).0 matches Literal::Str(own) ==> own@ != text),
        union@.tag_yields(tag, input, before, outcome),
    ensures
        choice_under(union, i, LocItemView::S(text), input, before, outcome),
{
    lemma_found_at(union, tag, i);
    lemma_choice_under(union, tag, LocItemView::S(text), i, input, before, outcome);
}

/// An input whose tag is a text that is that of no choice is answered with the one error that
/// shows the text, or with the custom error.
pub proof fn law_unknown_text_tag<L: Validator, F: TagFunction>(
    union: &TaggedUnionValidator<L, F>,
    tag: Value,
    text: Seq<char>,
    input: Value,
    before: ValidationState,
    outcome: Outcome,
)
    requires
        (tag matches Value::Str(s) && s@ == text) || (tag matches Value::Text(s) && s@ == text),
        forall|j: int|
            0 <= j < union.lookup.entries@.len() ==> ((
            #[trigger] union.lookup.entries@[j]).0 matches Literal::Str(own) ==> own@ != text),
        union@.tag_yields(tag, input, before, outcome),
    ensures
        knows_no_tag(union, text, input, before, outcome),
{
    lemma_found_nowhere(union, tag);
}

/// An input whose tag is an integer is validated against the choice whose tag is that integer,
/// with errors located under it; where no choice has it, the one error shows it in decimal.
pub proof fn law_integer_tag<L: Validator, F: TagFunction>(
    union: &TaggedUnionValidator<L, F>,
    tag: i64,
    i: int,
    input: Value,
    before: ValidationState,
    outcome: Outcome,
)
    requires
        union@.tag_yields(Value::Int(tag), input, before, outcome),
    ensures
        0 <= i < union.lookup.entries@.len() && union.lookup.entries@[i].0 == Literal::Int(tag) && (
        forall|j: int|
            i < j < union.lookup.entries@.len() ==> (
            #[trigger] union.lookup.entries@[j]).0 != Literal::Int(tag)) ==> choice_under(
            union,
            i,
            LocItemView::I(tag as int),
            input,
            before,
            outcome,
        ),
        (forall|j: int|
            0 <= j < union.lookup.entries@.len() ==> (
            #[trigger] union.lookup.entries@[j]).0 != Literal::Int(tag)) ==> knows_no_tag(
            union,
            decimal_int(tag as int),
            input,
            before,
            outcome,
        ),
{
    let value = Value::Int(tag);
    if 0 <= i < union.lookup.entries@.len() && union.lookup.entries@[i].0 == Literal::Int(tag) && (
    forall|j: int|
        i < j < union.lookup.entries@.len() ==> (#[trigger] union.lookup.entries@[j]).0
            != Literal::Int(tag)) {
        lemma_found_at(union, value, i);
        lemma_choice_under(union, value, LocItemView::I(tag as int), i, input, before, outcome);
    }
    if forall|j: int|
        0 <= j < union.lookup.entries@.len() ==> (#[trigger] union.lookup.entries@[j]).0
            != Literal::Int(tag) {
        lemma_found_nowhere(union, value);
    }
}

/// An input whose tag is a boolean is validated against the choice whose tag is that boolean,
/// with errors located under its text; where no choice has it, the one error shows that text.
pub proof fn law_boolean_tag<L: Validator, F: TagFunction>(
    union: &TaggedUnionValidator<L, F>,
    tag: bool,
    i: int,
    input: Value,
    before: ValidationState,
    outcome: Outcome,
)
    requires
        union@.tag_yields(Value::Bool(tag), input, before, outcome),
    ensures
        ({
            let text = if tag {
                "True"@
            } else {
                "False"@
            };
            &&& 0 <= i < union.lookup.entries@.len() && union.lookup.entries@[i].0
                == Literal::Bool(tag) && (forall|j: int|
                i < j < union.lookup.entries@.len() ==> (
                #[trigger] union.lookup.entries@[j]).0 != Literal::Bool(tag)) ==> choice_under(
                union,
                i,
                LocItemView::S(text),
                input,
                before,
                outcome,
            )
            &&& (forall|j: int|
                0 <= j < union.lookup.entries@.len() ==> (
                #[trigger] union.lookup.entries@[j]).0 != Literal::Bool(tag)) ==> knows_no_tag(
                union,
                text,
                input,
                before,
                outcome,
            )
        }),
{
    let value = Value::Bool(tag);
    let text = if tag {
        "True"@
    } else {
        "False"@
    };
    if 0 <= i < union.lookup.entries@.len() && union.lookup.entries@[i].0 == Literal::Bool(tag) && (
    forall|j: int|
        i < j < union.lookup.entries@.len() ==> (#[trigger] union.lookup.entries@[j]).0
            != Literal::Bool(tag)) {
        lemma_found_at(union, value, i);
        lemma_choice_under(union, value, LocItemView::S(text), i, input, before, outcome);
    }
    if forall|j: int|
        0 <= j < union.lookup.entries@.len() ==> (#[trigger] union.lookup.entries@[j]).0
            != Literal::Bool(tag) {
        lemma_found_nowhere(union, value);
    }
}

/// A tag that is no text, integer or boolean is that of no choice.
pub proof fn law_other_tags_are_unknown<L: Validator, F: TagFunction>(
    union: &TaggedUnionValidator<L, F>,
    tag: Value,
    input: Value,
    before: ValidationState,
    outcome: Outcome,
)
    requires
        tag !is Str && tag !is Text && tag !is Int && tag !is Bool,
        union@.tag_yields(tag, input, before, outcome),
    ensures
        knows_no_tag(union, tag.spec_text(), input, before, outcome),
{
    lemma_found_nowhere(union, tag);
}

/// A literal is a value exactly where both are texts of the same characters, the same integer or
/// the same boolean.
pub proof fn law_literal_is_a_value(literal: Literal, value: Value)
    ensures
        value matches Value::Str(s) ==> (literal.spec_is(value) <==> (
        literal matches Literal::Str(own) && own@ == s@)),
        value matches Value::Text(s) ==> (literal.spec_is(value) <==> (
        literal matches Literal::Str(own) && own@ == s@)),
        value matches Value::Int(n) ==> (literal.spec_is(value) <==> literal == Literal::Int(n)),
        value matches Value::Bool(b) ==> (literal.spec_is(value) <==> literal == Literal::Bool(b)),
        value !is Str && value !is Text && value !is Int && value !is Bool ==> !literal.spec_is(
            value,
        ),
{
}

/// Where a function gave a value, other than none, the outcomes are those of validating with that
/// value as the tag; where it gave none, the input has no tag; an exception that it raised is
/// passed on.
pub proof fn law_tag_that_a_function_gave<L: Validator, F: TagFunction>(
    union: &TaggedUnionValidator<L, F>,
    called: Result<Arc<Value>, u64>,
    input: Value,
    before: ValidationState,
    outcome: Outcome,
)
    ensures
        ({
            let yields = union@.found_yields(
                called_tag(tag_view(called)),
                input,
                before,
                outcome,
            );
            match called {
                Ok(tag) => if *tag is Null {
                    yields ==> finds_no_tag(union, input, before, outcome)
                } else {
                    yields <==> union@.tag_yields(*tag, input, before, outcome)
                },
                Err(id) => yields <==> outcome == (Outcome {
                    result: Err(ValErrorView::InternalErr(id)),
                    state: before,
                }),
            }
        }),
{
}

/// A tagged union with a function takes as the tag what the function gives for the input: a value
/// other than none is the tag, whatever its kind; only where the function gives none does the
/// input have no tag.
pub proof fn law_tagged_union_asks_its_function<L: Validator, F: TagFunction>(
    union: &TaggedUnionValidator<L, F>,
    function: F,
    input: Value,
    before: ValidationState,
    outcome: Outcome,
) -> (called: Result<Value, u64>)
    requires
        union.discriminator == Discriminator::Function(function),
        union@.yields(input, before, outcome),
    ensures
        function.may_tag(input, called),
        match called {
            Ok(Value::Null) => finds_no_tag(union, input, before, outcome),
            Ok(tag) => union@.tag_yields(tag, input, before, outcome),
            Err(id) => outcome == (Outcome {
                result: Err(ValErrorView::InternalErr(id)),
                state: before,
            }),
        },
{
    let may_tag = union@.discriminator->Function_0;
    let called = choose|called: Result<Value, u64>| #[trigger]
        may_tag(input, called) && union@.found_yields(called_tag(called), input, before, outcome);
    called
}

/// A tagged union with a function validates an input against the choice whose tag is the text
/// that the function gives.
pub proof fn law_function_names_its_choice<L: Validator, F: TagFunction>(
    union: &TaggedUnionValidator<L, F>,
    function: F,
    text: Seq<char>,
    i: int,
    input: Value,
    before: ValidationState,
    outcome: Outcome,
)
    requires
        union.discriminator == Discriminator::Function(function),
        forall|called: Result<Value, u64>| #[trigger]
            function.may_tag(input, called) ==> (called matches Ok(Value::Str(s)) && s@ == text),
        0 <= i < union.lookup.entries@.len(),
        union.lookup.entries@[i].0 matches Literal::Str(own) && own@ == text,
        forall|j: int|
            i < j < union.lookup.entries@.len() ==> ((
            #[trigger] union.lookup.entries@[j]).0 matches Literal::Str(own) ==> own@ != text),
        union@.yields(input, before, outcome),
    ensures
        choice_under(union, i, LocItemView::S(text), input, before, outcome),
{
    let called = law_tagged_union_asks_its_function(union, function, input, before, outcome);
    law_text_tag_finds_its_choice(union, called->Ok_0, text, i, input, before, outcome);
}

/// Whether parts of an input may be read by name under the settings of a tagged union: the
/// validation's own setting on attributes holds, or else that of the union.
pub open spec fn readable<L: Validator, F: TagFunction>(
    union: &TaggedUnionValidator<L, F>,
    input: Value,
    before: ValidationState,
    parts: Fields,
) -> bool {
    match input {
        Value::Dict { fields, .. } => parts == fields,
        Value::Mapping { fields, .. } => !before.strict && parts == fields,
        Value::Object { attributes, .. } => reads_attributes(union, before) && parts == attributes,
        _ => false,
    }
}

/// Whether attributes may be read: as the validation says, or else as the union says.
pub open spec fn reads_attributes<L: Validator, F: TagFunction>(
    union: &TaggedUnionValidator<L, F>,
    before: ValidationState,
) -> bool {
    if before.extra.from_attributes is Some {
        before.extra.from_attributes->0
    } else {
        union.from_attributes
    }
}

/// A tagged union with a key takes as the tag what the key finds in the parts of the input. The
/// input has no tag where the key finds nothing, and an exception that was raised by reading the
/// tag is passed on.
pub proof fn law_tagged_union_looks_its_key_up<L: Validator, F: TagFunction>(
    union: &TaggedUnionValidator<L, F>,
    key: LookupKey,
    parts: Fields,
    input: Value,
    before: ValidationState,
    outcome: Outcome,
)
    requires
        union.discriminator == Discriminator::<F>::LookupKey(key),
        readable(union, input, before, parts),
        union@.yields(input, before, outcome),
    ensures
        match key.spec_get_item(parts@, reads_attributes(union, before)) {
            Some(Value::Raised(id)) => outcome == (Outcome {
                result: Err(ValErrorView::InternalErr(id)),
                state: before,
            }),
            Some(tag) => union@.tag_yields(tag, input, before, outcome),
            None => finds_no_tag(union, input, before, outcome),
        },
{
}

/// An input whose parts may not be read by name is rejected by a tagged union with a key, with
/// the one error that it is no dictionary, or no object either where attributes may be read.
pub proof fn law_tagged_union_needs_named_parts<L: Validator, F: TagFunction>(
    union: &TaggedUnionValidator<L, F>,
    input: Value,
    before: ValidationState,
    outcome: Outcome,
)
    requires
        union.discriminator is LookupKey,
        input !is Dict,
        input is Mapping ==> before.strict,
        input is Object ==> !reads_attributes(union, before),
        union@.yields(input, before, outcome),
    ensures
        outcome.state == before,
        outcome.result is Err,
        one_error(
            outcome.result->Err_0,
            if reads_attributes(union, before) {
                ErrorTypeView::ModelAttributesType
            } else {
                ErrorTypeView::DictType
            },
            input,
        ),
{
}

/// A tagged union whose key is one name validates an input, whose first part of that name is a
/// text, against the choice whose tag is that text.
pub proof fn law_part_names_its_choice<L: Validator, F: TagFunction>(
    union: &TaggedUnionValidator<L, F>,
    key: LookupKey,
    name: String,
    parts: Fields,
    part: Value,
    text: Seq<char>,
    i: int,
    input: Value,
    before: ValidationState,
    outcome: Outcome,
)
    requires
        union.discriminator == Discriminator::<F>::LookupKey(key),
        key.paths@.len() == 1,
        key.paths@[0]@ == seq![PathItem::Key(name)],
        readable(union, input, before, parts),
        first_named(parts@, name@, Some(part)),
        (part matches Value::Str(s) && s@ == text) || (part matches Value::Text(s) && s@ == text),
        0 <= i < union.lookup.entries@.len(),
        union.lookup.entries@[i].0 matches Literal::Str(own) && own@ == text,
        forall|j: int|
            i < j < union.lookup.entries@.len() ==> ((
            #[trigger] union.lookup.entries@[j]).0 matches Literal::Str(own) ==> own@ != text),
        union@.yields(input, before, outcome),
    ensures
        choice_under(union, i, LocItemView::S(text), input, before, outcome),
{
    let reads = reads_attributes(union, before);
    law_key_of_one_name(key, name, parts@, reads);
    law_tagged_union_looks_its_key_up(union, key, parts, input, before, outcome);
    assert(key.spec_get_item(parts@, reads) == Some(part)) by {
        let found = key.spec_get_item(parts@, reads);
        let a = choose|a: int|
            0 <= a < parts@.len() && (#[trigger] parts@[a]).0@ == name@ && *parts@[a].1 == part
                && forall|j: int| 0 <= j < a ==> (#[trigger] parts@[j]).0@ != name@;
        if let Some(other) = found {
            let b = choose|b: int|
                0 <= b < parts@.len() && (#[trigger] parts@[b]).0@ == name@ && *parts@[b].1
                    == other && forall|j: int| 0 <= j < b ==> (#[trigger] parts@[j]).0@ != name@;
            assert(a == b);
        }
    }
    law_text_tag_finds_its_choice(union, part, text, i, input, before, outcome);
}

/// A tagged union whose key is one name rejects an input without a part of that name, and one
/// whose first part of that name is a text that is the tag of no choice.
pub proof fn law_part_names_no_choice<L: Validator, F: TagFunction>(
    union: &TaggedUnionValidator<L, F>,
    key: LookupKey,
    name: String,
    parts: Fields,
    input: Value,
    before: ValidationState,
    outcome: Outcome,
)
    requires
        union.discriminator == Discriminator::<F>::LookupKey(key),
        key.paths@.len() == 1,
        key.paths@[0]@ == seq![PathItem::Key(name)],
        readable(union, input, before, parts),
        union@.yields(input, before, outcome),
    ensures
        first_named(parts@, name@, None) ==> finds_no_tag(union, input, before, outcome),
        forall|text: Seq<char>|
            (exists|s: String|
                #![trigger s@]
                s@ == text && first_named(parts@, name@, Some(Value::Str(s)))) && (forall|j: int|
                0 <= j < union.lookup.entries@.len() ==> ((
                #[trigger] union.lookup.entries@[j]).0 matches Literal::Str(own) ==> own@ != text))
                ==> #[trigger] knows_no_tag(union, text, input, before, outcome),
{
    let reads = reads_attributes(union, before);
    law_key_of_one_name(key, name, parts@, reads);
    law_tagged_union_looks_its_key_up(union, key, parts, input, before, outcome);
    let found = key.spec_get_item(parts@, reads);
    assert forall|text: Seq<char>|
        (exists|s: String|
            #![trigger s@]
            s@ == text && first_named(parts@, name@, Some(Value::Str(s)))) && (forall|j: int|
            0 <= j < union.lookup.entries@.len() ==> ((
            #[trigger] union.lookup.entries@[j]).0 matches Literal::Str(own) ==> own@
                != text)) implies #[trigger] knows_no_tag(
        union,
        text,
        input,
        before,
        outcome,
    ) by {
        let s = choose|s: String|
            #![trigger s@]
            s@ == text && first_named(parts@, name@, Some(Value::Str(s)));
        let a = choose|a: int|
            0 <= a < parts@.len() && (#[trigger] parts@[a]).0@ == name@ && *parts@[a].1
                == Value::Str(s) && forall|j: int|
                0 <= j < a ==> (#[trigger] parts@[j]).0@ != name@;
        assert(found is Some);
        let b = choose|b: int|
            0 <= b < parts@.len() && (#[trigger] parts@[b]).0@ == name@ && *parts@[b].1
                == found->0 && forall|j: int| 0 <= j < b ==> (#[trigger] parts@[j]).0@ != name@;
        assert(a == b);
        law_unknown_text_tag(union, Value::Str(s), text, input, before, outcome);
    }
}

/// A tagged union that is a leaf of another union does there what it does by itself, under its
/// name, and has no strictness of its own.
pub proof fn law_tagged_union_as_a_leaf<L: Validator, F: TagFunction>(
    union: TaggedUnionValidator<L, F>,
    input: Value,
    before: ValidationState,
    outcome: Outcome,
)
    ensures
        union.may_yield(input, before, outcome) <==> union@.yields(input, before, outcome),
        union.spec_name() == union.name@,
        union.spec_field_strict() is None,
{
}

} // verus!
