//! What is read off values, in terms of what they hold.
use std::sync::Arc;

use crate::errors::{
    result_view, ErrorType, ErrorTypeView, LocItem, LocItemView, ValError, ValErrorView,
    ValLineError, ValResult,
};
use crate::text::decimal_int;
use crate::value::{
    lemma_field_index, spec_field, spec_field_index, spec_follow, spec_get_item_from, spec_path_item,
    LookupKey, PathItem, Value,
};
use vstd::prelude::*;

verus! {

/// Whether something is the first part of a name, or nothing where no part has the name.
pub open spec fn first_named(
    fields: Seq<(String, Arc<Value>)>,
    name: Seq<char>,
    found: Option<Value>,
) -> bool {
    match found {
        Some(value) => exists|i: int|
            0 <= i < fields.len() && (#[trigger] fields[i]).0@ == name && *fields[i].1 == value
                && forall|j: int| 0 <= j < i ==> (#[trigger] fields[j]).0@ != name,
        None => forall|i: int| 0 <= i < fields.len() ==> (#[trigger] fields[i]).0@ != name,
    }
}

/// The part of a name is the first that has exactly that name.
pub proof fn law_first_named_part(fields: Seq<(String, Arc<Value>)>, name: Seq<char>)
    ensures
        first_named(fields, name, spec_field(fields, name)),
{
    lemma_field_index(fields, name);
    if let Some(i) = spec_field_index(fields, name) {
        assert(fields[i].0@ == name);
    }
}

/// The parts of a dictionary may always be read by name, those of another mapping where
/// validation is not strict, those of an object where its attributes may be read; other values
/// have none.
pub proof fn law_readable_parts(value: Value, strict: bool, from_attributes: bool)
    ensures
        value is Dict ==> value.spec_model_fields(strict, from_attributes) == Some(
            value->Dict_fields,
        ),
        value is Mapping && !strict ==> value.spec_model_fields(strict, from_attributes) == Some(
            value->Mapping_fields,
        ),
        value is Mapping && strict ==> value.spec_model_fields(strict, from_attributes) is None,
        value is Object && from_attributes ==> value.spec_model_fields(strict, from_attributes)
            == Some(value->attributes),
        value is Object && !from_attributes ==> value.spec_model_fields(
            strict,
            from_attributes,
        ) is None,
        value !is Dict && value !is Mapping && value !is Object ==> value.spec_model_fields(
            strict,
            from_attributes,
        ) is None,
{
}

/// One step down by name leads to the first part of that name, where the parts may be read; one
/// by position to that item of a list; else it leads nowhere.
pub proof fn law_one_step(value: Value, item: PathItem, from_attributes: bool)
    ensures
        ({
            let found = value.spec_step(item, from_attributes);
            match item {
                PathItem::Key(name) => match value {
                    Value::Dict { fields, .. } => first_named(fields@, name@, found),
                    Value::Mapping { fields, .. } => first_named(fields@, name@, found),
                    Value::Object { attributes, .. } => if from_attributes {
                        first_named(attributes@, name@, found)
                    } else {
                        found is None
                    },
                    _ => found is None,
                },
                PathItem::Index(at) => {
                    &&& value is List && at < value->items@.len() ==> found == Some(
                        *value->items@[at as int],
                    )
                    &&& !(value is List && at < value->items@.len()) ==> found is None
                },
            }
        }),
{
    if let PathItem::Key(name) = item {
        if let Some(fields) = value.spec_model_fields(false, from_attributes) {
            law_first_named_part(fields@, name@);
        }
    }
}

/// A path leads somewhere only where it starts with a name; a path of one name leads to the first
/// part of that name.
pub proof fn law_path_starts_with_a_name(
    fields: Seq<(String, Arc<Value>)>,
    path: Seq<PathItem>,
    from_attributes: bool,
)
    ensures
        path.len() == 0 || path[0] is Index ==> spec_path_item(fields, path, from_attributes) is None,
        path.len() == 1 && path[0] is Key ==> first_named(
            fields,
            path[0]->Key_0@,
            spec_path_item(fields, path, from_attributes),
        ),
{
    if path.len() == 1 && path[0] is Key {
        law_first_named_part(fields, path[0]->Key_0@);
    }
}

proof fn lemma_follow_further(
    value: Value,
    path: Seq<PathItem>,
    item: PathItem,
    from_attributes: bool,
)
    ensures
        spec_follow(value, path.push(item), from_attributes) == match spec_follow(
            value,
            path,
            from_attributes,
        ) {
            Some(end) => if end is Raised {
                Some(end)
            } else {
                end.spec_step(item, from_attributes)
            },
            None => None,
        },
    decreases path.len(),
{
    let longer = path.push(item);
    if value is Raised {
    } else if path.len() == 0 {
        assert(longer[0] == item);
        assert(longer.drop_first().len() == 0);
        if let Some(next) = value.spec_step(item, from_attributes) {
            assert(spec_follow(next, longer.drop_first(), from_attributes) == Some(next));
        }
    } else {
        assert(longer[0] == path[0]);
        assert(longer.drop_first() =~= path.drop_first().push(item));
        if let Some(next) = value.spec_step(path[0], from_attributes) {
            lemma_follow_further(next, path.drop_first(), item, from_attributes);
        }
    }
}

/// One more step of a path goes on from where the path leads, unless reading an attribute on the
/// way raised an exception: the path then ends there.
pub proof fn law_path_goes_step_by_step(
    fields: Seq<(String, Arc<Value>)>,
    path: Seq<PathItem>,
    item: PathItem,
    from_attributes: bool,
)
    requires
        path.len() > 0,
    ensures
        ({
            let longer = spec_path_item(fields, path.push(item), from_attributes);
            match spec_path_item(fields, path, from_attributes) {
                Some(Value::Raised(id)) => longer == Some(Value::Raised(id)),
                Some(end) => longer == end.spec_step(item, from_attributes),
                None => longer is None,
            }
        }),
{
    let longer = path.push(item);
    assert(longer[0] == path[0]);
    assert(longer.drop_first() =~= path.drop_first().push(item));
    if let PathItem::Key(name) = path[0] {
        if let Some(value) = spec_field(fields, name@) {
            lemma_follow_further(value, path.drop_first(), item, from_attributes);
        }
    }
}

proof fn lemma_first_path(
    fields: Seq<(String, Arc<Value>)>,
    paths: Seq<Vec<PathItem>>,
    at: int,
    from_attributes: bool,
)
    requires
        0 <= at <= paths.len(),
    ensures
        match spec_get_item_from(fields, paths, at, from_attributes) {
            Some(value) => exists|p: int|
                at <= p < paths.len() && spec_path_item(
                    fields,
                    (#[trigger] paths[p])@,
                    from_attributes,
                ) == Some(value) && forall|q: int|
                    at <= q < p ==> spec_path_item(
                        fields,
                        (#[trigger] paths[q])@,
                        from_attributes,
                    ) is None,
            None => forall|p: int|
                at <= p < paths.len() ==> spec_path_item(
                    fields,
                    (#[trigger] paths[p])@,
                    from_attributes,
                ) is None,
        },
    decreases paths.len() - at,
{
    if at < paths.len() {
        lemma_first_path(fields, paths, at + 1, from_attributes);
        if let Some(value) = spec_path_item(fields, paths[at]@, from_attributes) {
            assert(spec_path_item(fields, paths[at]@, from_attributes) == Some(value));
        } else if let Some(value) = spec_get_item_from(fields, paths, at + 1, from_attributes) {
            let p = choose|p: int|
                at + 1 <= p < paths.len() && spec_path_item(
                    fields,
                    (#[trigger] paths[p])@,
                    from_attributes,
                ) == Some(value) && forall|q: int|
                    at + 1 <= q < p ==> spec_path_item(
                        fields,
                        (#[trigger] paths[q])@,
                        from_attributes,
                    ) is None;
            assert(spec_path_item(fields, paths[p]@, from_attributes) == Some(value));
        }
    }
}

/// A key finds what its first path that leads anywhere leads to, and nothing where none does.
pub proof fn law_first_path_that_leads_anywhere(
    key: LookupKey,
    fields: Seq<(String, Arc<Value>)>,
    from_attributes: bool,
)
    ensures
        match key.spec_get_item(fields, from_attributes) {
            Some(value) => exists|p: int|
                0 <= p < key.paths@.len() && spec_path_item(
                    fields,
                    (#[trigger] key.paths@[p])@,
                    from_attributes,
                ) == Some(value) && forall|q: int|
                    0 <= q < p ==> spec_path_item(
                        fields,
                        (#[trigger] key.paths@[q])@,
                        from_attributes,
                    ) is None,
            None => forall|p: int|
                0 <= p < key.paths@.len() ==> spec_path_item(
                    fields,
                    (#[trigger] key.paths@[p])@,
                    from_attributes,
                ) is None,
        },
{
    lemma_first_path(fields, key.paths@, 0, from_attributes);
}

/// A key of one name finds the first part of that name.
pub proof fn law_key_of_one_name(
    key: LookupKey,
    name: String,
    fields: Seq<(String, Arc<Value>)>,
    from_attributes: bool,
)
    requires
        key.paths@.len() == 1,
        key.paths@[0]@ == seq![PathItem::Key(name)],
    ensures
        first_named(fields, name@, key.spec_get_item(fields, from_attributes)),
{
    law_first_path_that_leads_anywhere(key, fields, from_attributes);
    law_path_starts_with_a_name(fields, key.paths@[0]@, from_attributes);
    assert(key.paths@[0]@[0] == PathItem::Key(name));
}

/// A text is its own text, an integer is shown in decimal, a container by the text that came with
/// it; and values of different content of one kind, among texts, booleans and integers, have
/// different texts.
pub proof fn law_text_of_a_value(value: Value, other: Value)
    ensures
        value matches Value::Str(s) ==> value.spec_text() == s@,
        value matches Value::Text(s) ==> value.spec_text() == s@,
        value matches Value::Int(i) ==> value.spec_text() == decimal_int(i as int),
        value matches Value::Bool(b) ==> value.spec_text() == if b {
            "True"@
        } else {
            "False"@
        },
        value is Null ==> value.spec_text() == "None"@,
        value matches Value::List { text, .. } ==> value.spec_text() == text@,
        value matches Value::Dict { text, .. } ==> value.spec_text() == text@,
        value matches Value::Mapping { text, .. } ==> value.spec_text() == text@,
        value matches Value::Object { text, .. } ==> value.spec_text() == text@,
        value matches Value::Opaque { text, .. } ==> value.spec_text() == text@,
        value is Raised ==> value.spec_text().len() == 0,
        value is Int && other is Int && value.spec_text() == other.spec_text() ==> value == other,
        value is Bool && other is Bool && value.spec_text() == other.spec_text() ==> value == other,
{
    reveal_strlit("True");
    reveal_strlit("False");
    if value is Int && other is Int {
        crate::text::law_int_text_reads_back(value->Int_0);
        crate::text::law_int_text_reads_back(other->Int_0);
    }
    if value is Bool && other is Bool && value != other {
        assert("True"@.len() != "False"@.len());
    }
}

/// An integer names a step by its number, every other value by its text.
pub proof fn law_step_of_a_value(value: Value)
    ensures
        value matches Value::Int(i) ==> LocItem::spec_of_value(value) == LocItemView::I(i as int),
        value !is Int ==> LocItem::spec_of_value(value) == LocItemView::S(value.spec_text()),
{
}

/// What an error is taken to say is what it holds: its type, the value, and each step of the
/// location in order.
pub proof fn law_error_says_what_it_holds(line: ValLineError, k: int)
    ensures
        line@.error_type == line.error_type@,
        line@.input_value == *line.input_value,
        line@.location.len() == line.location@.len(),
        0 <= k < line.location@.len() ==> match line.location@[k] {
            LocItem::S(s) => line@.location[k] == LocItemView::S(s@),
            LocItem::I(i) => line@.location[k] == LocItemView::I(i as int),
        },
{
}

/// What an error type is taken to say is its kind, the texts that it holds and its context.
pub proof fn law_error_type_says_what_it_holds(a: ErrorType)
    ensures
        a is IntType <==> a@ is IntType,
        a is IntParsing <==> a@ is IntParsing,
        a is StringType <==> a@ is StringType,
        a is DictType <==> a@ is DictType,
        a is ModelAttributesType <==> a@ is ModelAttributesType,
        a is Missing <==> a@ is Missing,
        a matches ErrorType::UnionTagNotFound { discriminator, context } ==> a@
            == (ErrorTypeView::UnionTagNotFound { discriminator: discriminator@, context }),
        a matches ErrorType::UnionTagInvalid { discriminator, tag, expected_tags, context } ==> a@
            == (ErrorTypeView::UnionTagInvalid {
            discriminator: discriminator@,
            tag: tag@,
            expected_tags: expected_tags@,
            context,
        }),
        a matches ErrorType::CustomError { error_type, message_template, context } ==> a@
            == (ErrorTypeView::CustomError {
            error_type: error_type@,
            message_template: message_template@,
            context,
        }),
{
}

/// What a result is taken to say is what it holds: its value, or its errors one by one, or the
/// failure of the same kind.
pub proof fn law_result_says_what_it_holds(result: ValResult, k: int)
    ensures
        result matches Ok(value) ==> result_view(result) == Ok::<Value, ValErrorView>(*value),
        result matches Err(ValError::LineErrors(lines)) ==> {
            &&& result_view(result) matches Err(ValErrorView::LineErrors(shown))
            &&& shown.len() == lines@.len()
            &&& 0 <= k < lines@.len() ==> shown[k] == lines@[k]@
        },
        result matches Err(ValError::InternalErr(id)) ==> result_view(result) == Err::<
            Value,
            ValErrorView,
        >(ValErrorView::InternalErr(id)),
        result matches Err(ValError::Omit) ==> result_view(result) == Err::<Value, ValErrorView>(
            ValErrorView::Omit,
        ),
        result matches Err(ValError::UseDefault) ==> result_view(result) == Err::<
            Value,
            ValErrorView,
        >(ValErrorView::UseDefault),
{
}

/// Seen from one step further out, an error has one step more, in front; nothing else changes,
/// and neither do failures that are not about the input.
pub proof fn law_outer_location(error: ValErrorView, outer: LocItemView, k: int)
    ensures
        error matches ValErrorView::LineErrors(lines) ==> {
            &&& error.with_outer_location(outer) matches ValErrorView::LineErrors(moved)
            &&& moved.len() == lines.len()
            &&& 0 <= k < lines.len() ==> {
                &&& moved[k].error_type == lines[k].error_type
                &&& moved[k].input_value == lines[k].input_value
                &&& moved[k].location == seq![outer] + lines[k].location
                &&& moved[k] == lines[k].with_outer_location(outer)
            }
        },
        error !is LineErrors ==> error.with_outer_location(outer) == error,
{
}

} // verus!
