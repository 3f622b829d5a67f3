use std::sync::Arc;

use union_validator::combined::CombinedValidator;
use union_validator::errors::{CustomError, ErrorType, LocItem, ValError, ValLineError, ValResult};
use union_validator::field::FieldValidator;
use union_validator::model::{Field, ModelValidator};
use union_validator::scalar::{IntValidator, ScalarValidator, StrValidator};
use union_validator::state::{Exactness, ValidationState};
use union_validator::text::{int_text, parse_int};
use union_validator::union::{UnionMode, UnionValidator};
use union_validator::validator::{NoTag, Validator};
use union_validator::value::Value;

type Combined = CombinedValidator<ScalarValidator, NoTag>;

fn tracking(strict: bool) -> ValidationState {
    let mut state = ValidationState::new(strict);
    state.exactness = Some(Exactness::Exact);
    state
}

fn rejected(result: ValResult) -> ErrorType {
    match result {
        Err(ValError::LineErrors(mut lines)) => {
            assert_eq!(lines.len(), 1);
            assert_eq!(lines[0].location, vec![]);
            lines.remove(0).error_type
        }
        _ => panic!("not rejected"),
    }
}

#[test]
fn integers_are_written_and_read_in_decimal() {
    for (i, text) in [
        (0, "0"),
        (7, "7"),
        (10, "10"),
        (-1, "-1"),
        (1203, "1203"),
        (i64::MAX, "9223372036854775807"),
        (i64::MIN, "-9223372036854775808"),
    ] {
        assert_eq!(int_text(i), text);
        assert_eq!(parse_int(text), Some(i));
    }
    assert_eq!(parse_int("+12"), Some(12));
    assert_eq!(parse_int("007"), Some(7));
    assert_eq!(parse_int("-0"), Some(0));
    for text in
        ["", "+", "-", "1x", "x1", " 1", "--1", "9223372036854775808", "-9223372036854775809", "1é"]
    {
        assert_eq!(parse_int(text), None);
    }
    assert_eq!(parse_int("99999999999999999999999999999999999"), None);
}

#[test]
fn integers() {
    let lenient = IntValidator { strict: false };
    let strict = IntValidator { strict: true };
    let mut state = tracking(false);
    let three = Arc::new(Value::Int(3));
    assert_eq!(lenient.validate(&three, &mut state), Ok(three.clone()));
    assert_eq!(strict.validate(&three, &mut state), Ok(three.clone()));
    assert_eq!(state.exactness, Some(Exactness::Exact));
    for (input, expected) in [
        (Value::Bool(true), 1),
        (Value::Bool(false), 0),
        (Value::Str("-4".to_string()), -4),
        (Value::Text("44".to_string()), 44),
    ] {
        let input = Arc::new(input);
        let mut state = tracking(false);
        assert_eq!(lenient.validate(&input, &mut state), Ok(Arc::new(Value::Int(expected))));
        assert_eq!(state.exactness, Some(Exactness::Lax));
        let mut state = tracking(false);
        assert_eq!(rejected(strict.validate(&input, &mut state)), ErrorType::IntType);
        assert_eq!(state.exactness, Some(Exactness::Exact));
        let mut state = tracking(true);
        assert_eq!(rejected(lenient.validate(&input, &mut state)), ErrorType::IntType);
    }
    let word = Arc::new(Value::Str("word".to_string()));
    assert_eq!(rejected(lenient.validate(&word, &mut state)), ErrorType::IntParsing);
    assert_eq!(rejected(lenient.validate(&Arc::new(Value::Null), &mut state)), ErrorType::IntType);
    assert_eq!(lenient.get_name(), "int");
}

#[test]
fn strings() {
    let lenient = StrValidator { strict: false };
    let strict = StrValidator { strict: true };
    let hello = Arc::new(Value::Str("hello".to_string()));
    let mut state = tracking(true);
    assert_eq!(strict.validate(&hello, &mut state), Ok(hello.clone()));
    assert_eq!(state.exactness, Some(Exactness::Exact));
    let text = Arc::new(Value::Text("hello".to_string()));
    let mut state = tracking(false);
    assert_eq!(lenient.validate(&text, &mut state), Ok(hello.clone()));
    assert_eq!(state.exactness, Some(Exactness::Lax));
    assert_eq!(rejected(strict.validate(&text, &mut state)), ErrorType::StringType);
    let one = Arc::new(Value::Int(1));
    assert_eq!(rejected(lenient.validate(&one, &mut state)), ErrorType::StringType);
    assert_eq!(strict.get_name(), "str");
}

fn leaf_int() -> Combined {
    CombinedValidator::Leaf(ScalarValidator::Int(IntValidator { strict: false }))
}

fn field(name: &str, strict: Option<bool>) -> Field<ScalarValidator, NoTag> {
    Field { name: name.to_string(), validator: Arc::new(leaf_int()), strict, frozen: false }
}

fn model(
    name: &str,
    fields: Vec<Field<ScalarValidator, NoTag>>,
) -> ModelValidator<ScalarValidator, NoTag> {
    ModelValidator {
        name: name.to_string(),
        fields,
        strict: false,
        root_model: false,
        from_attributes: false,
    }
}

fn dict(pairs: Vec<(&str, Value)>) -> Arc<Value> {
    Arc::new(Value::Dict {
        fields: pairs.into_iter().map(|(n, v)| (n.to_string(), Arc::new(v))).collect(),
        text: "{}".to_string(),
    })
}

#[test]
fn a_model_validates_its_fields() {
    let m = model("M", vec![field("a", None), field("b", Some(true))]);
    let mut state = tracking(false);
    let input = dict(vec![("b", Value::Int(2)), ("a", Value::Text("1".to_string()))]);
    assert_eq!(
        m.validate(&input, &mut state),
        Ok(Arc::new(Value::Object {
            attributes: vec![
                ("a".to_string(), Arc::new(Value::Int(1))),
                ("b".to_string(), Arc::new(Value::Int(2))),
            ],
            text: "M".to_string(),
        }))
    );
    assert_eq!(state.exactness, Some(Exactness::Lax));
    assert_eq!(state.fields_set_count, Some(2));
}

#[test]
fn a_model_reports_the_errors_of_all_fields() {
    let m = model("M", vec![field("a", None), field("b", None), field("c", None)]);
    let input = dict(vec![("a", Value::Null), ("b", Value::Int(1))]);
    match m.validate(&input, &mut tracking(false)) {
        Err(ValError::LineErrors(lines)) => {
            assert_eq!(lines.len(), 2);
            assert_eq!(lines[0].error_type, ErrorType::IntType);
            assert_eq!(lines[0].location, vec![LocItem::S("a".to_string())]);
            assert_eq!(lines[1].error_type, ErrorType::Missing);
            assert_eq!(lines[1].location, vec![LocItem::S("c".to_string())]);
        }
        _ => panic!("not rejected"),
    }
    let five = Arc::new(Value::Int(5));
    assert_eq!(rejected(m.validate(&five, &mut tracking(false))), ErrorType::DictType);
    let raised = Arc::new(Value::Object {
        attributes: vec![("a".to_string(), Arc::new(Value::Raised(8)))],
        text: String::new(),
    });
    let mut state = tracking(false);
    state.extra.from_attributes = Some(true);
    assert_eq!(m.validate(&raised, &mut state), Err(ValError::InternalErr(8)));
    assert_eq!(rejected(m.validate(&five, &mut state)), ErrorType::ModelAttributesType);
}

#[test]
fn the_model_with_more_set_fields_is_the_better_match() {
    let small = CombinedValidator::Model(model("Small", vec![field("a", None)]));
    let large = CombinedValidator::Model(model("Large", vec![field("a", None), field("b", None)]));
    let u: UnionValidator<ScalarValidator, NoTag> = UnionValidator {
        mode: UnionMode::Smart,
        choices: vec![(small, None), (large, None)],
        custom_error: None,
        name: "u".to_string(),
        strict: false,
    };
    let mut state = tracking(false);
    match u.validate(&dict(vec![("a", Value::Int(1)), ("b", Value::Int(2))]), &mut state) {
        Ok(value) => assert_eq!(value.text(), "Large"),
        _ => panic!("not accepted"),
    }
    assert_eq!(state.fields_set_count, Some(2));
    let mut state = tracking(false);
    match u.validate(&dict(vec![("a", Value::Int(1))]), &mut state) {
        Ok(value) => assert_eq!(value.text(), "Small"),
        _ => panic!("not accepted"),
    }
    assert_eq!(state.fields_set_count, Some(1));
}

#[test]
fn a_field_puts_the_strictness_back() {
    let f: FieldValidator<ScalarValidator, NoTag> =
        FieldValidator { validator: Arc::new(leaf_int()), strict: Some(true) };
    let mut state = tracking(false);
    let text = Arc::new(Value::Text("1".to_string()));
    assert_eq!(rejected(f.validate(&text, &mut state)), ErrorType::IntType);
    assert!(!state.strict);
    assert_eq!(f.get_name(), "int");
}

#[test]
fn errors_are_located_from_the_outside_in() {
    let input = Arc::new(Value::Int(1));
    let line = ValLineError::new(ErrorType::IntType, &input)
        .with_outer_location(LocItem::I(2))
        .with_outer_location(LocItem::S("a".to_string()));
    assert_eq!(line.location, vec![LocItem::S("a".to_string()), LocItem::I(2)]);
    assert_eq!(ValError::UseDefault.with_outer_location(LocItem::I(1)), ValError::UseDefault);
    assert_eq!(LocItem::of_value(&Value::Bool(true)), LocItem::S("True".to_string()));
    assert_eq!(LocItem::of_value(&Value::Int(4)), LocItem::I(4));
}

#[test]
fn a_custom_error_is_about_the_whole_input() {
    let custom = CustomError {
        error_type: "t".to_string(),
        message_template: "m".to_string(),
        context: None,
    };
    let input = Arc::new(Value::Int(1));
    assert_eq!(
        custom.as_val_error(&input),
        ValError::LineErrors(vec![ValLineError {
            error_type: ErrorType::CustomError {
                error_type: "t".to_string(),
                message_template: "m".to_string(),
                context: None,
            },
            location: vec![],
            input_value: input.clone(),
        }])
    );
}
