use std::sync::Arc;

use union_validator::combined::CombinedValidator;
use union_validator::field::FieldValidator;
use union_validator::model::{Field, ModelValidator};
use union_validator::scalar::{IntValidator, ScalarValidator, StrValidator};
use union_validator::state::ValidationState;
use union_validator::union::{UnionMode, UnionValidator};
use union_validator::validator::NoTag;
use union_validator::value::Value;

type Combined = CombinedValidator<ScalarValidator, NoTag>;
type Union = UnionValidator<ScalarValidator, NoTag>;

fn integer(strict: bool) -> Combined {
    CombinedValidator::Leaf(ScalarValidator::Int(IntValidator { strict }))
}

fn string(strict: bool) -> Combined {
    CombinedValidator::Leaf(ScalarValidator::Str(StrValidator { strict }))
}

fn field(validator: Combined, strict: Option<bool>) -> Combined {
    CombinedValidator::Field(FieldValidator { validator: Arc::new(validator), strict })
}

fn create_field_validator(strict: bool) -> Combined {
    field(integer(strict), Some(strict))
}

fn union(mode: UnionMode, choices: Vec<(Combined, Option<String>)>, strict: bool) -> Union {
    UnionValidator { mode, choices, custom_error: None, name: "union".to_string(), strict }
}

fn text(s: &str) -> Arc<Value> {
    Arc::new(Value::Text(s.to_string()))
}

#[test]
fn test_union_with_strict_false_override() {
    let union_validator =
        union(UnionMode::Smart, vec![(integer(true), None), (integer(false), None)], true);
    let mut state = ValidationState::new(true);
    let input = text("123");
    let result = union_validator.validate_smart(&input, &mut state);
    assert!(result.is_ok());
    assert_eq!(result, Ok(Arc::new(Value::Int(123))));
    assert!(state.strict);
}

#[test]
fn test_nested_unions_with_strictness() {
    let inner_union = union(
        UnionMode::Smart,
        vec![(create_field_validator(false), None), (create_field_validator(true), None)],
        true,
    );
    let outer_union = union(
        UnionMode::Smart,
        vec![(CombinedValidator::Union(inner_union), None), (create_field_validator(true), None)],
        false,
    );
    let mut state = ValidationState::new(true);
    let input = text("123");
    let result = outer_union.validate_smart(&input, &mut state);
    assert!(result.is_ok());
    assert_eq!(result, Ok(Arc::new(Value::Int(123))));
    assert!(state.strict);
}

#[test]
fn test_field_strict_false_overrides_model_strict() {
    let model_validator: ModelValidator<ScalarValidator, NoTag> = ModelValidator {
        name: "Model".to_string(),
        fields: vec![Field {
            name: "test_field".to_string(),
            validator: Arc::new(integer(false)),
            strict: Some(false),
            frozen: false,
        }],
        strict: true,
        root_model: true,
        from_attributes: false,
    };
    let mut state = ValidationState::new(true);
    let input = text("123");
    let result = model_validator.validate(&input, &mut state);
    assert!(result.is_ok());
    assert_eq!(
        result,
        Ok(Arc::new(Value::Object {
            attributes: vec![("test_field".to_string(), Arc::new(Value::Int(123)))],
            text: "Model".to_string(),
        }))
    );
    assert!(state.strict);
}

#[test]
fn test_annotated_with_strict_false_in_union() {
    let non_strict_int = field(integer(false), Some(false));
    let strict_str = field(string(true), Some(true));
    let union_validator =
        union(UnionMode::Smart, vec![(non_strict_int, None), (strict_str, None)], true);
    let mut state = ValidationState::new(true);

    let input = text("123");
    let result = union_validator.validate_smart(&input, &mut state);
    assert!(result.is_ok());

    let input = text("not_an_int");
    let result = union_validator.validate_smart(&input, &mut state);
    assert!(result.is_err());
}

#[test]
fn a_choice_without_strictness_of_its_own_inherits_it() {
    for mode in [UnionMode::Smart, UnionMode::LeftToRight] {
        for union_strict in [false, true] {
            for state_strict in [false, true] {
                let validator = union(mode, vec![(field(integer(false), None), None)], union_strict);
                let mut state = ValidationState::new(state_strict);
                let result = validator.validate(&text("5"), &mut state);
                assert_eq!(result.is_ok(), !union_strict && !state_strict);
                assert_eq!(state.strict, state_strict);
            }
        }
    }
}

#[test]
fn a_lenient_choice_is_enough_from_left_to_right_too() {
    let validator = union(
        UnionMode::LeftToRight,
        vec![(create_field_validator(true), None), (create_field_validator(false), None)],
        true,
    );
    let mut state = ValidationState::new(true);
    assert_eq!(validator.validate(&text("-7"), &mut state), Ok(Arc::new(Value::Int(-7))));
    assert!(state.strict);
}

#[test]
fn effective_strict_prefers_the_choice() {
    let lenient = union(UnionMode::Smart, vec![], false);
    let strict = union(UnionMode::Smart, vec![], true);
    let lenient_state = ValidationState::new(false);
    let strict_state = ValidationState::new(true);
    let unset = field(integer(true), None);
    assert!(!lenient.effective_strict(&lenient_state, &unset));
    assert!(lenient.effective_strict(&strict_state, &unset));
    assert!(strict.effective_strict(&lenient_state, &unset));
    assert!(!strict.effective_strict(&strict_state, &field(integer(true), Some(false))));
    assert!(lenient.effective_strict(&lenient_state, &field(integer(false), Some(true))));
    assert!(!strict.effective_strict(&strict_state, &integer(false)));
}
