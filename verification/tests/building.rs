use union_validator::combined::CombinedValidator;
use union_validator::errors::CustomError;
use union_validator::scalar::{IntValidator, ScalarValidator, StrValidator};
use union_validator::schema::{SchemaError, TaggedUnionSchema, UnionSchema};
use union_validator::tagged::{Discriminator, TaggedUnionValidator};
use union_validator::union::{UnionMode, UnionValidator};
use union_validator::validator::NoTag;
use union_validator::value::LookupKey;

type Combined = CombinedValidator<ScalarValidator, NoTag>;

fn integer() -> Combined {
    CombinedValidator::Leaf(ScalarValidator::Int(IntValidator { strict: false }))
}

fn string() -> Combined {
    CombinedValidator::Leaf(ScalarValidator::Str(StrValidator { strict: false }))
}

fn schema(choices: Vec<(Combined, Option<String>)>) -> UnionSchema<ScalarValidator, NoTag> {
    UnionSchema { choices, mode: None, auto_collapse: None, strict: None, custom_error: Ok(None) }
}

fn custom() -> CustomError {
    CustomError {
        error_type: "e".to_string(),
        message_template: "m".to_string(),
        context: None,
    }
}

#[test]
fn modes_have_names() {
    assert_eq!(UnionMode::from_str("smart"), Ok(UnionMode::Smart));
    assert_eq!(UnionMode::from_str("left_to_right"), Ok(UnionMode::LeftToRight));
    assert_eq!("left_to_right".parse::<UnionMode>(), Ok(UnionMode::LeftToRight));
    let error = UnionMode::from_str("Smart").unwrap_err();
    assert_eq!(error, SchemaError::InvalidUnionMode("Smart".to_string()));
    assert_eq!(
        error.message(),
        "Invalid union mode: `Smart`, expected `smart` or `left_to_right`"
    );
}

#[test]
fn a_union_is_named_after_its_choices() {
    match UnionValidator::build(schema(vec![
        (integer(), None),
        (string(), Some("text".to_string())),
        (string(), None),
    ])) {
        Ok(CombinedValidator::Union(union)) => {
            assert_eq!(union.get_name(), "union[int,text,str]");
            assert_eq!(union.mode, UnionMode::Smart);
            assert_eq!(union.choices.len(), 3);
            assert_eq!(union.custom_error, None);
            assert!(!union.strict);
        }
        _ => panic!("not a union"),
    }
}

#[test]
fn settings_of_the_schema_are_kept() {
    let mut given = schema(vec![(integer(), None), (string(), None)]);
    given.mode = Some("left_to_right".to_string());
    given.strict = Some(true);
    given.custom_error = Ok(Some(custom()));
    match UnionValidator::build(given) {
        Ok(CombinedValidator::Union(union)) => {
            assert_eq!(union.mode, UnionMode::LeftToRight);
            assert!(union.strict);
            assert_eq!(union.custom_error, Some(custom()));
        }
        _ => panic!("not a union"),
    }
}

#[test]
fn a_union_of_one_choice_is_that_choice() {
    assert!(matches!(
        UnionValidator::build(schema(vec![(integer(), None)])),
        Ok(CombinedValidator::Leaf(ScalarValidator::Int(_)))
    ));
    let mut given = schema(vec![(integer(), None)]);
    given.auto_collapse = Some(true);
    given.custom_error = Err(SchemaError::Other("unread".to_string()));
    assert!(matches!(UnionValidator::build(given), Ok(CombinedValidator::Leaf(_))));
    let mut given = schema(vec![(integer(), None)]);
    given.auto_collapse = Some(false);
    match UnionValidator::build(given) {
        Ok(CombinedValidator::Union(union)) => assert_eq!(union.get_name(), "union[int]"),
        _ => panic!("not a union"),
    }
}

#[test]
fn a_union_needs_choices() {
    let error = UnionValidator::build(schema(vec![])).unwrap_err();
    assert_eq!(error, SchemaError::NoChoices);
    assert_eq!(error.message(), "One or more union choices required");
}

#[test]
fn an_unknown_mode_is_the_first_error() {
    let mut given = schema(vec![]);
    given.mode = Some("best".to_string());
    given.custom_error = Err(SchemaError::Other("unread".to_string()));
    assert_eq!(
        UnionValidator::build(given).unwrap_err(),
        SchemaError::InvalidUnionMode("best".to_string())
    );
}

#[test]
fn a_wrong_custom_error_is_an_error() {
    let mut given = schema(vec![(integer(), None), (string(), None)]);
    given.custom_error = Err(SchemaError::Other("bad custom error".to_string()));
    let error = UnionValidator::build(given).unwrap_err();
    assert_eq!(error.message(), "bad custom error");

    let given: TaggedUnionSchema<ScalarValidator, NoTag> = TaggedUnionSchema {
        discriminator: Discriminator::LookupKey(LookupKey { paths: vec![] }),
        discriminator_repr: String::new(),
        choices: vec![],
        from_attributes: None,
        config_from_attributes: None,
        custom_error: Err(SchemaError::Other("bad custom error".to_string())),
    };
    assert_eq!(
        TaggedUnionValidator::build(given).unwrap_err(),
        SchemaError::Other("bad custom error".to_string())
    );
}
