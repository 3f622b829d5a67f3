use std::sync::Arc;

use union_validator::combined::CombinedValidator;
use union_validator::errors::{CustomError, ErrorType, LocItem, ValError, ValLineError};
use union_validator::model::{Field, ModelValidator};
use union_validator::scalar::{IntValidator, ScalarValidator, StrValidator};
use union_validator::schema::{TaggedChoice, TaggedUnionSchema};
use union_validator::state::ValidationState;
use union_validator::tagged::{Discriminator, Literal, TaggedUnionValidator};
use union_validator::validator::{NoTag, TagFunction, Validator};
use union_validator::value::{LookupKey, PathItem, Value};

/// Reads the tag off an integer: its sign; of other inputs it reads no tag or fails.
struct Sign;

impl TagFunction for Sign {
    fn call(&self, input: &Arc<Value>) -> Result<Arc<Value>, u64> {
        match &**input {
            Value::Int(i) => Ok(Arc::new(Value::Int(i.signum()))),
            Value::Bool(_) => Err(17),
            _ => Ok(Arc::new(Value::Null)),
        }
    }
}

fn fields(pairs: Vec<(&str, Value)>) -> Vec<(String, Arc<Value>)> {
    pairs.into_iter().map(|(name, value)| (name.to_string(), Arc::new(value))).collect()
}

fn dict(pairs: Vec<(&str, Value)>) -> Value {
    Value::Dict { fields: fields(pairs), text: "{..}".to_string() }
}

fn mapping(pairs: Vec<(&str, Value)>) -> Value {
    Value::Mapping { fields: fields(pairs), text: "map".to_string() }
}

fn object(pairs: Vec<(&str, Value)>) -> Value {
    Value::Object { attributes: fields(pairs), text: "object".to_string() }
}

fn s(text: &str) -> Value {
    Value::Str(text.to_string())
}

fn model<F>(name: &str, field: &str, leaf: ScalarValidator) -> CombinedValidator<ScalarValidator, F> {
    CombinedValidator::Model(ModelValidator {
        name: name.to_string(),
        fields: vec![Field {
            name: field.to_string(),
            validator: Arc::new(CombinedValidator::Leaf(leaf)),
            strict: None,
            frozen: false,
        }],
        strict: false,
        root_model: false,
        from_attributes: true,
    })
}

fn int_leaf() -> ScalarValidator {
    ScalarValidator::Int(IntValidator { strict: false })
}

fn str_leaf() -> ScalarValidator {
    ScalarValidator::Str(StrValidator { strict: false })
}

fn key(paths: Vec<Vec<PathItem>>) -> LookupKey {
    LookupKey { paths }
}

fn name_path(name: &str) -> Vec<PathItem> {
    vec![PathItem::Key(name.to_string())]
}

fn choice<F>(
    tag: Literal,
    tag_repr: &str,
    validator: CombinedValidator<ScalarValidator, F>,
) -> TaggedChoice<ScalarValidator, F> {
    TaggedChoice { tag, tag_repr: tag_repr.to_string(), validator }
}

fn built<F: TagFunction>(
    schema: TaggedUnionSchema<ScalarValidator, F>,
) -> TaggedUnionValidator<ScalarValidator, F> {
    match TaggedUnionValidator::build(schema) {
        Ok(CombinedValidator::TaggedUnion(union)) => union,
        _ => panic!("not a tagged union"),
    }
}

fn pets_with(
    lookup_key: LookupKey,
    custom_error: Option<CustomError>,
    from_attributes: Option<bool>,
) -> TaggedUnionValidator<ScalarValidator, NoTag> {
    built(TaggedUnionSchema {
        discriminator: Discriminator::LookupKey(lookup_key),
        discriminator_repr: "'kind'".to_string(),
        choices: vec![
            choice(Literal::Str("cat".to_string()), "'cat'", model("Cat", "lives", int_leaf())),
            choice(Literal::Int(1), "1", model("Dog", "name", str_leaf())),
            choice(Literal::Bool(true), "True", model("Bird", "name", str_leaf())),
        ],
        from_attributes,
        config_from_attributes: None,
        custom_error: Ok(custom_error),
    })
}

fn pets() -> TaggedUnionValidator<ScalarValidator, NoTag> {
    pets_with(key(vec![name_path("kind")]), None, Some(true))
}

fn one(error_type: ErrorType, location: Vec<LocItem>, input: &Arc<Value>) -> ValError {
    ValError::LineErrors(vec![ValLineError { error_type, location, input_value: input.clone() }])
}

fn check(union: &TaggedUnionValidator<ScalarValidator, NoTag>, input: Value) -> Result<Value, ValError> {
    let mut state = ValidationState::new(false);
    match union.validate(&Arc::new(input), &mut state) {
        Ok(value) => Ok(Arc::try_unwrap(value).unwrap()),
        Err(error) => Err(error),
    }
}

#[test]
fn build_names_the_union_and_its_tags() {
    let union = pets();
    assert_eq!(union.get_name(), "tagged-union[Cat,Dog,Bird]");
    assert_eq!(Validator::get_name(&union), "tagged-union[Cat,Dog,Bird]");
    assert_eq!(union.tags_repr, "'cat', 1, True");
    assert_eq!(union.discriminator_repr, "'kind'");
}

#[test]
fn attributes_are_read_as_the_schema_then_the_configuration_says() {
    for (schema, config, expected) in [
        (Some(false), Some(true), false),
        (Some(true), Some(false), true),
        (None, Some(false), false),
        (None, Some(true), true),
        (None, None, true),
    ] {
        let union: TaggedUnionValidator<ScalarValidator, NoTag> = built(TaggedUnionSchema {
            discriminator: Discriminator::LookupKey(key(vec![name_path("kind")])),
            discriminator_repr: "'kind'".to_string(),
            choices: vec![],
            from_attributes: schema,
            config_from_attributes: config,
            custom_error: Ok(None),
        });
        assert_eq!(union.from_attributes, expected);
        assert_eq!(union.name, "tagged-union[]");
        assert_eq!(union.tags_repr, "");
    }
}

#[test]
fn the_tag_names_the_choice() {
    let union = pets();
    assert_eq!(
        check(&union, dict(vec![("kind", s("cat")), ("lives", Value::Int(9))])),
        Ok(Value::Object {
            attributes: fields(vec![("lives", Value::Int(9))]),
            text: "Cat".to_string()
        })
    );
    assert_eq!(
        check(&union, dict(vec![("kind", Value::Int(1)), ("name", s("Rex"))])),
        Ok(Value::Object {
            attributes: fields(vec![("name", s("Rex"))]),
            text: "Dog".to_string()
        })
    );
    assert_eq!(
        check(&union, dict(vec![("kind", Value::Bool(true)), ("name", s("Kes"))])),
        Ok(Value::Object {
            attributes: fields(vec![("name", s("Kes"))]),
            text: "Bird".to_string()
        })
    );
    assert!(check(
        &union,
        dict(vec![("kind", Value::Text("cat".to_string())), ("lives", Value::Int(9))])
    )
    .is_ok());
}

#[test]
fn errors_of_the_choice_are_under_the_tag() {
    let union = pets();
    let input = Arc::new(dict(vec![("kind", s("cat"))]));
    assert_eq!(
        union.validate(&input, &mut ValidationState::new(false)),
        Err(one(
            ErrorType::Missing,
            vec![LocItem::S("cat".to_string()), LocItem::S("lives".to_string())],
            &input
        ))
    );
    let input = Arc::new(dict(vec![("kind", Value::Int(1)), ("name", Value::Null)]));
    match union.validate(&input, &mut ValidationState::new(false)) {
        Err(ValError::LineErrors(lines)) => {
            assert_eq!(lines.len(), 1);
            assert_eq!(lines[0].location, vec![LocItem::I(1), LocItem::S("name".to_string())]);
            assert_eq!(lines[0].error_type, ErrorType::StringType);
            assert_eq!(*lines[0].input_value, Value::Null);
        }
        _ => panic!("not rejected"),
    }
}

#[test]
fn an_unknown_tag_is_rejected() {
    let union = pets();
    for (tag, text) in [
        (s("fish"), "fish"),
        (Value::Int(-12), "-12"),
        (Value::Int(i64::MIN), "-9223372036854775808"),
        (Value::Bool(false), "False"),
        (Value::Null, "None"),
        (Value::Opaque { id: 3, text: "1.5".to_string() }, "1.5"),
        (Value::List { items: vec![], text: "[]".to_string() }, "[]"),
    ] {
        let input = Arc::new(dict(vec![("kind", tag)]));
        assert_eq!(
            union.validate(&input, &mut ValidationState::new(false)),
            Err(one(
                ErrorType::UnionTagInvalid {
                    discriminator: "'kind'".to_string(),
                    tag: text.to_string(),
                    expected_tags: "'cat', 1, True".to_string(),
                    context: None,
                },
                vec![],
                &input
            ))
        );
    }
}

#[test]
fn a_missing_tag_is_rejected() {
    let union = pets();
    let input = Arc::new(dict(vec![("lives", Value::Int(9))]));
    assert_eq!(
        union.validate(&input, &mut ValidationState::new(false)),
        Err(one(
            ErrorType::UnionTagNotFound { discriminator: "'kind'".to_string(), context: None },
            vec![],
            &input
        ))
    );
    assert_eq!(
        union.tag_not_found(&input),
        one(
            ErrorType::UnionTagNotFound { discriminator: "'kind'".to_string(), context: None },
            vec![],
            &input
        )
    );
}

#[test]
fn a_custom_error_replaces_errors_about_the_tag_only() {
    let custom = CustomError {
        error_type: "no_pet".to_string(),
        message_template: "not a pet".to_string(),
        context: None,
    };
    let union = pets_with(key(vec![name_path("kind")]), Some(custom), Some(true));
    let expected = |input: &Arc<Value>| {
        Err(one(
            ErrorType::CustomError {
                error_type: "no_pet".to_string(),
                message_template: "not a pet".to_string(),
                context: None,
            },
            vec![],
            input,
        ))
    };
    let input = Arc::new(dict(vec![]));
    assert_eq!(union.validate(&input, &mut ValidationState::new(false)), expected(&input));
    let input = Arc::new(dict(vec![("kind", s("fish"))]));
    assert_eq!(union.validate(&input, &mut ValidationState::new(false)), expected(&input));
    let input = Arc::new(dict(vec![("kind", s("cat"))]));
    match union.validate(&input, &mut ValidationState::new(false)) {
        Err(ValError::LineErrors(lines)) => assert_eq!(lines[0].error_type, ErrorType::Missing),
        _ => panic!("not rejected"),
    }
}

#[test]
fn the_input_must_have_fields_that_may_be_read() {
    let cat = || vec![("kind", s("cat")), ("lives", Value::Int(9))];
    let union = pets();
    assert!(check(&union, mapping(cat())).is_ok());
    assert!(check(&union, object(cat())).is_ok());
    let input = Arc::new(mapping(cat()));
    assert_eq!(
        union.validate(&input, &mut ValidationState::new(true)),
        Err(one(ErrorType::ModelAttributesType, vec![], &input))
    );
    let union = pets_with(key(vec![name_path("kind")]), None, Some(false));
    let input = Arc::new(object(cat()));
    assert_eq!(
        union.validate(&input, &mut ValidationState::new(false)),
        Err(one(ErrorType::DictType, vec![], &input))
    );
    let mut state = ValidationState::new(false);
    state.extra.from_attributes = Some(true);
    assert!(union.validate(&input, &mut state).is_ok());
    let input = Arc::new(Value::Int(1));
    assert_eq!(
        union.validate(&input, &mut ValidationState::new(false)),
        Err(one(ErrorType::DictType, vec![], &input))
    );
}

#[test]
fn the_first_path_that_leads_anywhere_counts() {
    let paths = vec![
        vec![
            PathItem::Key("meta".to_string()),
            PathItem::Key("tags".to_string()),
            PathItem::Index(1),
        ],
        name_path("kind"),
        vec![PathItem::Index(0)],
        vec![],
    ];
    let union = pets_with(key(paths), None, Some(true));
    let list = Value::List {
        items: vec![Arc::new(s("x")), Arc::new(s("cat"))],
        text: "['x', 'cat']".to_string(),
    };
    let nested = dict(vec![
        ("kind", s("fish")),
        ("meta", dict(vec![("tags", list)])),
        ("lives", Value::Int(9)),
    ]);
    assert!(check(&union, nested).is_ok());
    let short = dict(vec![
        ("meta", dict(vec![("tags", Value::List { items: vec![], text: "[]".to_string() })])),
        ("kind", s("cat")),
        ("lives", Value::Int(9)),
    ]);
    assert!(check(&union, short).is_ok());
}

#[test]
fn an_exception_on_the_way_to_the_tag_is_passed_on() {
    let union = pets();
    assert_eq!(
        check(&union, object(vec![("kind", Value::Raised(5))])),
        Err(ValError::InternalErr(5))
    );
    let path = vec![PathItem::Key("meta".to_string()), PathItem::Key("kind".to_string())];
    let union = pets_with(key(vec![path]), None, Some(true));
    assert_eq!(
        check(&union, object(vec![("meta", Value::Raised(6))])),
        Err(ValError::InternalErr(6))
    );
}

#[test]
fn the_last_choice_under_a_tag_counts() {
    let union: TaggedUnionValidator<ScalarValidator, NoTag> = built(TaggedUnionSchema {
        discriminator: Discriminator::LookupKey(key(vec![name_path("kind")])),
        discriminator_repr: "'kind'".to_string(),
        choices: vec![
            choice(Literal::Int(1), "1", model("First", "x", int_leaf())),
            choice(Literal::Int(1), "1", model("Second", "x", int_leaf())),
        ],
        from_attributes: None,
        config_from_attributes: None,
        custom_error: Ok(None),
    });
    match check(&union, dict(vec![("kind", Value::Int(1)), ("x", Value::Int(0))])) {
        Ok(Value::Object { text, .. }) => assert_eq!(text, "Second"),
        _ => panic!("not accepted"),
    }
}

fn by_sign() -> TaggedUnionValidator<ScalarValidator, Sign> {
    built(TaggedUnionSchema {
        discriminator: Discriminator::Function(Sign),
        discriminator_repr: "sign()".to_string(),
        choices: vec![
            choice(Literal::Int(1), "1", CombinedValidator::Leaf(int_leaf())),
            choice(Literal::Int(-1), "-1", CombinedValidator::Leaf(str_leaf())),
        ],
        from_attributes: None,
        config_from_attributes: None,
        custom_error: Ok(None),
    })
}

#[test]
fn a_function_can_read_the_tag() {
    let union = by_sign();
    let mut state = ValidationState::new(false);
    let input = Arc::new(Value::Int(8));
    assert_eq!(union.validate(&input, &mut state), Ok(Arc::new(Value::Int(8))));
    let input = Arc::new(Value::Int(-8));
    assert_eq!(
        union.validate(&input, &mut state),
        Err(one(ErrorType::StringType, vec![LocItem::I(-1)], &input))
    );
    let input = Arc::new(Value::Int(0));
    assert_eq!(
        union.validate(&input, &mut state),
        Err(one(
            ErrorType::UnionTagInvalid {
                discriminator: "sign()".to_string(),
                tag: "0".to_string(),
                expected_tags: "1, -1".to_string(),
                context: None,
            },
            vec![],
            &input
        ))
    );
    let input = Arc::new(s("x"));
    assert_eq!(
        union.validate(&input, &mut state),
        Err(one(
            ErrorType::UnionTagNotFound { discriminator: "sign()".to_string(), context: None },
            vec![],
            &input
        ))
    );
    let input = Arc::new(Value::Bool(true));
    assert_eq!(union.validate(&input, &mut state), Err(ValError::InternalErr(17)));
}

#[test]
fn what_a_function_gave_can_be_handed_in() {
    let union = by_sign();
    let mut state = ValidationState::new(false);
    let input = Arc::new(Value::Int(8));
    assert_eq!(
        union.validate_called(Ok(Arc::new(Value::Int(1))), &input, &mut state),
        Ok(Arc::new(Value::Int(8)))
    );
    assert_eq!(
        union.validate_called(Err(9), &input, &mut state),
        Err(ValError::InternalErr(9))
    );
}

#[test]
fn a_function_that_finds_no_tag() {
    let union: TaggedUnionValidator<ScalarValidator, NoTag> = built(TaggedUnionSchema {
        discriminator: Discriminator::Function(NoTag),
        discriminator_repr: "none()".to_string(),
        choices: vec![],
        from_attributes: None,
        config_from_attributes: None,
        custom_error: Ok(None),
    });
    assert!(matches!(check(&union, Value::Int(1)), Err(ValError::LineErrors(_))));
}
