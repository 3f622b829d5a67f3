use std::sync::Arc;

use union_validator::combined::CombinedValidator;
use union_validator::errors::{CustomError, ErrorType, LocItem, ValError, ValLineError, ValResult};
use union_validator::state::{Exactness, ValidationState};
use union_validator::union::{is_better_match, UnionMode, UnionValidator};
use union_validator::validator::{NoTag, Validator};
use union_validator::value::Value;

/// A validator that does as it is told.
struct Scripted {
    name: &'static str,
    run: fn(&Arc<Value>, &mut ValidationState) -> ValResult,
}

impl Validator for Scripted {
    fn get_name(&self) -> &str {
        self.name
    }

    fn field_strict(&self) -> Option<bool> {
        None
    }

    fn validate(&self, input: &Arc<Value>, state: &mut ValidationState) -> ValResult {
        (self.run)(input, state)
    }
}

type Union = UnionValidator<Scripted, NoTag>;

fn choice(
    name: &'static str,
    run: fn(&Arc<Value>, &mut ValidationState) -> ValResult,
) -> (CombinedValidator<Scripted, NoTag>, Option<String>) {
    (CombinedValidator::Leaf(Scripted { name, run }), None)
}

fn union(
    mode: UnionMode,
    choices: Vec<(CombinedValidator<Scripted, NoTag>, Option<String>)>,
) -> Union {
    UnionValidator { mode, choices, custom_error: None, name: "u".to_string(), strict: false }
}

fn gives(state: &mut ValidationState, value: i64, exactness: Exactness) -> ValResult {
    state.floor_exactness(exactness);
    Ok(Arc::new(Value::Int(value)))
}

fn lax(_: &Arc<Value>, state: &mut ValidationState) -> ValResult {
    gives(state, 1, Exactness::Lax)
}

fn strict(_: &Arc<Value>, state: &mut ValidationState) -> ValResult {
    gives(state, 2, Exactness::Strict)
}

fn other_strict(_: &Arc<Value>, state: &mut ValidationState) -> ValResult {
    gives(state, 3, Exactness::Strict)
}

fn exact(_: &Arc<Value>, state: &mut ValidationState) -> ValResult {
    gives(state, 4, Exactness::Exact)
}

fn two_fields(_: &Arc<Value>, state: &mut ValidationState) -> ValResult {
    state.add_fields_set(2);
    gives(state, 5, Exactness::Lax)
}

fn one_field_exact(_: &Arc<Value>, state: &mut ValidationState) -> ValResult {
    state.add_fields_set(1);
    gives(state, 6, Exactness::Exact)
}

fn two_fields_strict(_: &Arc<Value>, state: &mut ValidationState) -> ValResult {
    state.add_fields_set(2);
    gives(state, 7, Exactness::Strict)
}

fn untracked(_: &Arc<Value>, state: &mut ValidationState) -> ValResult {
    state.exactness = None;
    Ok(Arc::new(Value::Int(8)))
}

fn fails(input: &Arc<Value>, state: &mut ValidationState) -> ValResult {
    state.strict = true;
    state.exactness = Some(Exactness::Lax);
    Err(ValError::new(ErrorType::IntType, input))
}

fn fails_twice(input: &Arc<Value>, _: &mut ValidationState) -> ValResult {
    Err(ValError::LineErrors(vec![
        ValLineError::new(ErrorType::IntParsing, input),
        ValLineError::new(ErrorType::StringType, input).with_outer_location(LocItem::I(3)),
    ]))
}

fn raises(_: &Arc<Value>, state: &mut ValidationState) -> ValResult {
    state.strict = true;
    state.exactness = Some(Exactness::Strict);
    Err(ValError::InternalErr(42))
}

fn omits(_: &Arc<Value>, _: &mut ValidationState) -> ValResult {
    Err(ValError::Omit)
}

fn tracking() -> ValidationState {
    let mut state = ValidationState::new(false);
    state.exactness = Some(Exactness::Exact);
    state
}

fn input() -> Arc<Value> {
    Arc::new(Value::Null)
}

fn integer(i: i64) -> ValResult {
    Ok(Arc::new(Value::Int(i)))
}

#[test]
fn smart_takes_the_closest_match() {
    let u = union(
        UnionMode::Smart,
        vec![choice("a", lax), choice("b", strict), choice("c", other_strict), choice("d", fails)],
    );
    let mut state = tracking();
    assert_eq!(u.validate(&input(), &mut state), integer(2));
    assert_eq!(state.exactness, Some(Exactness::Strict));
    assert_eq!(state.fields_set_count, None);
    assert!(!state.strict);
}

#[test]
fn smart_stops_at_an_exact_match() {
    let u = union(UnionMode::Smart, vec![choice("a", lax), choice("b", exact), choice("c", raises)]);
    let mut state = tracking();
    state.fields_set_count = Some(9);
    assert_eq!(u.validate(&input(), &mut state), integer(4));
    assert_eq!(state.exactness, Some(Exactness::Exact));
    assert_eq!(state.fields_set_count, Some(9));
}

#[test]
fn smart_prefers_more_fields_to_exactness() {
    let u = union(
        UnionMode::Smart,
        vec![choice("a", one_field_exact), choice("b", two_fields), choice("c", lax)],
    );
    let mut state = tracking();
    state.fields_set_count = Some(10);
    assert_eq!(u.validate(&input(), &mut state), integer(5));
    assert_eq!(state.exactness, Some(Exactness::Lax));
    assert_eq!(state.fields_set_count, Some(12));
}

#[test]
fn smart_goes_by_exactness_among_equal_numbers_of_fields() {
    let u = union(
        UnionMode::Smart,
        vec![choice("a", two_fields), choice("b", two_fields_strict), choice("c", two_fields)],
    );
    let mut state = ValidationState::new(false);
    assert_eq!(u.validate(&input(), &mut state), integer(7));
    assert_eq!(state.exactness, None);
    assert_eq!(state.fields_set_count, Some(2));
}

#[test]
fn smart_goes_by_exactness_where_one_counts_no_fields() {
    let u = union(UnionMode::Smart, vec![choice("a", two_fields), choice("b", strict)]);
    assert_eq!(u.validate(&input(), &mut tracking()), integer(2));
    let u = union(UnionMode::Smart, vec![choice("b", strict), choice("a", two_fields)]);
    assert_eq!(u.validate(&input(), &mut tracking()), integer(2));
}

#[test]
fn smart_takes_an_untracked_match_for_a_lax_one() {
    let u = union(UnionMode::Smart, vec![choice("a", untracked), choice("b", strict)]);
    assert_eq!(u.validate(&input(), &mut tracking()), integer(2));
    let u = union(UnionMode::Smart, vec![choice("a", untracked), choice("b", lax)]);
    let mut state = tracking();
    assert_eq!(u.validate(&input(), &mut state), integer(8));
    assert_eq!(state.exactness, Some(Exactness::Lax));
}

#[test]
fn smart_passes_an_interruption_on() {
    let u = union(UnionMode::Smart, vec![choice("a", lax), choice("b", raises), choice("c", exact)]);
    let mut state = tracking();
    state.fields_set_count = Some(3);
    assert_eq!(u.validate(&input(), &mut state), Err(ValError::InternalErr(42)));
    assert_eq!(state.exactness, Some(Exactness::Strict));
    assert_eq!(state.fields_set_count, None);
    assert!(!state.strict);
    let u = union(UnionMode::Smart, vec![choice("a", omits), choice("c", exact)]);
    assert_eq!(u.validate(&input(), &mut tracking()), Err(ValError::Omit));
}

fn line(error_type: ErrorType, location: Vec<LocItem>) -> ValLineError {
    ValLineError { error_type, location, input_value: input() }
}

fn s(text: &str) -> LocItem {
    LocItem::S(text.to_string())
}

#[test]
fn a_rejection_reports_every_error_under_its_choice() {
    for mode in [UnionMode::Smart, UnionMode::LeftToRight] {
        let mut labelled = choice("b", fails_twice);
        labelled.1 = Some("second".to_string());
        let u = union(mode, vec![choice("a", fails), labelled, choice("c", fails)]);
        let mut state = ValidationState::new(false);
        assert_eq!(
            u.validate(&input(), &mut state),
            Err(ValError::LineErrors(vec![
                line(ErrorType::IntType, vec![s("a")]),
                line(ErrorType::IntParsing, vec![s("second")]),
                line(ErrorType::StringType, vec![s("second"), LocItem::I(3)]),
                line(ErrorType::IntType, vec![s("c")]),
            ]))
        );
        assert!(!state.strict);
    }
}

#[test]
fn errors_of_more_choices_than_are_kept_in_place_stay_in_order() {
    let names = ["a", "b", "c", "d", "e", "f", "g"];
    let choices = names.iter().map(|name| choice(name, fails)).collect();
    let u = union(UnionMode::Smart, choices);
    let expected: Vec<ValLineError> =
        names.iter().map(|name| line(ErrorType::IntType, vec![s(name)])).collect();
    assert_eq!(u.validate(&input(), &mut tracking()), Err(ValError::LineErrors(expected)));
}

#[test]
fn a_rejecting_smart_union_records_nothing() {
    let u = union(UnionMode::Smart, vec![choice("a", fails)]);
    let mut state = tracking();
    state.fields_set_count = Some(1);
    assert!(u.validate(&input(), &mut state).is_err());
    assert_eq!(state.exactness, Some(Exactness::Exact));
    assert_eq!(state.fields_set_count, Some(1));
}

#[test]
fn a_custom_error_stands_in_for_all() {
    for mode in [UnionMode::Smart, UnionMode::LeftToRight] {
        let mut u = union(mode, vec![choice("a", fails), choice("b", fails_twice)]);
        u.custom_error = Some(CustomError {
            error_type: "my_error".to_string(),
            message_template: "bad".to_string(),
            context: Some(Arc::new(Value::Int(1))),
        });
        assert_eq!(
            u.validate(&input(), &mut tracking()),
            Err(ValError::LineErrors(vec![line(
                ErrorType::CustomError {
                    error_type: "my_error".to_string(),
                    message_template: "bad".to_string(),
                    context: Some(Arc::new(Value::Int(1))),
                },
                vec![],
            )]))
        );
    }
}

#[test]
fn left_to_right_takes_the_first_match() {
    let u = union(
        UnionMode::LeftToRight,
        vec![choice("a", fails), choice("b", lax), choice("c", exact)],
    );
    let mut state = ValidationState::new(false);
    assert_eq!(u.validate(&input(), &mut state), integer(1));
    assert!(!state.strict);
}

#[test]
fn left_to_right_hands_the_state_on() {
    let u = union(UnionMode::LeftToRight, vec![choice("a", fails), choice("b", two_fields)]);
    let mut state = tracking();
    state.fields_set_count = Some(1);
    assert_eq!(u.validate(&input(), &mut state), integer(5));
    assert_eq!(state.exactness, Some(Exactness::Lax));
    assert_eq!(state.fields_set_count, Some(3));
}

#[test]
fn left_to_right_passes_an_interruption_on() {
    let u = union(UnionMode::LeftToRight, vec![choice("a", raises), choice("b", exact)]);
    let mut state = ValidationState::new(false);
    assert_eq!(u.validate(&input(), &mut state), Err(ValError::InternalErr(42)));
    assert!(!state.strict);
}

#[test]
fn a_union_without_choices_rejects_with_no_errors() {
    for mode in [UnionMode::Smart, UnionMode::LeftToRight] {
        let u = union(mode, vec![]);
        assert_eq!(
            u.validate(&input(), &mut tracking()),
            Err(ValError::LineErrors(vec![]))
        );
    }
}

#[test]
fn a_union_can_be_a_leaf_of_another() {
    let inner = union(UnionMode::Smart, vec![choice("a", lax)]);
    assert_eq!(Validator::get_name(&inner), "u");
    assert_eq!(Validator::field_strict(&inner), None);
    let outer: UnionValidator<Union, NoTag> = UnionValidator {
        mode: UnionMode::LeftToRight,
        choices: vec![(CombinedValidator::Leaf(inner), None)],
        custom_error: None,
        name: "outer".to_string(),
        strict: false,
    };
    assert_eq!(outer.validate(&input(), &mut tracking()), integer(1));
}

#[test]
fn the_same_input_and_state_give_the_same_outcome() {
    for mode in [UnionMode::Smart, UnionMode::LeftToRight] {
        let u = union(mode, vec![choice("a", fails), choice("b", lax), choice("c", two_fields)]);
        let (mut first, mut second) = (tracking(), tracking());
        let results = [u.validate(&input(), &mut first), u.validate(&input(), &mut second)];
        assert_eq!(results[0], results[1]);
        assert_eq!(first, second);
    }
}

#[test]
fn better_matches() {
    let (l, s, e) = (Exactness::Lax, Exactness::Strict, Exactness::Exact);
    assert!(is_better_match(e, Some(1), l, Some(2)));
    assert!(!is_better_match(l, Some(2), e, Some(1)));
    assert!(is_better_match(l, Some(2), s, Some(2)));
    assert!(!is_better_match(s, Some(2), s, Some(2)));
    assert!(is_better_match(l, Some(5), s, None));
    assert!(!is_better_match(s, None, s, Some(5)));
}

#[test]
fn matches_without_a_best_one_beat_each_other_in_a_circle() {
    let (l, s, e) = (Exactness::Lax, Exactness::Strict, Exactness::Exact);
    assert!(is_better_match(l, Some(5), s, None));
    assert!(is_better_match(s, None, e, Some(1)));
    assert!(is_better_match(e, Some(1), l, Some(5)));
}

#[test]
fn the_count_of_fields_stays_at_the_largest() {
    let mut state = tracking();
    state.add_fields_set(usize::MAX);
    state.add_fields_set(2);
    assert_eq!(state.fields_set_count, Some(usize::MAX));
}

#[test]
fn the_state_keeps_the_loosest_match() {
    let mut state = tracking();
    state.floor_exactness(Exactness::Strict);
    state.floor_exactness(Exactness::Exact);
    assert_eq!(state.exactness, Some(Exactness::Strict));
    state.floor_exactness(Exactness::Lax);
    assert_eq!(state.exactness, Some(Exactness::Lax));
}

#[test]
fn both_modes_take_the_same_inputs() {
    let taking = || vec![choice("a", fails), choice("b", lax), choice("c", strict)];
    let smart = union(UnionMode::Smart, taking());
    let ordered = union(UnionMode::LeftToRight, taking());
    assert_eq!(smart.validate(&input(), &mut tracking()), integer(2));
    assert_eq!(ordered.validate(&input(), &mut tracking()), integer(1));
    let rejecting = || vec![choice("a", fails), choice("b", fails_twice), choice("c", fails)];
    let smart = union(UnionMode::Smart, rejecting());
    let ordered = union(UnionMode::LeftToRight, rejecting());
    let rejection = smart.validate(&input(), &mut tracking());
    assert!(rejection.is_err());
    assert_eq!(ordered.validate(&input(), &mut tracking()), rejection);
}

#[test]
fn one_more_rejecting_choice_changes_no_value() {
    for mode in [UnionMode::Smart, UnionMode::LeftToRight] {
        let choices = || {
            vec![choice("a", fails), choice("b", lax), choice("c", two_fields), choice("d", strict)]
        };
        let mut state = tracking();
        let value = union(mode, choices()).validate(&input(), &mut state);
        assert_eq!(value, integer(if mode == UnionMode::Smart { 2 } else { 1 }));
        for at in 0..=choices().len() {
            let mut more = choices();
            more.insert(at, choice("e", fails_twice));
            let mut other_state = tracking();
            assert_eq!(union(mode, more).validate(&input(), &mut other_state), value);
            assert_eq!(other_state, state);
        }
    }
}

#[test]
fn one_more_rejecting_choice_lets_no_later_interruption_in() {
    for mode in [UnionMode::Smart, UnionMode::LeftToRight] {
        for at in 0..=2 {
            let mut choices = vec![choice("a", exact), choice("b", raises)];
            choices.insert(at, choice("c", fails_twice));
            assert_eq!(union(mode, choices).validate(&input(), &mut tracking()), integer(4));
        }
    }
}

#[test]
fn the_settings_stay_as_they_were() {
    for mode in [UnionMode::Smart, UnionMode::LeftToRight] {
        for run in [exact, lax, fails, raises] {
            let mut state = tracking();
            state.extra.from_attributes = Some(true);
            let u = union(mode, vec![choice("a", fails), choice("b", run)]);
            let _ = u.validate(&input(), &mut state);
            assert_eq!(state.extra.from_attributes, Some(true));
        }
    }
}
