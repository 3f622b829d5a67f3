//! Tagged unions.
use std::sync::Arc;

use crate::combined::CombinedValidator;
use crate::errors::{
    line_error, result_view, CustomError, ErrorType, ErrorTypeView, LocItem, ValError, ValErrorView,
    ValResult,
};
use crate::state::ValidationState;
use crate::validator::{tag_view, Outcome, TagFunction, Validator, ValidatorView};
use crate::value::{held, LookupKey, Value};
use vstd::pervasive::arbitrary;
use vstd::prelude::*;

verus! {

/// A tag of a choice.
#[derive(Debug, PartialEq, Eq)]
pub enum Literal {
    Bool(bool),
    Int(i64),
    Str(String),
}

impl Literal {
    /// Whether a value is the tag: a boolean, an integer or a text of the same content.
    pub open spec fn spec_is(self, value: Value) -> bool {
        match (self, value) {
            (Literal::Bool(a), Value::Bool(b)) => a == b,
            (Literal::Int(a), Value::Int(b)) => a == b,
            (Literal::Str(a), Value::Str(b)) => a@ == b@,
            (Literal::Str(a), Value::Text(b)) => a@ == b@,
            _ => false,
        }
    }

    /// Whether a value is the tag.
    pub fn is(&self, value: &Value) -> (r: bool)
        ensures
            r == self.spec_is(*value),
            value matches Value::Str(s) ==> r == (self is Str && self->Str_0@ == s@),
            value matches Value::Text(s) ==> r == (self is Str && self->Str_0@ == s@),
            value matches Value::Int(n) ==> r == (self is Int && self->Int_0 == n),
            value matches Value::Bool(b) ==> r == (self is Bool && self->Bool_0 == b),
    {
        match (self, value) {
            (Literal::Bool(a), Value::Bool(b)) => *a == *b,
            (Literal::Int(a), Value::Int(b)) => *a == *b,
            (Literal::Str(a), Value::Str(b)) => *a == *b,
            (Literal::Str(a), Value::Text(b)) => *a == *b,
            _ => false,
        }
    }
}

/// What stands under tags. Where a tag occurs more than once, the last entry counts.
#[derive(Debug)]
pub struct LiteralLookup<T> {
    pub entries: Vec<(Literal, T)>,
}

/// The position of the last entry under a tag.
pub open spec fn spec_find<T>(entries: Seq<(Literal, T)>, tag: Value) -> Option<int>
    decreases entries.len(),
{
    if entries.len() == 0 {
        None
    } else if entries.last().0.spec_is(tag) {
        Some(entries.len() - 1)
    } else {
        spec_find(entries.drop_last(), tag)
    }
}

/// A found position is in range and under the tag, and no later one is; where none is found,
/// no entry is under the tag.
pub proof fn lemma_find<T>(entries: Seq<(Literal, T)>, tag: Value)
    ensures
        match spec_find(entries, tag) {
            Some(i) => 0 <= i < entries.len() && entries[i].0.spec_is(tag) && forall|j: int|
                i < j < entries.len() ==> !(#[trigger] entries[j]).0.spec_is(tag),
            None => forall|j: int|
                0 <= j < entries.len() ==> !(#[trigger] entries[j]).0.spec_is(tag),
        },
    decreases entries.len(),
{
    if entries.len() > 0 && !entries.last().0.spec_is(tag) {
        let init = entries.drop_last();
        lemma_find(init, tag);
        let from: int = match spec_find(init, tag) {
            Some(i) => i + 1,
            None => 0,
        };
        assert forall|j: int| from <= j < entries.len() implies !(
        #[trigger] entries[j]).0.spec_is(tag) by {
            if j < entries.len() - 1 {
                assert(init[j] == entries[j]);
            }
        }
    }
}

/// Lists with the same tags have the same positions under a tag.
proof fn lemma_same_find<T, U>(a: Seq<(Literal, T)>, b: Seq<(Literal, U)>, tag: Value)
    requires
        a.len() == b.len(),
        forall|i: int| 0 <= i < a.len() ==> (#[trigger] a[i]).0 == (#[trigger] b[i]).0,
    ensures
        spec_find(a, tag) == spec_find(b, tag),
    decreases a.len(),
{
    if a.len() > 0 {
        assert forall|i: int| 0 <= i < a.len() - 1 implies (#[trigger] a.drop_last()[i]).0 == (
        #[trigger] b.drop_last()[i]).0 by {
            assert(a[i].0 == b[i].0);
        }
        assert(a[a.len() - 1].0 == b[b.len() - 1].0);
        lemma_same_find(a.drop_last(), b.drop_last(), tag);
    }
}

impl<T> LiteralLookup<T> {
    /// The position of the entry under a tag.
    pub fn find(&self, tag: &Value) -> (r: Option<usize>)
        ensures
            match r {
                Some(i) => spec_find(self.entries@, *tag) == Some(i as int) && i
                    < self.entries@.len(),
                None => spec_find(self.entries@, *tag) is None,
            },
    {
        let mut i: usize = self.entries.len();
        assert(self.entries@.take(i as int) =~= self.entries@);
        while i > 0
            invariant
                0 <= i <= self.entries@.len(),
                spec_find(self.entries@, *tag) == spec_find(self.entries@.take(i as int), *tag),
            decreases i,
        {
            assert(self.entries@.take(i as int).drop_last() =~= self.entries@.take(i - 1));
            i -= 1;
            if self.entries[i].0.is(tag) {
                return Some(i);
            }
        }
        None
    }
}

/// How a tagged union finds the tag of an input.
#[derive(Debug)]
pub enum Discriminator<F> {
    /// The tag is a part of the input.
    LookupKey(LookupKey),
    /// A function reads the tag off the input.
    Function(F),
}

/// Validates an input against the choice that its tag names.
#[derive(Debug)]
pub struct TaggedUnionValidator<L, F> {
    pub discriminator: Discriminator<F>,
    pub lookup: LiteralLookup<CombinedValidator<L, F>>,
    pub from_attributes: bool,
    pub custom_error: Option<CustomError>,
    pub tags_repr: String,
    pub discriminator_repr: String,
    pub name: String,
}

/// What a tag function found: a tag, no tag where it gave no value, or its exception.
pub open spec fn called_tag(called: Result<Value, u64>) -> Result<Option<Value>, ValErrorView> {
    match called {
        Ok(Value::Null) => Ok(None),
        Ok(tag) => Ok(Some(tag)),
        Err(id) => Err(ValErrorView::InternalErr(id)),
    }
}

/// An outcome with its errors located under a tag.
pub open spec fn under_tag(outcome: Outcome, tag: Value) -> Outcome {
    Outcome {
        result: match outcome.result {
            Ok(value) => Ok(value),
            Err(error) => Err(error.with_outer_location(LocItem::spec_of_value(tag))),
        },
        state: outcome.state,
    }
}

/// How a tagged union finds the tag of an input, as what it does.
pub enum DiscriminatorView {
    LookupKey(LookupKey),
    Function(spec_fn(Value, Result<Value, u64>) -> bool),
}

/// A tagged union, as what it does.
pub struct TaggedUnionView {
    pub discriminator: DiscriminatorView,
    /// The choices under their tags.
    pub entries: Seq<(Literal, ValidatorView)>,
    pub from_attributes: bool,
    pub custom_error: Option<CustomError>,
    pub tags_repr: Seq<char>,
    pub discriminator_repr: Seq<char>,
    pub name: Seq<char>,
}

impl TaggedUnionView {
    /// The failure where the input has no tag.
    pub open spec fn tag_not_found_error(self, input: Value) -> ValErrorView {
        match self.custom_error {
            Some(custom_error) => custom_error.spec_as_val_error(input),
            None => ValErrorView::LineErrors(
                seq![
                    line_error(
                        ErrorTypeView::UnionTagNotFound {
                            discriminator: self.discriminator_repr,
                            context: None,
                        },
                        input,
                    ),
                ],
            ),
        }
    }

    /// The failure where no choice has the tag of the input.
    pub open spec fn tag_invalid_error(self, tag: Value, input: Value) -> ValErrorView {
        match self.custom_error {
            Some(custom_error) => custom_error.spec_as_val_error(input),
            None => ValErrorView::LineErrors(
                seq![
                    line_error(
                        ErrorTypeView::UnionTagInvalid {
                            discriminator: self.discriminator_repr,
                            tag: tag.spec_text(),
                            expected_tags: self.tags_repr,
                            context: None,
                        },
                        input,
                    ),
                ],
            ),
        }
    }

    /// Whether attributes of the input may be read as its fields: as the validation says, or
    /// else as the union says.
    pub open spec fn reads_attributes(self, before: ValidationState) -> bool {
        match before.extra.from_attributes {
            Some(b) => b,
            None => self.from_attributes,
        }
    }

    /// The tag that is found under a key of the input, unless reading it raised an exception.
    pub open spec fn key_tag(
        self,
        key: LookupKey,
        input: Value,
        before: ValidationState,
    ) -> Result<Option<Value>, ValErrorView> {
        let from_attributes = self.reads_attributes(before);
        match input.spec_model_fields(before.strict, from_attributes) {
            Some(fields) => match key.spec_get_item(fields@, from_attributes) {
                Some(Value::Raised(id)) => Err(ValErrorView::InternalErr(id)),
                found => Ok(found),
            },
            None => Err(
                ValErrorView::LineErrors(
                    seq![
                        line_error(
                            if from_attributes {
                                ErrorTypeView::ModelAttributesType
                            } else {
                                ErrorTypeView::DictType
                            },
                            input,
                        ),
                    ],
                ),
            ),
        }
    }

    /// Whether validating an input against a choice may end with an outcome: one of the
    /// choice, its errors located under the tag.
    pub open spec fn choice_yields(
        self,
        i: int,
        tag: Value,
        input: Value,
        before: ValidationState,
        outcome: Outcome,
    ) -> bool {
        exists|inner: Outcome| #[trigger]
            self.entries[i].1.yields(input, before, inner) && outcome == under_tag(inner, tag)
    }

    /// Whether validating an input with a tag may end with an outcome: one of the choice with
    /// the tag, or the failure where there is none.
    pub open spec fn tag_yields(
        self,
        tag: Value,
        input: Value,
        before: ValidationState,
        outcome: Outcome,
    ) -> bool {
        match spec_find(self.entries, tag) {
            Some(i) => self.choice_yields(i, tag, input, before, outcome),
            None => outcome == (Outcome {
                result: Err(self.tag_invalid_error(tag, input)),
                state: before,
            }),
        }
    }

    /// Whether validating an input may end with an outcome, once the search for its tag has
    /// ended.
    pub open spec fn found_yields(
        self,
        found: Result<Option<Value>, ValErrorView>,
        input: Value,
        before: ValidationState,
        outcome: Outcome,
    ) -> bool {
        match found {
            Ok(Some(tag)) => self.tag_yields(tag, input, before, outcome),
            Ok(None) => outcome == (Outcome {
                result: Err(self.tag_not_found_error(input)),
                state: before,
            }),
            Err(error) => outcome == (Outcome { result: Err(error), state: before }),
        }
    }

    /// Whether validating an input from a state may end with an outcome.
    pub open spec fn yields(self, input: Value, before: ValidationState, outcome: Outcome) -> bool {
        match self.discriminator {
            DiscriminatorView::LookupKey(key) => self.found_yields(
                self.key_tag(key, input, before),
                input,
                before,
                outcome,
            ),
            DiscriminatorView::Function(may_tag) => exists|called: Result<Value, u64>| #[trigger]
                may_tag(input, called) && self.found_yields(
                    called_tag(called),
                    input,
                    before,
                    outcome,
                ),
        }
    }

    /// The validator that the union is.
    pub open spec fn as_validator(self) -> ValidatorView {
        ValidatorView {
            name: self.name,
            strict: None,
            relation: |input: Value, before: ValidationState, outcome: Outcome|
                self.yields(input, before, outcome),
        }
    }
}

impl<L: Validator, F: TagFunction> TaggedUnionValidator<L, F> {
    /// The union, as what it does.
    pub open spec fn view(&self) -> TaggedUnionView
        decreases self,
    {
        TaggedUnionView {
            discriminator: match self.discriminator {
                Discriminator::LookupKey(key) => DiscriminatorView::LookupKey(key),
                Discriminator::Function(function) => DiscriminatorView::Function(
                    |input: Value, tag: Result<Value, u64>| function.may_tag(input, tag),
                ),
            },
            entries: Seq::new(
                self.lookup.entries@.len(),
                |i: int|
                    if 0 <= i < self.lookup.entries@.len() {
                        (self.lookup.entries@[i].0, self.lookup.entries@[i].1@)
                    } else {
                        arbitrary()
                    },
            ),
            from_attributes: self.from_attributes,
            custom_error: self.custom_error,
            tags_repr: self.tags_repr@,
            discriminator_repr: self.discriminator_repr@,
            name: self.name@,
        }
    }

    /// The failure where the input has no tag.
    pub fn tag_not_found(&self, input: &Arc<Value>) -> (r: ValError)
        ensures
            r@ == self@.tag_not_found_error(**input),
    {
        match &self.custom_error {
            Some(custom_error) => custom_error.as_val_error(input),
            None => ValError::new(
                ErrorType::UnionTagNotFound {
                    discriminator: self.discriminator_repr.clone(),
                    context: None,
                },
                input,
            ),
        }
    }

    /// Validates an input against the choice with a tag.
    pub fn find_call_validator(
        &self,
        tag: &Arc<Value>,
        input: &Arc<Value>,
        state: &mut ValidationState,
    ) -> (r: ValResult)
        ensures
            self@.tag_yields(
                **tag,
                **input,
                *old(state),
                (Outcome { result: result_view(r), state: *final(state) }),
            ),
        decreases self, 0nat,
    {
        proof {
            lemma_same_find(self.lookup.entries@, self@.entries, held(tag));
        }
        match self.lookup.find(tag) {
            Some(i) => {
                let validator = &self.lookup.entries[i].1;
                let inner = validator.validate(input, state);
                let ghost inner_outcome = Outcome { result: result_view(inner), state: *state };
                assert(self@.entries[i as int].1.yields(**input, *old(state), inner_outcome));
                let result = match inner {
                    Ok(value) => Ok(value),
                    Err(error) => Err(error.with_outer_location(LocItem::of_value(tag))),
                };
                assert(under_tag(inner_outcome, **tag) == (Outcome {
                    result: result_view(result),
                    state: *state,
                }));
                result
            },
            None => match &self.custom_error {
                Some(custom_error) => Err(custom_error.as_val_error(input)),
                None => Err(
                    ValError::new(
                        ErrorType::UnionTagInvalid {
                            discriminator: self.discriminator_repr.clone(),
                            tag: tag.text(),
                            expected_tags: self.tags_repr.clone(),
                            context: None,
                        },
                        input,
                    ),
                ),
            },
        }
    }

    /// Validates an input off which a function read the tag.
    pub fn validate_called(
        &self,
        called: Result<Arc<Value>, u64>,
        input: &Arc<Value>,
        state: &mut ValidationState,
    ) -> (r: ValResult)
        ensures
            self@.found_yields(
                called_tag(tag_view(called)),
                **input,
                *old(state),
                (Outcome { result: result_view(r), state: *final(state) }),
            ),
        decreases self, 1nat,
    {
        match called {
            Ok(tag) => match &*tag {
                Value::Null => Err(self.tag_not_found(input)),
                _ => self.find_call_validator(&tag, input, state),
            },
            Err(id) => Err(ValError::InternalErr(id)),
        }
    }

    /// Validates an input.
    pub fn validate(&self, input: &Arc<Value>, state: &mut ValidationState) -> (r: ValResult)
        ensures
            self@.yields(
                **input,
                *old(state),
                (Outcome { result: result_view(r), state: *final(state) }),
            ),
        decreases self, 2nat,
    {
        match &self.discriminator {
            Discriminator::LookupKey(lookup_key) => {
                let from_attributes = match state.extra().from_attributes {
                    Some(b) => b,
                    None => self.from_attributes,
                };
                match input.model_fields(state.strict_or(false), from_attributes) {
                    Some(fields) => match lookup_key.get_item(fields, from_attributes) {
                        Some(tag) => match &**tag {
                            Value::Raised(id) => Err(ValError::InternalErr(*id)),
                            _ => self.find_call_validator(tag, input, state),
                        },
                        None => Err(self.tag_not_found(input)),
                    },
                    None => if from_attributes {
                        Err(ValError::new(ErrorType::ModelAttributesType, input))
                    } else {
                        Err(ValError::new(ErrorType::DictType, input))
                    },
                }
            },
            Discriminator::Function(function) => {
                let called = function.call(input);
                assert(self@.discriminator matches DiscriminatorView::Function(may_tag) && may_tag(
                    **input,
                    tag_view(called),
                ));
                self.validate_called(called, input, state)
            },
        }
    }

    /// The name under which errors of the union are located.
    pub fn get_name(&self) -> (r: &str)
        ensures
            r@ == self.name@,
    {
        self.name.as_str()
    }
}

impl<L: Validator, F: TagFunction> Validator for TaggedUnionValidator<L, F> {
    open spec fn spec_name(&self) -> Seq<char> {
        self.name@
    }

    open spec fn spec_field_strict(&self) -> Option<bool> {
        None
    }

    open spec fn may_yield(&self, input: Value, before: ValidationState, outcome: Outcome) -> bool {
        self@.yields(input, before, outcome)
    }

    fn get_name(&self) -> (r: &str) {
        self.get_name()
    }

    fn field_strict(&self) -> (r: Option<bool>) {
        None
    }

    fn validate(&self, input: &Arc<Value>, state: &mut ValidationState) -> (r: ValResult) {
        self.validate(input, state)
    }
}

} // verus!
