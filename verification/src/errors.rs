//! What a failed validation reports.
use std::sync::Arc;

use crate::value::{share, Value};
use vstd::prelude::*;

verus! {

/// A step on the way from the whole input to the part that an error is about.
#[derive(Debug, PartialEq, Eq)]
pub enum LocItem {
    S(String),
    I(i64),
}

/// A step of a location, by its text or its number.
pub enum LocItemView {
    S(Seq<char>),
    I(int),
}

impl View for LocItem {
    type V = LocItemView;

    open spec fn view(&self) -> LocItemView {
        match self {
            LocItem::S(s) => LocItemView::S(s@),
            LocItem::I(i) => LocItemView::I(*i as int),
        }
    }
}

impl LocItem {
    /// The step that a value names: a string and an integer name themselves, any other value
    /// is named by its text.
    pub open spec fn spec_of_value(value: Value) -> LocItemView {
        match value {
            Value::Int(i) => LocItemView::I(i as int),
            _ => LocItemView::S(value.spec_text()),
        }
    }

    /// The step that a value names.
    pub fn of_value(value: &Value) -> (r: LocItem)
        ensures
            r@ == LocItem::spec_of_value(*value),
    {
        match value {
            Value::Int(i) => LocItem::I(*i),
            _ => LocItem::S(value.text()),
        }
    }

    /// The same step once more.
    pub fn copied(&self) -> (r: LocItem)
        ensures
            r@ == self@,
    {
        match self {
            LocItem::S(s) => LocItem::S(s.clone()),
            LocItem::I(i) => LocItem::I(*i),
        }
    }
}

/// What was wrong with an input.
#[derive(Debug, PartialEq, Eq)]
pub enum ErrorType {
    IntType,
    IntParsing,
    StringType,
    DictType,
    ModelAttributesType,
    Missing,
    /// The input has no tag.
    UnionTagNotFound { discriminator: String, context: Option<Arc<Value>> },
    /// No choice of a tagged union has the tag of the input.
    UnionTagInvalid {
        discriminator: String,
        tag: String,
        expected_tags: String,
        context: Option<Arc<Value>>,
    },
    /// An error that a schema put in the place of a validator's own.
    CustomError { error_type: String, message_template: String, context: Option<Arc<Value>> },
}

/// What was wrong with an input, by the texts it is made of.
pub enum ErrorTypeView {
    IntType,
    IntParsing,
    StringType,
    DictType,
    ModelAttributesType,
    Missing,
    UnionTagNotFound { discriminator: Seq<char>, context: Option<Arc<Value>> },
    UnionTagInvalid {
        discriminator: Seq<char>,
        tag: Seq<char>,
        expected_tags: Seq<char>,
        context: Option<Arc<Value>>,
    },
    CustomError {
        error_type: Seq<char>,
        message_template: Seq<char>,
        context: Option<Arc<Value>>,
    },
}

impl View for ErrorType {
    type V = ErrorTypeView;

    open spec fn view(&self) -> ErrorTypeView {
        match self {
            ErrorType::IntType => ErrorTypeView::IntType,
            ErrorType::IntParsing => ErrorTypeView::IntParsing,
            ErrorType::StringType => ErrorTypeView::StringType,
            ErrorType::DictType => ErrorTypeView::DictType,
            ErrorType::ModelAttributesType => ErrorTypeView::ModelAttributesType,
            ErrorType::Missing => ErrorTypeView::Missing,
            ErrorType::UnionTagNotFound { discriminator, context } => {
                ErrorTypeView::UnionTagNotFound {
                    discriminator: discriminator@,
                    context: *context,
                }
            },
            ErrorType::UnionTagInvalid { discriminator, tag, expected_tags, context } => {
                ErrorTypeView::UnionTagInvalid {
                    discriminator: discriminator@,
                    tag: tag@,
                    expected_tags: expected_tags@,
                    context: *context,
                }
            },
            ErrorType::CustomError { error_type, message_template, context } => {
                ErrorTypeView::CustomError {
                    error_type: error_type@,
                    message_template: message_template@,
                    context: *context,
                }
            },
        }
    }
}

/// One error: what was wrong, where, and with which value.
#[derive(Debug, PartialEq, Eq)]
pub struct ValLineError {
    pub error_type: ErrorType,
    /// The way to the value, from the outermost step to the innermost.
    pub location: Vec<LocItem>,
    pub input_value: Arc<Value>,
}

/// One error, as what it says.
#[verifier::ext_equal]
pub struct LineErrorView {
    pub error_type: ErrorTypeView,
    pub location: Seq<LocItemView>,
    pub input_value: Value,
}

impl View for ValLineError {
    type V = LineErrorView;

    open spec fn view(&self) -> LineErrorView {
        LineErrorView {
            error_type: self.error_type@,
            location: self.location@.map_values(|item: LocItem| item@),
            input_value: *self.input_value,
        }
    }
}

impl LineErrorView {
    /// The error, seen from one step further out.
    pub open spec fn with_outer_location(self, outer: LocItemView) -> LineErrorView {
        LineErrorView { location: seq![outer] + self.location, ..self }
    }
}

impl ValLineError {
    /// An error about the value itself.
    pub fn new(error_type: ErrorType, input: &Arc<Value>) -> (r: ValLineError)
        ensures
            r@ == line_error(error_type@, **input),
    {
        let r = ValLineError { error_type, location: Vec::new(), input_value: share(input) };
        assert(r@.location =~= Seq::<LocItemView>::empty());
        r
    }

    /// The error, seen from one step further out.
    pub fn with_outer_location(self, outer: LocItem) -> (r: ValLineError)
        ensures
            r@ == self@.with_outer_location(outer@),
    {
        let mut location = self.location;
        location.insert(0, outer);
        let r = ValLineError {
            error_type: self.error_type,
            location,
            input_value: self.input_value,
        };
        assert(r@.location =~= seq![outer@] + self@.location);
        r
    }
}

/// An error about a value itself.
pub open spec fn line_error(error_type: ErrorTypeView, input: Value) -> LineErrorView {
    LineErrorView { error_type, location: Seq::empty(), input_value: input }
}

/// Why a validation did not give a value.
#[derive(Debug, PartialEq, Eq)]
pub enum ValError {
    /// The input is not valid.
    LineErrors(Vec<ValLineError>),
    /// The host raised an exception, which it keeps under this number.
    InternalErr(u64),
    /// The value is to be left out of the container that holds it.
    Omit,
    /// The default is to be taken in the value's place.
    UseDefault,
}

/// Why a validation did not give a value, as what it says.
pub enum ValErrorView {
    LineErrors(Seq<LineErrorView>),
    InternalErr(u64),
    Omit,
    UseDefault,
}

/// What a validation gives.
pub type ValResult = Result<Arc<Value>, ValError>;

/// What a list of errors says.
pub open spec fn lines_view(lines: Seq<ValLineError>) -> Seq<LineErrorView> {
    lines.map_values(|line: ValLineError| line@)
}

impl View for ValError {
    type V = ValErrorView;

    open spec fn view(&self) -> ValErrorView {
        match self {
            ValError::LineErrors(lines) => ValErrorView::LineErrors(lines_view(lines@)),
            ValError::InternalErr(id) => ValErrorView::InternalErr(*id),
            ValError::Omit => ValErrorView::Omit,
            ValError::UseDefault => ValErrorView::UseDefault,
        }
    }
}

/// What a validation gave, as what it says.
pub open spec fn result_view(result: ValResult) -> Result<Value, ValErrorView> {
    match result {
        Ok(value) => Ok(*value),
        Err(error) => Err(error@),
    }
}

/// Each of a list of errors, seen from one step further out.
pub open spec fn located(lines: Seq<LineErrorView>, outer: LocItemView) -> Seq<LineErrorView> {
    lines.map_values(|line: LineErrorView| line.with_outer_location(outer))
}

impl ValErrorView {
    /// Errors about the input are seen from one step further out; the rest is as it was.
    pub open spec fn with_outer_location(self, outer: LocItemView) -> ValErrorView {
        match self {
            ValErrorView::LineErrors(lines) => ValErrorView::LineErrors(located(lines, outer)),
            _ => self,
        }
    }
}

/// Appends errors to others, each seen from one step further out.
pub fn append_located(out: &mut Vec<ValLineError>, lines: Vec<ValLineError>, outer: &LocItem)
    ensures
        lines_view(final(out)@) == lines_view(old(out)@) + located(lines_view(lines@), outer@),
{
    let ghost before = lines_view(out@);
    let ghost all = lines_view(lines@);
    assert(located(all.take(0), outer@) =~= Seq::<LineErrorView>::empty());
    assert(lines_view(out@) =~= before + located(all.take(0), outer@));
    for line in iter: lines.into_iter()
        invariant
            iter.seq() == lines@,
            all == lines_view(lines@),
            lines_view(out@) == before + located(all.take(iter.index()), outer@),
    {
        let ghost k = iter.index();
        let ghost so_far = out@;
        let moved = line.with_outer_location(outer.copied());
        out.push(moved);
        assert(lines_view(out@) =~= lines_view(so_far).push(moved@));
        assert(all.take(k + 1) =~= all.take(k).push(all[k]));
        assert(located(all.take(k + 1), outer@) =~= located(all.take(k), outer@).push(
            all[k].with_outer_location(outer@),
        ));
        assert(lines_view(out@) =~= before + located(all.take(k + 1), outer@));
    }
    assert(all.take(all.len() as int) =~= all);
}

impl ValError {
    /// One error about the input.
    pub fn new(error_type: ErrorType, input: &Arc<Value>) -> (r: ValError)
        ensures
            r@ == ValErrorView::LineErrors(seq![line_error(error_type@, **input)]),
    {
        let line = ValLineError::new(error_type, input);
        let mut lines: Vec<ValLineError> = Vec::new();
        lines.push(line);
        assert(lines_view(lines@) =~= seq![line@]);
        ValError::LineErrors(lines)
    }

    /// Errors about the input are seen from one step further out; the rest is as it was.
    pub fn with_outer_location(self, outer: LocItem) -> (r: ValError)
        ensures
            r@ == self@.with_outer_location(outer@),
    {
        match self {
            ValError::LineErrors(lines) => {
                let mut out: Vec<ValLineError> = Vec::new();
                let ghost all = lines_view(lines@);
                append_located(&mut out, lines, &outer);
                assert(lines_view(out@) =~= located(all, outer@));
                ValError::LineErrors(out)
            },
            other => other,
        }
    }
}

/// The error that a schema puts in the place of a validator's own.
#[derive(Debug, PartialEq, Eq)]
pub struct CustomError {
    pub error_type: String,
    pub message_template: String,
    pub context: Option<Arc<Value>>,
}

impl CustomError {
    /// What the error says of any input.
    pub open spec fn spec_error_type(self) -> ErrorTypeView {
        ErrorTypeView::CustomError {
            error_type: self.error_type@,
            message_template: self.message_template@,
            context: self.context,
        }
    }

    /// The failure of a validation whose own errors are not shown.
    pub open spec fn spec_as_val_error(self, input: Value) -> ValErrorView {
        ValErrorView::LineErrors(seq![line_error(self.spec_error_type(), input)])
    }

    /// The failure of a validation whose own errors are not shown.
    pub fn as_val_error(&self, input: &Arc<Value>) -> (r: ValError)
        ensures
            r@ == self.spec_as_val_error(**input),
    {
        let context = match &self.context {
            Some(value) => Some(share(value)),
            None => None,
        };
        ValError::new(
            ErrorType::CustomError {
                error_type: self.error_type.clone(),
                message_template: self.message_template.clone(),
                context,
            },
            input,
        )
    }
}

} // verus!
