//! The errors of a union's choices, gathered while the choices are tried.
use std::sync::Arc;

use crate::errors::{
    append_located, lines_view, located, CustomError, LineErrorView, LocItem, LocItemView, ValError,
    ValErrorView, ValLineError,
};
use crate::value::Value;
use smallvec::SmallVec;
use vstd::prelude::*;

verus! {

/// The errors of one choice.
#[derive(Debug)]
pub struct ChoiceLineErrors<'a> {
    /// The name of the choice's validator.
    pub choice: &'a str,
    /// The label that the schema gave the choice, if any.
    pub label: Option<&'a str>,
    pub line_errors: Vec<ValLineError>,
}

impl<'a> ChoiceLineErrors<'a> {
    /// The step under which the errors are located: the label, or else the validator's name.
    pub open spec fn case_label(self) -> LocItemView {
        match self.label {
            Some(label) => LocItemView::S(label@),
            None => LocItemView::S(self.choice@),
        }
    }
}

/// The errors of choices, each under its choice, in the order of the choices.
pub open spec fn choice_lines(items: Seq<ChoiceLineErrors<'_>>) -> Seq<LineErrorView>
    decreases items.len(),
{
    if items.len() == 0 {
        Seq::empty()
    } else {
        choice_lines(items.drop_last()) + located(
            lines_view(items.last().line_errors@),
            items.last().case_label(),
        )
    }
}

/// How many items a list keeps in place: most unions have no more choices than that.
pub const SMALL_UNION_THRESHOLD: usize = 4;

/// A list that keeps a few items in place.
#[verifier::external_body]
#[derive(Debug)]
pub struct ChoiceList<'a> {
    items: SmallVec<[ChoiceLineErrors<'a>; SMALL_UNION_THRESHOLD]>,
}

/// What a `ChoiceList` holds, in order.
pub uninterp spec fn list_items(list: ChoiceList<'_>) -> Seq<ChoiceLineErrors<'_>>;

/// `SmallVec::new`: a list without items.
#[verifier::external_body]
fn list_new<'a>() -> (r: ChoiceList<'a>)
    ensures
        list_items(r) == Seq::<ChoiceLineErrors<'a>>::empty(),
{
    ChoiceList { items: SmallVec::new() }
}

/// `SmallVec::push`: the item comes after all others, which stay. It panics only where so many
/// items cannot be in memory at once, as `Vec::push` does.
#[verifier::external_body]
fn list_push<'a>(list: &mut ChoiceList<'a>, item: ChoiceLineErrors<'a>)
    ensures
        list_items(*final(list)) == list_items(*old(list)).push(item),
{
    list.items.push(item)
}

/// `SmallVec::into_iter`: hands out the items in order.
#[verifier::external_body]
fn list_into_items<'a>(list: ChoiceList<'a>) -> (r: Vec<ChoiceLineErrors<'a>>)
    ensures
        r@ == list_items(list),
{
    list.items.into_iter().collect()
}

/// The errors of the choices so far, or the error that stands in for them all.
#[derive(Debug)]
pub enum MaybeErrors<'a> {
    Custom(&'a CustomError),
    Errors(ChoiceList<'a>),
}

impl<'a> MaybeErrors<'a> {
    /// The gathered errors; none are gathered where one stands in for them.
    pub open spec fn gathered(self) -> Seq<ChoiceLineErrors<'a>> {
        match self {
            MaybeErrors::Custom(_) => Seq::empty(),
            MaybeErrors::Errors(list) => list_items(list),
        }
    }

    /// The error that stands in for all, if any.
    pub open spec fn custom(self) -> Option<CustomError> {
        match self {
            MaybeErrors::Custom(custom_error) => Some(*custom_error),
            MaybeErrors::Errors(_) => None,
        }
    }

    /// No errors yet.
    pub fn new(custom_error: Option<&'a CustomError>) -> (r: Self)
        ensures
            r.gathered() == Seq::<ChoiceLineErrors<'a>>::empty(),
            r.custom() == match custom_error {
                Some(c) => Some(*c),
                None => None,
            },
    {
        match custom_error {
            Some(custom_error) => MaybeErrors::Custom(custom_error),
            None => MaybeErrors::Errors(list_new()),
        }
    }

    /// Adds the errors of a choice.
    pub fn push(
        &mut self,
        choice: &'a str,
        label: Option<&'a str>,
        line_errors: Vec<ValLineError>,
    )
        ensures
            final(self).custom() == old(self).custom(),
            final(self).gathered() == if old(self).custom() is Some {
                old(self).gathered()
            } else {
                old(self).gathered().push(ChoiceLineErrors { choice, label, line_errors })
            },
    {
        match self {
            MaybeErrors::Custom(_) => {},
            MaybeErrors::Errors(errors) => list_push(
                errors,
                ChoiceLineErrors { choice, label, line_errors },
            ),
        }
    }

    /// The failure of the union: the error that stands in for all, or every gathered error,
    /// located under its choice.
    pub fn into_val_error(self, input: &Arc<Value>) -> (r: ValError)
        ensures
            r@ == match self.custom() {
                Some(custom_error) => custom_error.spec_as_val_error(**input),
                None => ValErrorView::LineErrors(choice_lines(self.gathered())),
            },
    {
        match self {
            MaybeErrors::Custom(custom_error) => custom_error.as_val_error(input),
            MaybeErrors::Errors(errors) => {
                let ghost all = list_items(errors);
                let items = list_into_items(errors);
                let mut lines: Vec<ValLineError> = Vec::new();
                assert(lines_view(lines@) =~= choice_lines(all.take(0)));
                for item in iter: items.into_iter()
                    invariant
                        iter.seq() == all,
                        lines_view(lines@) == choice_lines(all.take(iter.index())),
                {
                    let ghost k = iter.index();
                    let case_label = match item.label {
                        Some(label) => LocItem::S(label.to_owned()),
                        None => LocItem::S(item.choice.to_owned()),
                    };
                    assert(all.take(k + 1).drop_last() =~= all.take(k));
                    append_located(&mut lines, item.line_errors, &case_label);
                }
                assert(all.take(all.len() as int) =~= all);
                ValError::LineErrors(lines)
            },
        }
    }
}

} // verus!
