//! What texts and counts stand for.
use crate::choice_errors::{choice_lines, list_items, ChoiceLineErrors, MaybeErrors};
use crate::errors::{line_error, CustomError, ErrorTypeView, LineErrorView, LocItemView};
use crate::state::{floored, with_fields, Exactness};
use crate::text::{
    decimal_int, decimal_nat, digit_value, digits_value, joined, parsed_int, unsigned_part,
};
use crate::union_laws::{closeness, counted, one_error};
use crate::value::Value;
use vstd::prelude::*;

verus! {

/// The ten decimal digits.
pub open spec fn numeral(d: int) -> char {
    if d == 0 {
        '0'
    } else if d == 1 {
        '1'
    } else if d == 2 {
        '2'
    } else if d == 3 {
        '3'
    } else if d == 4 {
        '4'
    } else if d == 5 {
        '5'
    } else if d == 6 {
        '6'
    } else if d == 7 {
        '7'
    } else if d == 8 {
        '8'
    } else {
        '9'
    }
}

/// Whether a character is none of the ten digits.
pub open spec fn no_numeral(c: char) -> bool {
    forall|d: int| 0 <= d < 10 ==> c != #[trigger] numeral(d)
}

/// A number below ten is shown by its digit; ten times a number and a digit by that number's text
/// with the digit behind it; a negative number by a minus sign before the text of its magnitude.
pub proof fn law_decimal_text(n: nat, d: nat)
    requires
        d < 10,
    ensures
        decimal_int(d as int) == seq![numeral(d as int)],
        n > 0 ==> decimal_int((10 * n + d) as int) == decimal_int(n as int).push(numeral(d as int)),
        n > 0 ==> decimal_int(-(n as int)) == seq!['-'] + decimal_int(n as int),
{
    if n > 0 {
        let m: nat = 10 * n + d;
        assert(m / 10 == n);
        assert(m % 10 == d);
        assert(decimal_nat(m) == decimal_nat(n).push(crate::text::digit_char(d)));
    }
}

/// Characters that are no digits, and those that are.
proof fn lemma_numerals(c: char, d: int)
    requires
        0 <= d < 10,
    ensures
        digit_value(numeral(d)) == Some(d as nat),
        no_numeral(c) <==> digit_value(c) is None,
        numeral(d) != '-',
        numeral(d) != '+',
{
    if let Some(v) = digit_value(c) {
        assert(c == numeral(v as int));
    }
}

/// No text without a digit stands for an integer; a digit, with or without a sign before it,
/// stands for itself.
pub proof fn law_shortest_integers(c: char, d: int)
    requires
        0 <= d < 10,
    ensures
        parsed_int(Seq::empty()) is None,
        parsed_int(seq!['-']) is None,
        parsed_int(seq!['+']) is None,
        parsed_int(seq![numeral(d)]) == Some(d),
        parsed_int(seq!['+', numeral(d)]) == Some(d),
        parsed_int(seq!['-', numeral(d)]) == Some(-d),
        no_numeral(c) ==> parsed_int(seq![c]) is None,
        no_numeral(c) ==> parsed_int(seq!['+', c]) is None,
        no_numeral(c) ==> parsed_int(seq!['-', c]) is None,
{
    lemma_numerals(c, d);
    lemma_one_character(numeral(d));
    lemma_one_character(c);
    assert(unsigned_part(seq!['-']) =~= Seq::empty());
    assert(unsigned_part(seq!['+']) =~= Seq::empty());
    assert(unsigned_part(seq!['+', numeral(d)]) =~= seq![numeral(d)]);
    assert(unsigned_part(seq!['-', numeral(d)]) =~= seq![numeral(d)]);
    assert(unsigned_part(seq!['+', c]) =~= seq![c]);
    assert(unsigned_part(seq!['-', c]) =~= seq![c]);
    assert(unsigned_part(seq![numeral(d)]) =~= seq![numeral(d)]);
    if c != '-' && c != '+' {
        assert(unsigned_part(seq![c]) =~= seq![c]);
    }
}

proof fn lemma_one_character(c: char)
    ensures
        digits_value(seq![c]) == digit_value(c),
{
    assert(seq![c].drop_last() =~= Seq::empty());
    assert(digits_value(Seq::empty()) == Some(0nat));
    assert(seq![c].last() == c);
}

/// One more digit behind a text makes the integer that it stands for ten times as large and adds
/// the digit, away from zero; any other character makes it stand for none, and so does an integer
/// that is too large. A text that stands for none does not begin to by one more digit, unless it
/// had no digits yet.
pub proof fn law_one_more_digit(text: Seq<char>, c: char, d: int)
    requires
        0 <= d < 10,
        text.len() > 0,
        text != seq!['-'],
        text != seq!['+'],
    ensures
        no_numeral(c) ==> parsed_int(text.push(c)) is None,
        ({
            let longer = parsed_int(text.push(numeral(d)));
            match parsed_int(text) {
                Some(i) => {
                    let next = if text[0] == '-' {
                        10 * i - d
                    } else {
                        10 * i + d
                    };
                    if i64::MIN <= next <= i64::MAX {
                        longer == Some(next)
                    } else {
                        longer is None
                    }
                },
                None => longer is None,
            }
        }),
{
    lemma_numerals(c, d);
    lemma_unsigned_push(text, c);
    lemma_unsigned_push(text, numeral(d));
    let body = unsigned_part(text);
    if body.len() == 0 {
        assert(text =~= seq![text[0]]);
    }
}

proof fn lemma_unsigned_push(text: Seq<char>, c: char)
    requires
        text.len() > 0,
    ensures
        unsigned_part(text.push(c)) == unsigned_part(text).push(c),
        digits_value(unsigned_part(text.push(c))) == match (
            digits_value(unsigned_part(text)),
            digit_value(c),
        ) {
            (Some(high), Some(low)) => Some(10 * high + low),
            _ => None,
        },
{
    let body = unsigned_part(text);
    assert(text.push(c)[0] == text[0]);
    assert(unsigned_part(text.push(c)) =~= body.push(c));
    assert(body.push(c).drop_last() =~= body);
    assert(body.push(c).last() == c);
}

/// No texts in a row are no text, one text is itself, and a row is its two parts with the
/// separator between them, wherever it is parted.
pub proof fn law_texts_in_a_row(
    a: Seq<Seq<char>>,
    b: Seq<Seq<char>>,
    part: Seq<char>,
    separator: Seq<char>,
)
    ensures
        joined(Seq::empty(), separator) == Seq::<char>::empty(),
        joined(seq![part], separator) == part,
        a.len() > 0 && b.len() > 0 ==> joined(a + b, separator) == joined(a, separator) + separator
            + joined(b, separator),
    decreases b.len(),
{
    if a.len() > 0 && b.len() > 0 {
        let init = b.drop_last();
        assert((a + b).drop_last() =~= a + init);
        assert((a + b).last() == b.last());
        if init.len() == 0 {
            assert(a + init =~= a);
            assert(joined(b, separator) == b[0]);
        } else {
            law_texts_in_a_row(a, init, part, separator);
            assert(joined(a + b, separator) =~= joined(a, separator) + separator + joined(
                b,
                separator,
            ));
        }
    }
}

/// A lax match is looser than a strict one, and that than an exact one. Of a match that is being
/// kept and another the looser one is kept; where none is being kept, none is.
pub proof fn law_looser_match(kept: Option<Exactness>, other: Exactness)
    ensures
        Exactness::Lax.rank() < Exactness::Strict.rank() < Exactness::Exact.rank(),
        kept is None ==> floored(kept, other) is None,
        kept is Some ==> {
            &&& floored(kept, other) == kept || floored(kept, other) == Some(other)
            &&& closeness(floored(kept, other)) <= closeness(kept)
            &&& closeness(floored(kept, other)) <= closeness(Some(other))
        },
{
}

/// More fields add to those counted so far, up to the largest count that there is.
pub proof fn law_more_fields(kept: Option<usize>, more: usize)
    ensures
        counted(kept, more, with_fields(kept, more)),
{
}

/// An error about a value itself is of the given type, holds the value and has no location.
pub proof fn law_error_about_a_value(error_type: ErrorTypeView, input: Value)
    ensures
        line_error(error_type, input).error_type == error_type,
        line_error(error_type, input).input_value == input,
        line_error(error_type, input).location.len() == 0,
{
}

/// A custom error is one error about the whole input, with the texts and the context that the
/// schema gave.
pub proof fn law_custom_error(custom: CustomError, input: Value)
    ensures
        one_error(
            custom.spec_as_val_error(input),
            ErrorTypeView::CustomError {
                error_type: custom.error_type@,
                message_template: custom.message_template@,
                context: custom.context,
            },
            input,
        ),
{
}

/// The errors of choices in a row are those of its two parts, one after the other, wherever it is
/// parted; those of one choice are its errors in order, each under its label, or else its name.
pub proof fn law_errors_of_choices<'a>(
    a: Seq<ChoiceLineErrors<'a>>,
    b: Seq<ChoiceLineErrors<'a>>,
    item: ChoiceLineErrors<'a>,
    k: int,
)
    ensures
        choice_lines(a + b) == choice_lines(a) + choice_lines(b),
        choice_lines(seq![item]).len() == item.line_errors@.len(),
        0 <= k < item.line_errors@.len() ==> {
            let step = LocItemView::S(
                match item.label {
                    Some(label) => label@,
                    None => item.choice@,
                },
            );
            &&& choice_lines(seq![item])[k].error_type == item.line_errors@[k]@.error_type
            &&& choice_lines(seq![item])[k].input_value == item.line_errors@[k]@.input_value
            &&& choice_lines(seq![item])[k].location == seq![step]
                + item.line_errors@[k]@.location
        },
    decreases b.len(),
{
    assert(seq![item].drop_last() =~= Seq::empty());
    assert(choice_lines(seq![item].drop_last()) =~= Seq::<LineErrorView>::empty());
    assert(seq![item].last() == item);
    if b.len() == 0 {
        assert(a + b =~= a);
        assert(choice_lines(a) + choice_lines(b) =~= choice_lines(a));
    } else {
        assert((a + b).drop_last() =~= a + b.drop_last());
        assert((a + b).last() == b.last());
        law_errors_of_choices(a, b.drop_last(), item, k);
        assert(choice_lines(a + b) =~= choice_lines(a) + choice_lines(b));
    }
}

/// A custom error stands in for all errors, of which none are then gathered; else none does, and
/// those of the list are.
pub proof fn law_custom_error_stands_in(errors: MaybeErrors<'_>)
    ensures
        errors matches MaybeErrors::Custom(custom) ==> errors.custom() == Some(*custom)
            && errors.gathered().len() == 0,
        errors matches MaybeErrors::Errors(list) ==> errors.custom() is None && errors.gathered()
            == list_items(list),
{
}

} // verus!
