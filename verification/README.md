# union_validator

Validators of unions, verified with Verus. An input is validated against several choices:

- a smart union takes the best match: of two matches that both set fields of models, the one that
  set more, otherwise the more exact one, otherwise the earlier one; an exact match that set no
  fields is taken at once;
- a left-to-right union takes the first choice that does not reject the input;
- a tagged union reads a tag off the input and validates the input against the choice with that
  tag.

Validation can be strict. A choice that was given a strictness of its own is validated with it;
any other choice is validated strictly where the union or the validation as a whole is strict.

## Layout

- `src/union.rs`, `src/tagged.rs`: the unions; `src/schema.rs` builds them
- `src/choice_errors.rs`: the errors of the choices, gathered
- `src/field.rs`, `src/model.rs`, `src/scalar.rs`, `src/combined.rs`: validators that can be
  choices
- `src/validator.rs`: what every validator offers, and its view
- `src/value.rs`, `src/state.rs`, `src/errors.rs`, `src/text.rs`: what validators work on
- `src/laws.rs`: what holds of unions as a whole
- `app/`: the Python module

A program can add validators of its own as leaves (the `Validator` trait) and functions that read
tags (the `TagFunction` trait). What is proved of a union holds whatever outcomes they have; what
they say of their outcomes is taken at their word.
