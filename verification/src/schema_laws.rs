//! What schemas say, in terms of their texts and settings.
use crate::schema::{named_mode, SchemaError, TaggedUnionSchema, UnionSchema};
use crate::text::joined;
use crate::union::UnionMode;
use crate::validator::{TagFunction, Validator};
use vstd::prelude::*;

verus! {

/// A mode is smart by the name `smart` and from left to right by the name `left_to_right`; no
/// other name is that of a mode.
pub proof fn law_names_of_modes(name: Seq<char>)
    ensures
        name == "smart"@ ==> named_mode(name) == Some(UnionMode::Smart),
        name == "left_to_right"@ ==> named_mode(name) == Some(UnionMode::LeftToRight),
        name != "smart"@ && name != "left_to_right"@ ==> named_mode(name) is None,
{
    reveal_strlit("smart");
    reveal_strlit("left_to_right");
    assert("smart"@.len() != "left_to_right"@.len());
}

/// The mode of a union is smart where the schema names none, whatever else the schema says, and
/// the one that it names where it names one. A union of one choice is that choice, unless the
/// schema says that it is not to be.
pub proof fn law_union_schema<L: Validator, F: TagFunction>(schema: UnionSchema<L, F>, i: int)
    ensures
        schema.mode is None ==> schema.spec_mode() == Some(UnionMode::Smart),
        schema.mode matches Some(name) ==> {
            &&& name@ == "smart"@ ==> schema.spec_mode() == Some(UnionMode::Smart)
            &&& name@ == "left_to_right"@ ==> schema.spec_mode() == Some(UnionMode::LeftToRight)
            &&& name@ != "smart"@ && name@ != "left_to_right"@ ==> schema.spec_mode() is None
        },
        schema.choices@.len() != 1 ==> !schema.collapses(),
        schema.choices@.len() == 1 && schema.auto_collapse is None ==> schema.collapses(),
        schema.choices@.len() == 1 && schema.auto_collapse is Some ==> schema.collapses()
            == schema.auto_collapse->0,
        schema.choice_names().len() == schema.choices@.len(),
        0 <= i < schema.choices@.len() ==> match schema.choices@[i].1 {
            Some(label) => schema.choice_names()[i] == label@,
            None => schema.choice_names()[i] == schema.choices@[i].0@.name,
        },
        schema.union_name() == "union["@ + joined(schema.choice_names(), ","@) + "]"@,
{
    if let Some(name) = schema.mode {
        law_names_of_modes(name@);
    }
}

/// Attributes may be read as the schema of a tagged union says, or else as the configuration
/// says, or else they may. The union is called by the names of its choices' validators, and the
/// texts of the tags are those that the host shows.
pub proof fn law_tagged_union_schema<L: Validator, F: TagFunction>(
    schema: TaggedUnionSchema<L, F>,
    i: int,
)
    ensures
        schema.from_attributes is Some ==> schema.spec_from_attributes()
            == schema.from_attributes->0,
        schema.from_attributes is None && schema.config_from_attributes is Some
            ==> schema.spec_from_attributes() == schema.config_from_attributes->0,
        schema.from_attributes is None && schema.config_from_attributes is None
            ==> schema.spec_from_attributes(),
        schema.choice_names().len() == schema.choices@.len(),
        schema.tag_texts().len() == schema.choices@.len(),
        0 <= i < schema.choices@.len() ==> schema.choice_names()[i]
            == schema.choices@[i].validator@.name,
        0 <= i < schema.choices@.len() ==> schema.tag_texts()[i] == schema.choices@[i].tag_repr@,
        schema.union_name() == "tagged-union["@ + joined(schema.choice_names(), ","@) + "]"@,
{
}

/// The message about an unknown mode names the mode, and those that there are; other messages do
/// not depend on anything but the error.
pub proof fn law_messages(error: SchemaError)
    ensures
        error matches SchemaError::InvalidUnionMode(mode) ==> error.spec_message()
            == "Invalid union mode: `"@ + mode@ + "`, expected `smart` or `left_to_right`"@,
        error is NoChoices ==> error.spec_message() == "One or more union choices required"@,
        error matches SchemaError::Other(message) ==> error.spec_message() == message@,
{
}

} // verus!
