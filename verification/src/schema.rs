//! Schemas of unions, and the validators that are built from them.
use crate::combined::CombinedValidator;
use crate::errors::CustomError;
use crate::tagged::{Discriminator, Literal, LiteralLookup, TaggedUnionValidator};
use crate::text::{append_part, joined};
use crate::union::{UnionMode, UnionValidator};
use crate::validator::{TagFunction, Validator};
use vstd::prelude::*;

verus! {

/// Why no validator can be built from a schema.
#[derive(Debug, PartialEq, Eq)]
pub enum SchemaError {
    /// A union has a mode of this unknown name.
    InvalidUnionMode(String),
    /// A union has no choices.
    NoChoices,
    /// Another part of the schema is wrong, as this message says.
    Other(String),
}

impl SchemaError {
    /// The message for the author of the schema.
    pub open spec fn spec_message(self) -> Seq<char> {
        match self {
            SchemaError::InvalidUnionMode(mode) => "Invalid union mode: `"@ + mode@
                + "`, expected `smart` or `left_to_right`"@,
            SchemaError::NoChoices => "One or more union choices required"@,
            SchemaError::Other(message) => message@,
        }
    }

    /// The message for the author of the schema.
    pub fn message(&self) -> (r: String)
        ensures
            r@ == self.spec_message(),
    {
        match self {
            SchemaError::InvalidUnionMode(mode) => {
                let mut out = "Invalid union mode: `".to_owned();
                out.append(mode.as_str());
                out.append("`, expected `smart` or `left_to_right`");
                out
            },
            SchemaError::NoChoices => "One or more union choices required".to_owned(),
            SchemaError::Other(message) => message.clone(),
        }
    }
}

/// The mode of a name.
pub open spec fn named_mode(name: Seq<char>) -> Option<UnionMode> {
    if name == "smart"@ {
        Some(UnionMode::Smart)
    } else if name == "left_to_right"@ {
        Some(UnionMode::LeftToRight)
    } else {
        None
    }
}

impl UnionMode {
    /// The mode of a name.
    pub fn from_str(s: &str) -> (r: Result<UnionMode, SchemaError>)
        ensures
            match r {
                Ok(mode) => named_mode(s@) == Some(mode),
                Err(SchemaError::InvalidUnionMode(name)) => named_mode(s@) is None && name@ == s@,
                Err(_) => false,
            },
            s@ == "smart"@ ==> (r matches Ok(mode) && mode is Smart),
            s@ == "left_to_right"@ ==> (r matches Ok(mode) && mode is LeftToRight),
            s@ != "smart"@ && s@ != "left_to_right"@ ==> r is Err,
    {
        proof {
            reveal_strlit("smart");
            reveal_strlit("left_to_right");
            assert("smart"@.len() != "left_to_right"@.len());
        }
        let name = s.to_owned();
        if name == "smart".to_owned() {
            Ok(UnionMode::Smart)
        } else if name == "left_to_right".to_owned() {
            Ok(UnionMode::LeftToRight)
        } else {
            Err(SchemaError::InvalidUnionMode(name))
        }
    }
}

impl std::str::FromStr for UnionMode {
    type Err = SchemaError;

    fn from_str(s: &str) -> (r: Result<UnionMode, SchemaError>)
        ensures
            match r {
                Ok(mode) => named_mode(s@) == Some(mode),
                Err(SchemaError::InvalidUnionMode(name)) => named_mode(s@) is None && name@ == s@,
                Err(_) => false,
            },
            s@ == "smart"@ ==> (r matches Ok(mode) && mode is Smart),
            s@ == "left_to_right"@ ==> (r matches Ok(mode) && mode is LeftToRight),
            s@ != "smart"@ && s@ != "left_to_right"@ ==> r is Err,
    {
        UnionMode::from_str(s)
    }
}

/// The schema of a union, its choices built already.
#[derive(Debug)]
pub struct UnionSchema<L, F> {
    /// The choices, each with its label, if any.
    pub choices: Vec<(CombinedValidator<L, F>, Option<String>)>,
    /// The name of the mode, if one is given.
    pub mode: Option<String>,
    /// Whether a union of one choice is to be that choice, if the schema says.
    pub auto_collapse: Option<bool>,
    /// Whether the union is strict, if the schema says.
    pub strict: Option<bool>,
    /// What reading the custom error of the schema gave.
    pub custom_error: Result<Option<CustomError>, SchemaError>,
}

/// A choice of a tagged union, its validator built already.
#[derive(Debug)]
pub struct TaggedChoice<L, F> {
    pub tag: Literal,
    /// The text that the host shows for the tag.
    pub tag_repr: String,
    pub validator: CombinedValidator<L, F>,
}

/// The schema of a tagged union, its choices built already.
#[derive(Debug)]
pub struct TaggedUnionSchema<L, F> {
    pub discriminator: Discriminator<F>,
    /// The text that the host shows for the discriminator.
    pub discriminator_repr: String,
    pub choices: Vec<TaggedChoice<L, F>>,
    /// Whether attributes may be read as fields, if the schema says.
    pub from_attributes: Option<bool>,
    /// Whether attributes may be read as fields, if the configuration says.
    pub config_from_attributes: Option<bool>,
    /// What reading the custom error of the schema gave.
    pub custom_error: Result<Option<CustomError>, SchemaError>,
}

impl<L: Validator, F: TagFunction> UnionSchema<L, F> {
    /// The mode of the union: smart, unless another is named; `None` where the name is unknown.
    pub open spec fn spec_mode(self) -> Option<UnionMode> {
        match self.mode {
            Some(name) => named_mode(name@),
            None => Some(UnionMode::Smart),
        }
    }

    /// Whether the union is its one choice.
    pub open spec fn collapses(self) -> bool {
        self.choices@.len() == 1 && self.auto_collapse != Some(false)
    }

    /// What each choice is called: its label, or else the name of its validator.
    pub open spec fn choice_names(self) -> Seq<Seq<char>> {
        Seq::new(
            self.choices@.len(),
            |i: int|
                match self.choices@[i].1 {
                    Some(label) => label@,
                    None => self.choices@[i].0@.name,
                },
        )
    }

    /// The name of the union.
    pub open spec fn union_name(self) -> Seq<char> {
        "union["@ + joined(self.choice_names(), ","@) + "]"@
    }
}

impl<L: Validator, F: TagFunction> TaggedUnionSchema<L, F> {
    /// The names of the choices' validators.
    pub open spec fn choice_names(self) -> Seq<Seq<char>> {
        Seq::new(self.choices@.len(), |i: int| self.choices@[i].validator@.name)
    }

    /// The texts of the choices' tags.
    pub open spec fn tag_texts(self) -> Seq<Seq<char>> {
        Seq::new(self.choices@.len(), |i: int| self.choices@[i].tag_repr@)
    }

    /// The name of the union.
    pub open spec fn union_name(self) -> Seq<char> {
        "tagged-union["@ + joined(self.choice_names(), ","@) + "]"@
    }

    /// Whether attributes may be read as fields: as the schema says, or else as the
    /// configuration says, or else they may.
    pub open spec fn spec_from_attributes(self) -> bool {
        match (self.from_attributes, self.config_from_attributes) {
            (Some(b), _) => b,
            (None, Some(b)) => b,
            (None, None) => true,
        }
    }
}

impl<L: Validator, F: TagFunction> UnionValidator<L, F> {
    /// Builds the validator of a union. A union of one choice is that choice, unless the
    /// schema says otherwise.
    pub fn build(schema: UnionSchema<L, F>) -> (r: Result<CombinedValidator<L, F>, SchemaError>)
        ensures
            match schema.spec_mode() {
                None => r matches Err(SchemaError::InvalidUnionMode(name)) && name@
                    == schema.mode->0@,
                Some(mode) => if schema.choices@.len() == 0 {
                    r == Err::<CombinedValidator<L, F>, SchemaError>(SchemaError::NoChoices)
                } else if schema.collapses() {
                    r == Ok::<CombinedValidator<L, F>, SchemaError>(schema.choices@[0].0)
                } else {
                    match schema.custom_error {
                        Err(error) => r == Err::<CombinedValidator<L, F>, SchemaError>(error),
                        Ok(custom_error) => {
                            &&& r matches Ok(CombinedValidator::Union(union))
                            &&& union.mode == mode
                            &&& union.choices == schema.choices
                            &&& union.custom_error == custom_error
                            &&& union.name@ == schema.union_name()
                            &&& union.strict == (schema.strict == Some(true))
                        },
                    }
                },
            },
            schema.mode matches Some(name) ==> name@ == "smart"@ || name@ == "left_to_right"@ || (
            r matches Err(SchemaError::InvalidUnionMode(unknown)) && unknown@ == name@),
            r is Ok && (schema.choices@.len() > 1 || schema.auto_collapse == Some(false)) ==> {
                &&& r matches Ok(CombinedValidator::Union(union))
                &&& schema.mode is None ==> union.mode is Smart
                &&& schema.mode matches Some(name) ==> {
                    &&& name@ == "smart"@ ==> union.mode is Smart
                    &&& name@ == "left_to_right"@ ==> union.mode is LeftToRight
                }
                &&& schema.strict is None ==> !union.strict
                &&& schema.strict matches Some(strict) ==> union.strict == strict
                &&& union.choices == schema.choices
                &&& schema.custom_error == Ok::<Option<CustomError>, SchemaError>(
                    union.custom_error,
                )
            },
            schema.choices@.len() == 1 && schema.auto_collapse != Some(false) ==> r is Err || r
                == Ok::<CombinedValidator<L, F>, SchemaError>(schema.choices@[0].0),
            schema.choices@.len() == 0 ==> r is Err,
    {
        proof {
            reveal_strlit("smart");
            reveal_strlit("left_to_right");
            assert("smart"@.len() != "left_to_right"@.len());
        }
        let mode = match &schema.mode {
            Some(name) => match UnionMode::from_str(name.as_str()) {
                Ok(mode) => mode,
                Err(error) => {
                    return Err(error);
                },
            },
            None => UnionMode::Smart,
        };
        let strict = schema.strict.unwrap_or(false);
        let auto_collapse = schema.auto_collapse.unwrap_or(true);
        if schema.choices.len() == 0 {
            return Err(SchemaError::NoChoices);
        }
        if schema.choices.len() == 1 && auto_collapse {
            let mut choices = schema.choices;
            return Ok(choices.remove(0).0);
        }
        let ghost names = schema.choice_names();
        let mut descr = String::new();
        let mut i: usize = 0;
        assert(joined(names.take(0), ","@) =~= descr@);
        while i < schema.choices.len()
            invariant
                0 <= i <= schema.choices.len(),
                names == schema.choice_names(),
                descr@ == joined(names.take(i as int), ","@),
            decreases schema.choices.len() - i,
        {
            let part = match &schema.choices[i].1 {
                Some(label) => label.as_str(),
                None => schema.choices[i].0.get_name(),
            };
            assert(names[i as int] == part@);
            append_part(&mut descr, i == 0, ",", part, Ghost(names.take(i as int)));
            assert(names.take(i + 1) =~= names.take(i as int).push(part@));
            i += 1;
        }
        assert(names.take(names.len() as int) =~= names);
        let mut name = "union[".to_owned();
        name.append(descr.as_str());
        name.append("]");
        match schema.custom_error {
            Ok(custom_error) => Ok(
                CombinedValidator::Union(
                    UnionValidator { mode, choices: schema.choices, custom_error, name, strict },
                ),
            ),
            Err(error) => Err(error),
        }
    }
}

impl<L: Validator, F: TagFunction> TaggedUnionValidator<L, F> {
    /// Builds the validator of a tagged union.
    pub fn build(schema: TaggedUnionSchema<L, F>) -> (r: Result<
        CombinedValidator<L, F>,
        SchemaError,
    >)
        ensures
            match schema.custom_error {
                Err(error) => r == Err::<CombinedValidator<L, F>, SchemaError>(error),
                Ok(custom_error) => {
                    &&& r matches Ok(CombinedValidator::TaggedUnion(union))
                    &&& union.discriminator == schema.discriminator
                    &&& union.lookup.entries@.len() == schema.choices@.len()
                    &&& forall|i: int|
                        0 <= i < schema.choices@.len() ==> #[trigger] union.lookup.entries@[i] == (
                            schema.choices@[i].tag,
                            schema.choices@[i].validator,
                        )
                    &&& union.from_attributes == schema.spec_from_attributes()
                    &&& union.custom_error == custom_error
                    &&& union.tags_repr@ == joined(schema.tag_texts(), ", "@)
                    &&& union.discriminator_repr == schema.discriminator_repr
                    &&& union.name@ == schema.union_name()
                    &&& schema.from_attributes matches Some(own) ==> union.from_attributes == own
                    &&& schema.from_attributes is None ==> union.from_attributes
                        == (schema.config_from_attributes != Some(false))
                },
            },
    {
        let ghost all = schema.choices@;
        let ghost names = schema.choice_names();
        let ghost texts = schema.tag_texts();
        let mut tags_repr = String::new();
        let mut descr = String::new();
        let mut entries: Vec<(Literal, CombinedValidator<L, F>)> = Vec::new();
        let mut first = true;
        assert(joined(names.take(0), ","@) =~= descr@);
        assert(joined(texts.take(0), ", "@) =~= tags_repr@);
        for choice in iter: schema.choices.into_iter()
            invariant
                iter.seq() == all,
                all == schema.choices@,
                names == schema.choice_names(),
                texts == schema.tag_texts(),
                first == (iter.index() == 0),
                descr@ == joined(names.take(iter.index()), ","@),
                tags_repr@ == joined(texts.take(iter.index()), ", "@),
                entries@.len() == iter.index(),
                forall|k: int|
                    0 <= k < entries@.len() ==> #[trigger] entries@[k] == (
                        all[k].tag,
                        all[k].validator,
                    ),
        {
            let ghost k = iter.index();
            assert(names.take(k + 1) =~= names.take(k).push(names[k]));
            assert(texts.take(k + 1) =~= texts.take(k).push(texts[k]));
            append_part(
                &mut tags_repr,
                first,
                ", ",
                choice.tag_repr.as_str(),
                Ghost(texts.take(k)),
            );
            append_part(&mut descr, first, ",", choice.validator.get_name(), Ghost(names.take(k)));
            first = false;
            entries.push((choice.tag, choice.validator));
        }
        assert(names.take(names.len() as int) =~= names);
        assert(texts.take(texts.len() as int) =~= texts);
        let from_attributes = match schema.from_attributes {
            Some(b) => b,
            None => schema.config_from_attributes.unwrap_or(true),
        };
        let mut name = "tagged-union[".to_owned();
        name.append(descr.as_str());
        name.append("]");
        match schema.custom_error {
            Ok(custom_error) => Ok(
                CombinedValidator::TaggedUnion(
                    TaggedUnionValidator {
                        discriminator: schema.discriminator,
                        lookup: LiteralLookup { entries },
                        from_attributes,
                        custom_error,
                        tags_repr,
                        discriminator_repr: schema.discriminator_repr,
                        name,
                    },
                ),
            ),
            Err(error) => Err(error),
        }
    }
}

} // verus!
