//! The values that validators read and return.
use std::sync::Arc;

use crate::text::{decimal_int, int_text};
use vstd::prelude::*;

verus! {

/// A value as the host program handed it over, or as a validator made it.
///
/// The host keeps values of types that no validator here looks into; such a value is
/// `Opaque`, with the number under which the host finds it again. A container carries the
/// text that the host prints for it.
#[derive(Debug, PartialEq, Eq)]
pub enum Value {
    Null,
    Bool(bool),
    Int(i64),
    /// A string.
    Str(String),
    /// Text of a value whose type is not known, as in a query string, a form or an environment
    /// variable: reading it as a value of any type, a string included, is a conversion.
    Text(String),
    List { items: Vec<Arc<Value>>, text: String },
    /// A dictionary.
    Dict { fields: Vec<(String, Arc<Value>)>, text: String },
    /// A mapping of another type than a dictionary.
    Mapping { fields: Vec<(String, Arc<Value>)>, text: String },
    /// An object with attributes.
    Object { attributes: Vec<(String, Arc<Value>)>, text: String },
    Opaque { id: u64, text: String },
    /// What stands for an attribute whose reading raised an exception, which the host keeps
    /// under this number.
    Raised(u64),
}

/// Named parts of a value, in order.
pub type Fields = Vec<(String, Arc<Value>)>;

/// The value that a handle holds.
pub open spec fn held(handle: &Arc<Value>) -> Value {
    **handle
}

/// Another handle on the same value. This is `Arc::clone`, which makes a second pointer to
/// the value that the first points to; a handle is its value here, so the two are equal.
#[verifier::external_body]
pub(crate) fn share(value: &Arc<Value>) -> (r: Arc<Value>)
    ensures
        r == *value,
{
    Arc::clone(value)
}

impl Value {
    /// The text that the host prints for the value.
    pub open spec fn spec_text(self) -> Seq<char> {
        match self {
            Value::Null => "None"@,
            Value::Bool(b) => if b {
                "True"@
            } else {
                "False"@
            },
            Value::Int(i) => decimal_int(i as int),
            Value::Str(s) => s@,
            Value::Text(s) => s@,
            Value::List { items, text } => text@,
            Value::Dict { fields, text } => text@,
            Value::Mapping { fields, text } => text@,
            Value::Object { attributes, text } => text@,
            Value::Opaque { id, text } => text@,
            Value::Raised(_) => Seq::empty(),
        }
    }

    /// The text that the host prints for the value.
    pub fn text(&self) -> (r: String)
        ensures
            r@ == self.spec_text(),
    {
        match self {
            Value::Null => "None".to_owned(),
            Value::Bool(b) => if *b {
                "True".to_owned()
            } else {
                "False".to_owned()
            },
            Value::Int(i) => int_text(*i),
            Value::Str(s) => s.clone(),
            Value::Text(s) => s.clone(),
            Value::List { items, text } => text.clone(),
            Value::Dict { fields, text } => text.clone(),
            Value::Mapping { fields, text } => text.clone(),
            Value::Object { attributes, text } => text.clone(),
            Value::Opaque { id, text } => text.clone(),
            Value::Raised(_) => String::new(),
        }
    }

    /// The named parts of the value that a model or a discriminator may read: those of a
    /// dictionary always, of another mapping only where validation is not strict, of an object
    /// only where reading attributes is allowed.
    pub open spec fn spec_model_fields(self, strict: bool, from_attributes: bool) -> Option<Fields> {
        match self {
            Value::Dict { fields, text } => Some(fields),
            Value::Mapping { fields, text } => if strict {
                None
            } else {
                Some(fields)
            },
            Value::Object { attributes, text } => if from_attributes {
                Some(attributes)
            } else {
                None
            },
            _ => None,
        }
    }

    /// The named parts of the value that a model or a discriminator may read.
    pub fn model_fields(&self, strict: bool, from_attributes: bool) -> (r: Option<&Fields>)
        ensures
            match r {
                Some(fields) => self.spec_model_fields(strict, from_attributes) == Some(*fields),
                None => self.spec_model_fields(strict, from_attributes) is None,
            },
    {
        match self {
            Value::Dict { fields, text } => Some(fields),
            Value::Mapping { fields, text } => if strict {
                None
            } else {
                Some(fields)
            },
            Value::Object { attributes, text } => if from_attributes {
                Some(attributes)
            } else {
                None
            },
            _ => None,
        }
    }

    /// One step down into the value: by name into a dictionary, a mapping or, where reading
    /// attributes is allowed, an object; by position into a list.
    pub open spec fn spec_step(self, item: PathItem, from_attributes: bool) -> Option<Value> {
        match item {
            PathItem::Key(name) => match self.spec_model_fields(false, from_attributes) {
                Some(fields) => spec_field(fields@, name@),
                None => None,
            },
            PathItem::Index(at) => match self {
                Value::List { items, text } => if at < items@.len() {
                    Some(*items@[at as int])
                } else {
                    None
                },
                _ => None,
            },
        }
    }

    /// One step down into the value.
    pub fn step(&self, item: &PathItem, from_attributes: bool) -> (r: Option<&Arc<Value>>)
        ensures
            match r {
                Some(v) => self.spec_step(*item, from_attributes) == Some(**v),
                None => self.spec_step(*item, from_attributes) is None,
            },
    {
        match item {
            PathItem::Key(name) => match self.model_fields(false, from_attributes) {
                Some(fields) => field(fields, name),
                None => None,
            },
            PathItem::Index(at) => match self {
                Value::List { items, text } => if *at < items.len() {
                    Some(&items[*at])
                } else {
                    None
                },
                _ => None,
            },
        }
    }
}

/// The position of the first part with a name.
pub open spec fn spec_field_index(fields: Seq<(String, Arc<Value>)>, name: Seq<char>) -> Option<int>
    decreases fields.len(),
{
    if fields.len() == 0 {
        None
    } else {
        match spec_field_index(fields.drop_last(), name) {
            Some(i) => Some(i),
            None => if fields.last().0@ == name {
                Some(fields.len() - 1)
            } else {
                None
            },
        }
    }
}

/// The first part with a name.
pub open spec fn spec_field(fields: Seq<(String, Arc<Value>)>, name: Seq<char>) -> Option<Value> {
    match spec_field_index(fields, name) {
        Some(i) => Some(*fields[i].1),
        None => None,
    }
}

/// A found position is in range, holds the name, and no earlier one does; where none is
/// found, no part has the name.
pub proof fn lemma_field_index(fields: Seq<(String, Arc<Value>)>, name: Seq<char>)
    ensures
        match spec_field_index(fields, name) {
            Some(i) => 0 <= i < fields.len() && fields[i].0@ == name && forall|j: int|
                0 <= j < i ==> (#[trigger] fields[j]).0@ != name,
            None => forall|j: int| 0 <= j < fields.len() ==> (#[trigger] fields[j]).0@ != name,
        },
    decreases fields.len(),
{
    if fields.len() > 0 {
        let init = fields.drop_last();
        lemma_field_index(init, name);
        match spec_field_index(init, name) {
            Some(i) => {
                assert forall|j: int| 0 <= j < i implies (#[trigger] fields[j]).0@ != name by {
                    assert(init[j] == fields[j]);
                }
            },
            None => {
                assert forall|j: int| 0 <= j < fields.len() - 1 implies (
                #[trigger] fields[j]).0@ != name by {
                    assert(init[j] == fields[j]);
                }
            },
        }
    }
}

/// The first part with a name.
pub fn field<'a>(fields: &'a Fields, name: &String) -> (r: Option<&'a Arc<Value>>)
    ensures
        match r {
            Some(v) => spec_field(fields@, name@) == Some(**v),
            None => spec_field(fields@, name@) is None,
        },
{
    let mut i: usize = 0;
    while i < fields.len()
        invariant
            0 <= i <= fields.len(),
            forall|j: int| 0 <= j < i ==> (#[trigger] fields@[j]).0@ != name@,
        decreases fields.len() - i,
    {
        if fields[i].0 == *name {
            proof {
                lemma_field_index(fields@, name@);
            }
            return Some(&fields[i].1);
        }
        i += 1;
    }
    proof {
        lemma_field_index(fields@, name@);
    }
    None
}

/// One step of a path into a value.
#[derive(Debug, PartialEq, Eq)]
pub enum PathItem {
    Key(String),
    Index(usize),
}

/// Where a discriminator is found: paths that are tried in order, each of which starts with
/// the name of a part of the input.
#[derive(Debug, PartialEq, Eq)]
pub struct LookupKey {
    pub paths: Vec<Vec<PathItem>>,
}

/// What lies at the end of a path below a value. The way ends early where reading an attribute
/// raised an exception.
pub open spec fn spec_follow(
    value: Value,
    path: Seq<PathItem>,
    from_attributes: bool,
) -> Option<Value>
    decreases path.len(),
{
    if path.len() == 0 || value is Raised {
        Some(value)
    } else {
        match value.spec_step(path[0], from_attributes) {
            Some(next) => spec_follow(next, path.drop_first(), from_attributes),
            None => None,
        }
    }
}

/// What a path leads to from the parts of an input.
pub open spec fn spec_path_item(
    fields: Seq<(String, Arc<Value>)>,
    path: Seq<PathItem>,
    from_attributes: bool,
) -> Option<Value> {
    if path.len() == 0 {
        None
    } else {
        match path[0] {
            PathItem::Key(name) => match spec_field(fields, name@) {
                Some(value) => spec_follow(value, path.drop_first(), from_attributes),
                None => None,
            },
            PathItem::Index(_) => None,
        }
    }
}

/// What the first path that leads anywhere leads to, from the path at `at` on.
pub open spec fn spec_get_item_from(
    fields: Seq<(String, Arc<Value>)>,
    paths: Seq<Vec<PathItem>>,
    at: int,
    from_attributes: bool,
) -> Option<Value>
    decreases paths.len() - at,
{
    if at < 0 || at >= paths.len() {
        None
    } else {
        match spec_path_item(fields, paths[at]@, from_attributes) {
            Some(value) => Some(value),
            None => spec_get_item_from(fields, paths, at + 1, from_attributes),
        }
    }
}

fn path_item<'a>(fields: &'a Fields, path: &Vec<PathItem>, from_attributes: bool) -> (r: Option<
    &'a Arc<Value>,
>)
    ensures
        match r {
            Some(v) => spec_path_item(fields@, path@, from_attributes) == Some(**v),
            None => spec_path_item(fields@, path@, from_attributes) is None,
        },
{
    if path.len() == 0 {
        return None;
    }
    let mut current: &Arc<Value> = match &path[0] {
        PathItem::Key(name) => match field(fields, name) {
            Some(value) => value,
            None => {
                return None;
            },
        },
        PathItem::Index(_) => {
            return None;
        },
    };
    let mut i: usize = 1;
    assert(path@.skip(1) =~= path@.drop_first());
    while i < path.len()
        invariant
            1 <= i <= path.len(),
            spec_path_item(fields@, path@, from_attributes) == spec_follow(
                **current,
                path@.skip(i as int),
                from_attributes,
            ),
        decreases path.len() - i,
    {
        if let Value::Raised(_) = &**current {
            return Some(current);
        }
        assert(path@.skip(i as int)[0] == path@[i as int]);
        assert(path@.skip(i as int).drop_first() =~= path@.skip(i + 1));
        match current.step(&path[i], from_attributes) {
            Some(next) => {
                current = next;
            },
            None => {
                return None;
            },
        }
        i += 1;
    }
    assert(path@.skip(i as int).len() == 0);
    Some(current)
}

impl LookupKey {
    /// What the first path that leads anywhere leads to.
    pub open spec fn spec_get_item(
        self,
        fields: Seq<(String, Arc<Value>)>,
        from_attributes: bool,
    ) -> Option<Value> {
        spec_get_item_from(fields, self.paths@, 0, from_attributes)
    }

    /// What the first path that leads anywhere leads to.
    pub fn get_item<'a>(&self, fields: &'a Fields, from_attributes: bool) -> (r: Option<
        &'a Arc<Value>,
    >)
        ensures
            match r {
                Some(v) => self.spec_get_item(fields@, from_attributes) == Some(**v),
                None => self.spec_get_item(fields@, from_attributes) is None,
            },
    {
        let mut i: usize = 0;
        while i < self.paths.len()
            invariant
                0 <= i <= self.paths.len(),
                self.spec_get_item(fields@, from_attributes) == spec_get_item_from(
                    fields@,
                    self.paths@,
                    i as int,
                    from_attributes,
                ),
            decreases self.paths.len() - i,
        {
            match path_item(fields, &self.paths[i], from_attributes) {
                Some(value) => {
                    return Some(value);
                },
                None => {},
            }
            i += 1;
        }
        None
    }
}

} // verus!
