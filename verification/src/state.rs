//! What a validation carries along.
use vstd::prelude::*;

verus! {

/// How closely a validated input had the type that was asked for.
#[derive(Clone, Copy, Debug, PartialEq, Eq, Structural)]
pub enum Exactness {
    /// The input was converted.
    Lax,
    /// The input was of the type, in the sense of strict validation.
    Strict,
    /// The input was of exactly the type.
    Exact,
}

impl Exactness {
    /// The position in the order from the loosest to the closest match.
    pub open spec fn rank(self) -> int {
        match self {
            Exactness::Lax => 0,
            Exactness::Strict => 1,
            Exactness::Exact => 2,
        }
    }

    /// Whether this match is looser than the other.
    pub fn is_looser_than(self, other: Exactness) -> (r: bool)
        ensures
            r == (self.rank() < other.rank()),
            r == (other is Exact && self !is Exact || other is Strict && self is Lax),
    {
        match (self, other) {
            (Exactness::Lax, Exactness::Lax) => false,
            (Exactness::Lax, _) => true,
            (Exactness::Strict, Exactness::Exact) => true,
            _ => false,
        }
    }
}

/// Settings of a validation that stay the same throughout.
#[derive(Clone, Copy, Debug, PartialEq, Eq)]
pub struct Extra {
    /// Whether the attributes of an object may be read as its fields, where the validation
    /// says so.
    pub from_attributes: Option<bool>,
}

/// The state of a validation. It is handed down to each validator and carries back how the
/// input matched.
#[derive(Clone, Copy, Debug, PartialEq, Eq)]
pub struct ValidationState {
    /// The loosest match so far, where one is being kept.
    pub exactness: Option<Exactness>,
    /// How many fields of models were set so far, where a model was met.
    pub fields_set_count: Option<usize>,
    /// Whether validation is strict.
    pub strict: bool,
    pub extra: Extra,
}

/// The looser of a match that is being kept and another.
pub open spec fn floored(kept: Option<Exactness>, other: Exactness) -> Option<Exactness> {
    match kept {
        Some(e) => if other.rank() < e.rank() {
            Some(other)
        } else {
            Some(e)
        },
        None => None,
    }
}

/// A count of set fields with more of them, where it stays at the largest `usize` once it
/// would go beyond.
pub open spec fn with_fields(kept: Option<usize>, more: usize) -> Option<usize> {
    let before: int = match kept {
        Some(n) => n as int,
        None => 0,
    };
    if before + more > usize::MAX {
        Some(usize::MAX)
    } else {
        Some((before + more) as usize)
    }
}

impl ValidationState {
    /// The state at the start of a validation.
    pub fn new(strict: bool) -> (r: Self)
        ensures
            r.exactness is None,
            r.fields_set_count is None,
            r.strict == strict,
            r.extra.from_attributes is None,
    {
        ValidationState {
            exactness: None,
            fields_set_count: None,
            strict,
            extra: Extra { from_attributes: None },
        }
    }

    /// The settings of the validation.
    pub fn extra(&self) -> (r: &Extra)
        ensures
            *r == self.extra,
    {
        &self.extra
    }

    /// Whether a validator with a strictness of its own validates strictly.
    pub fn strict_or(&self, own: bool) -> (r: bool)
        ensures
            r == (self.strict || own),
    {
        self.strict || own
    }

    /// Records a match. The state keeps the loosest, where it keeps one.
    pub fn floor_exactness(&mut self, exactness: Exactness)
        ensures
            *final(self) == (ValidationState {
                exactness: floored(old(self).exactness, exactness),
                ..*old(self)
            }),
            old(self).exactness is None ==> final(self).exactness is None,
            old(self).exactness is Some && (exactness is Lax || exactness is Strict
                && old(self).exactness->0 is Exact) ==> final(self).exactness == Some(exactness),
            exactness is Exact ==> final(self).exactness == old(self).exactness,
    {
        match self.exactness {
            Some(kept) => if exactness.is_looser_than(kept) {
                self.exactness = Some(exactness);
            },
            None => {},
        }
    }

    /// Adds to the count of set fields.
    pub fn add_fields_set(&mut self, fields_set_count: usize)
        ensures
            *final(self) == (ValidationState {
                fields_set_count: with_fields(old(self).fields_set_count, fields_set_count),
                ..*old(self)
            }),
            final(self).fields_set_count is Some,
            final(self).fields_set_count->0 == usize::MAX || final(self).fields_set_count->0
                == fields_set_count + match old(self).fields_set_count {
                Some(n) => n as int,
                None => 0,
            },
    {
        let before: usize = match self.fields_set_count {
            Some(n) => n,
            None => 0,
        };
        self.fields_set_count = Some(before.saturating_add(fields_set_count));
    }
}

} // verus!
