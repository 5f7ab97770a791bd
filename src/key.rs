//! Key conditions for queries.
use vstd::prelude::*;

use crate::condition::{
    equal, greater_than, greater_than_or_equal, less_than, less_than_or_equal, Between, Comparator,
    Comparison, Condition,
};
use crate::operand::Operand;
use crate::path::Path;
use crate::value::{ValueModel, ValueOrRef};

verus! {

/// The key attribute that a key condition is about.
#[derive(Debug, PartialEq, Eq)]
pub struct Key {
    pub path: Path,
}

/// A condition on the key attributes of a query.
#[derive(Debug, PartialEq, Eq)]
pub struct KeyCondition {
    pub condition: Condition,
}

/// The key at `path`.
pub fn key(path: Path) -> (r: Key)
    ensures
        r.path == path,
{
    Key { path }
}

impl Key {
    /// The key at `path`.
    pub fn from_path(path: Path) -> (r: Key)
        ensures
            r.path == path,
    {
        Key { path }
    }

    /// True if the key starts with `prefix`.
    pub fn begins_with(self, prefix: &str) -> (r: KeyCondition)
        ensures
            r.condition matches Condition::BeginsWith(b) && b.path == self.path && (b.prefix matches ValueOrRef::Value(
                v,
            ) && v@ == ValueModel::Str(prefix@)),
    {
        KeyCondition { condition: self.path.begins_with(prefix) }
    }

    /// True if the key lies between `lower` and `upper`.
    pub fn between(self, lower: Operand, upper: Operand) -> (r: KeyCondition)
        ensures
            r.condition == Condition::Between(Between { op: Operand::Path(self.path), lower, upper }),
    {
        KeyCondition { condition: self.path.between(lower, upper) }
    }

    /// The key equals `right`.
    pub fn equal(self, right: Operand) -> (r: KeyCondition)
        ensures
            r.condition == Condition::Comparison(Comparison { left: Operand::Path(self.path), cmp: Comparator::Eq, right }),
    {
        KeyCondition { condition: Condition::Comparison(equal(Operand::Path(self.path), right)) }
    }

    /// The key is greater than `right`.
    pub fn greater_than(self, right: Operand) -> (r: KeyCondition)
        ensures
            r.condition == Condition::Comparison(Comparison { left: Operand::Path(self.path), cmp: Comparator::Gt, right }),
    {
        KeyCondition { condition: Condition::Comparison(greater_than(Operand::Path(self.path), right)) }
    }

    /// The key is greater than or equal to `right`.
    pub fn greater_than_or_equal(self, right: Operand) -> (r: KeyCondition)
        ensures
            r.condition == Condition::Comparison(Comparison { left: Operand::Path(self.path), cmp: Comparator::Ge, right }),
    {
        KeyCondition {
            condition: Condition::Comparison(greater_than_or_equal(Operand::Path(self.path), right)),
        }
    }

    /// The key is less than `right`.
    pub fn less_than(self, right: Operand) -> (r: KeyCondition)
        ensures
            r.condition == Condition::Comparison(Comparison { left: Operand::Path(self.path), cmp: Comparator::Lt, right }),
    {
        KeyCondition { condition: Condition::Comparison(less_than(Operand::Path(self.path), right)) }
    }

    /// The key is less than or equal to `right`.
    pub fn less_than_or_equal(self, right: Operand) -> (r: KeyCondition)
        ensures
            r.condition == Condition::Comparison(Comparison { left: Operand::Path(self.path), cmp: Comparator::Le, right }),
    {
        KeyCondition { condition: Condition::Comparison(less_than_or_equal(Operand::Path(self.path), right)) }
    }
}

impl KeyCondition {
    /// Both key conditions.
    pub fn and(self, right: KeyCondition) -> (r: KeyCondition)
        ensures
            r.condition == Condition::And(Box::new(self.condition), Box::new(right.condition)),
    {
        KeyCondition { condition: self.condition.and(right.condition) }
    }
}

} // verus!
