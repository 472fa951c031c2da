//! Directional auto-tile rules and the subset relation used to match them.
use vstd::prelude::*;

verus! {

/// The rule of an auto tile, one tri-state flag per compass direction.
///
/// * `Some(true)`: a neighbor of the same group must be there
/// * `Some(false)`: a neighbor of the same group must not be there
/// * `None`: the direction is ignored
#[derive(Debug, Clone, Copy, PartialEq, Eq, Structural, Hash)]
pub struct AutoTileRule {
    pub north: Option<bool>,
    pub east: Option<bool>,
    pub south: Option<bool>,
    pub west: Option<bool>,
    pub north_east: Option<bool>,
    pub north_west: Option<bool>,
    pub south_east: Option<bool>,
    pub south_west: Option<bool>,
}

/// Whether one direction of a candidate rule is satisfied by the same direction
/// of another rule: unset is a wildcard, `Some(true)` needs `Some(true)`, and
/// `Some(false)` is met by `Some(false)` or by no evidence at all.
pub open spec fn flag_satisfied(lhs: Option<bool>, rhs: Option<bool>) -> bool {
    match lhs {
        None => true,
        Some(l) => match rhs {
            Some(r) => l == r,
            None => !l,
        },
    }
}

/// A rule with every direction set to the same value (or unset).
pub open spec fn uniform_rule(v: Option<bool>) -> AutoTileRule {
    AutoTileRule {
        north: v,
        east: v,
        south: v,
        west: v,
        north_east: v,
        north_west: v,
        south_east: v,
        south_west: v,
    }
}

impl AutoTileRule {
    /// `self ⊆ other`: every direction of `self` is satisfied by `other`.
    pub open spec fn subset_of(self, other: AutoTileRule) -> bool {
        &&& flag_satisfied(self.north, other.north)
        &&& flag_satisfied(self.south, other.south)
        &&& flag_satisfied(self.east, other.east)
        &&& flag_satisfied(self.west, other.west)
        &&& flag_satisfied(self.north_east, other.north_east)
        &&& flag_satisfied(self.north_west, other.north_west)
        &&& flag_satisfied(self.south_east, other.south_east)
        &&& flag_satisfied(self.south_west, other.south_west)
    }

    /// Checks whether this rule is a subset of `other`.
    ///
    /// The relation is not symmetric: a rule that is unset everywhere is a
    /// subset of every rule, while a rule that requires a neighbor is never
    /// satisfied by a rule that has no evidence of one.
    pub fn is_subset_of(&self, other: &AutoTileRule) -> (r: bool)
        ensures
            r == self.subset_of(*other),
    {
        Self::check_bool(self.north, other.north) && Self::check_bool(self.south, other.south)
            && Self::check_bool(self.east, other.east) && Self::check_bool(self.west, other.west)
            && Self::check_bool(self.north_east, other.north_east) && Self::check_bool(
            self.north_west,
            other.north_west,
        ) && Self::check_bool(self.south_east, other.south_east) && Self::check_bool(
            self.south_west,
            other.south_west,
        )
    }

    /// Returns a rule where every direction is `Some(false)`.
    pub fn default_false() -> (r: Self)
        ensures
            r == uniform_rule(Some(false)),
    {
        Self {
            north: Some(false),
            east: Some(false),
            south: Some(false),
            west: Some(false),
            north_east: Some(false),
            north_west: Some(false),
            south_east: Some(false),
            south_west: Some(false),
        }
    }

    /// Returns a rule where every direction is `Some(true)`.
    pub fn default_true() -> (r: Self)
        ensures
            r == uniform_rule(Some(true)),
    {
        Self {
            north: Some(true),
            east: Some(true),
            south: Some(true),
            west: Some(true),
            north_east: Some(true),
            north_west: Some(true),
            south_east: Some(true),
            south_west: Some(true),
        }
    }

    /// Checks one direction of the subset relation.
    pub fn check_bool(lhs: Option<bool>, rhs: Option<bool>) -> (r: bool)
        ensures
            r == flag_satisfied(lhs, rhs),
    {
        match lhs {
            Some(l_val) => match rhs {
                Some(r_val) => l_val == r_val,
                None => !l_val,
            },
            None => true,
        }
    }
}

impl Default for AutoTileRule {
    /// The rule that ignores every direction.
    fn default() -> (r: Self)
        ensures
            r == uniform_rule(None),
    {
        Self {
            north: None,
            east: None,
            south: None,
            west: None,
            north_east: None,
            north_west: None,
            south_east: None,
            south_west: None,
        }
    }
}

/// The rule that ignores every direction is a subset of every rule.
pub proof fn lemma_default_rule_is_universal(x: AutoTileRule)
    ensures
        uniform_rule(None).subset_of(x),
{
}

} // verus!
