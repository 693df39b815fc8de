//! Column constraints: a set drawn from not-null, unique and primary-key.

use vstd::prelude::*;

verus! {

/// One kind of constraint that a column can carry.
#[derive(Clone, Copy, Debug, PartialEq, Eq, Hash, Structural)]
pub enum ConstraintKind {
    NotNull,
    Unique,
    PrimaryKey,
}

/// The set of constraints on a column. Each kind is in the set or not,
/// independently of the others; what a set demands of a record is given by
/// [`ColumnConstraint::requires_value`] and [`ColumnConstraint::requires_distinct`],
/// under which a primary key counts as both not-null and unique.
#[derive(Clone, Copy, Debug, PartialEq, Eq, Hash, Structural)]
pub struct ColumnConstraint {
    pub not_null: bool,
    pub unique: bool,
    pub primary_key: bool,
}

impl View for ColumnConstraint {
    type V = Set<ConstraintKind>;

    open spec fn view(&self) -> Set<ConstraintKind> {
        Set::new(|kind: ConstraintKind| self.has(kind))
    }
}

impl ColumnConstraint {
    /// Whether the given kind is in the set.
    pub open spec fn has(self, kind: ConstraintKind) -> bool {
        match kind {
            ConstraintKind::NotNull => self.not_null,
            ConstraintKind::Unique => self.unique,
            ConstraintKind::PrimaryKey => self.primary_key,
        }
    }

    /// Whether a record must carry a value for the column.
    pub open spec fn requires_value(self) -> bool {
        self.not_null || self.primary_key
    }

    /// Whether no two records may carry the same value for the column.
    pub open spec fn requires_distinct(self) -> bool {
        self.unique || self.primary_key
    }

    /// The set with no constraint.
    pub fn empty() -> (r: ColumnConstraint)
        ensures
            r == (ColumnConstraint { not_null: false, unique: false, primary_key: false }),
            r@ == Set::<ConstraintKind>::empty(),
    {
        let r = ColumnConstraint { not_null: false, unique: false, primary_key: false };
        assert(r@ =~= Set::<ConstraintKind>::empty());
        r
    }

    /// The set that holds the given kind and nothing else.
    pub fn only(kind: ConstraintKind) -> (r: ColumnConstraint)
        ensures
            r@ == set![kind],
            forall|other: ConstraintKind| r.has(other) == (other == kind),
    {
        let r = match kind {
            ConstraintKind::NotNull => ColumnConstraint {
                not_null: true,
                unique: false,
                primary_key: false,
            },
            ConstraintKind::Unique => ColumnConstraint {
                not_null: false,
                unique: true,
                primary_key: false,
            },
            ConstraintKind::PrimaryKey => ColumnConstraint {
                not_null: false,
                unique: false,
                primary_key: true,
            },
        };
        assert(r@ =~= set![kind]);
        r
    }

    /// The set `{NotNull}`.
    pub fn not_null() -> (r: ColumnConstraint)
        ensures
            r == (ColumnConstraint { not_null: true, unique: false, primary_key: false }),
    {
        ColumnConstraint { not_null: true, unique: false, primary_key: false }
    }

    /// The set `{Unique}`.
    pub fn unique() -> (r: ColumnConstraint)
        ensures
            r == (ColumnConstraint { not_null: false, unique: true, primary_key: false }),
    {
        ColumnConstraint { not_null: false, unique: true, primary_key: false }
    }

    /// The set `{PrimaryKey}`.
    pub fn primary_key() -> (r: ColumnConstraint)
        ensures
            r == (ColumnConstraint { not_null: false, unique: false, primary_key: true }),
    {
        ColumnConstraint { not_null: false, unique: false, primary_key: true }
    }

    /// The constraints of either set.
    pub fn union(self, other: ColumnConstraint) -> (r: ColumnConstraint)
        ensures
            r@ == self@.union(other@),
            forall|kind: ConstraintKind| r.has(kind) == (self.has(kind) || other.has(kind)),
    {
        let r = ColumnConstraint {
            not_null: self.not_null || other.not_null,
            unique: self.unique || other.unique,
            primary_key: self.primary_key || other.primary_key,
        };
        assert(r@ =~= self@.union(other@));
        r
    }

    /// Whether every constraint of `other` is also in this set.
    pub fn contains(&self, other: ColumnConstraint) -> (r: bool)
        ensures
            r == other@.subset_of(self@),
    {
        let r = (!other.not_null || self.not_null) && (!other.unique || self.unique) && (
        !other.primary_key || self.primary_key);
        proof {
            if r {
                assert forall|kind: ConstraintKind| other@.contains(kind) implies self@.contains(
                    kind,
                ) by {
                    assert(other.has(kind));
                }
            } else {
                if other.not_null && !self.not_null {
                    assert(other@.contains(ConstraintKind::NotNull));
                    assert(!self@.contains(ConstraintKind::NotNull));
                } else if other.unique && !self.unique {
                    assert(other@.contains(ConstraintKind::Unique));
                    assert(!self@.contains(ConstraintKind::Unique));
                } else {
                    assert(other@.contains(ConstraintKind::PrimaryKey));
                    assert(!self@.contains(ConstraintKind::PrimaryKey));
                }
            }
        }
        r
    }

    /// Whether the set holds no constraint.
    pub fn is_empty(&self) -> (r: bool)
        ensures
            r == (self@ == Set::<ConstraintKind>::empty()),
    {
        let r = !self.not_null && !self.unique && !self.primary_key;
        proof {
            if r {
                assert(self@ =~= Set::<ConstraintKind>::empty());
            } else if self.not_null {
                assert(self@.contains(ConstraintKind::NotNull));
            } else if self.unique {
                assert(self@.contains(ConstraintKind::Unique));
            } else {
                assert(self@.contains(ConstraintKind::PrimaryKey));
            }
        }
        r
    }

    /// Whether a record must carry a value for the column.
    pub fn demands_value(&self) -> (r: bool)
        ensures
            r == self.requires_value(),
    {
        self.not_null || self.primary_key
    }

    /// Whether no two records may carry the same value for the column.
    pub fn demands_distinct(&self) -> (r: bool)
        ensures
            r == self.requires_distinct(),
    {
        self.unique || self.primary_key
    }
}

} // verus!
