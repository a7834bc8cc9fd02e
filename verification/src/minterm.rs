//! The three-valued row algebra: a truth value with an explicit
//! "don't care" state, and pointwise-lifted vector operations over it,
//! the substrate for representing partially specified truth-table rows.

use vstd::prelude::*;

verus! {

/// A three-valued truth value: a known boolean, or an unconstrained
/// "don't care" position.
#[derive(Debug, Clone, Copy, PartialEq, Eq, Structural)]
pub enum TruthValue {
    DontCare,
    True,
    False,
}

impl TruthValue {
    /// Three-valued conjunction: `False` dominates, then `True` is the
    /// identity, and every remaining combination is `DontCare`.
    pub open spec fn and_spec(self, rhs: TruthValue) -> TruthValue {
        if self is False || rhs is False {
            TruthValue::False
        } else if self is True {
            rhs
        } else if rhs is True {
            self
        } else {
            TruthValue::DontCare
        }
    }

    /// Three-valued disjunction: `True` dominates, then `False` is the
    /// identity, and every remaining combination is `DontCare`.
    pub open spec fn or_spec(self, rhs: TruthValue) -> TruthValue {
        if self is True || rhs is True {
            TruthValue::True
        } else if self is False {
            rhs
        } else if rhs is False {
            self
        } else {
            TruthValue::DontCare
        }
    }

    /// Three-valued negation: swaps `True` and `False`; `DontCare` is a
    /// fixed point.
    pub open spec fn negate_spec(self) -> TruthValue {
        match self {
            TruthValue::True => TruthValue::False,
            TruthValue::False => TruthValue::True,
            TruthValue::DontCare => TruthValue::DontCare,
        }
    }

    /// Three-valued implication: a `False` antecedent or a `True`
    /// consequent forces `True`, a `True` antecedent passes the consequent
    /// through, and every remaining combination is `DontCare`.
    pub open spec fn implication_spec(self, rhs: TruthValue) -> TruthValue {
        if self is False || rhs is True {
            TruthValue::True
        } else if self is True {
            rhs
        } else {
            TruthValue::DontCare
        }
    }

    /// Conjunction of two truth values.
    pub fn and(self, rhs: TruthValue) -> (r: TruthValue)
        ensures
            r == self.and_spec(rhs),
    {
        match (self, rhs) {
            (TruthValue::False, _) | (_, TruthValue::False) => TruthValue::False,
            (TruthValue::True, other) | (other, TruthValue::True) => other,
            (_, _) => TruthValue::DontCare,
        }
    }

    /// Disjunction of two truth values.
    pub fn or(self, rhs: TruthValue) -> (r: TruthValue)
        ensures
            r == self.or_spec(rhs),
    {
        match (self, rhs) {
            (TruthValue::True, _) | (_, TruthValue::True) => TruthValue::True,
            (TruthValue::False, other) | (other, TruthValue::False) => other,
            (_, _) => TruthValue::DontCare,
        }
    }

    /// Negation of a truth value.
    pub fn negate(self) -> (r: TruthValue)
        ensures
            r == self.negate_spec(),
    {
        match self {
            TruthValue::True => TruthValue::False,
            TruthValue::False => TruthValue::True,
            TruthValue::DontCare => TruthValue::DontCare,
        }
    }

    /// Implication between two truth values.
    pub fn implication(self, rhs: TruthValue) -> (r: TruthValue)
        ensures
            r == self.implication_spec(rhs),
    {
        match (self, rhs) {
            (TruthValue::False, _) | (_, TruthValue::True) => TruthValue::True,
            (TruthValue::True, other) => other,
            (_, _) => TruthValue::DontCare,
        }
    }

    /// Collapses the truth value to a boolean; an unconstrained position
    /// counts as satisfiable, so `DontCare` maps to `true`.
    pub fn to_bool(self) -> (r: bool)
        ensures
            r == (self is DontCare || self is True),
    {
        match self {
            TruthValue::DontCare | TruthValue::True => true,
            TruthValue::False => false,
        }
    }

    /// In-place conjunction with another truth value.
    pub fn and_assign(&mut self, rhs: TruthValue)
        ensures
            *final(self) == old(self).and_spec(rhs),
    {
        *self = self.and(rhs);
    }

    /// In-place disjunction with another truth value.
    pub fn or_assign(&mut self, rhs: TruthValue)
        ensures
            *final(self) == old(self).or_spec(rhs),
    {
        *self = self.or(rhs);
    }

    /// In-place implication with another truth value.
    pub fn implication_assign(&mut self, rhs: TruthValue)
        ensures
            *final(self) == old(self).implication_spec(rhs),
    {
        *self = self.implication(rhs);
    }

    /// Lifts a boolean into the three-valued domain.
    pub fn from_bool(b: bool) -> (r: TruthValue)
        ensures
            r == (if b {
                TruthValue::True
            } else {
                TruthValue::False
            }),
    {
        if b {
            TruthValue::True
        } else {
            TruthValue::False
        }
    }
}

/// One (possibly partial) row of a truth table: a fixed-length vector of
/// truth values, one per variable position. Operations combine two rows
/// of equal length pointwise.
#[derive(Debug, PartialEq, Eq)]
pub struct Minterm {
    v: Vec<TruthValue>,
}

impl View for Minterm {
    type V = Seq<TruthValue>;

    closed spec fn view(&self) -> Seq<TruthValue> {
        self.v@
    }
}

impl Minterm {
    /// Builds a row from its vector of truth values.
    pub fn from_values(v: Vec<TruthValue>) -> (r: Self)
        ensures
            r@ == v@,
    {
        Minterm { v }
    }

    /// The number of variable positions in the row.
    pub fn len(&self) -> (r: usize)
        ensures
            r == self@.len(),
    {
        self.v.len()
    }

    /// The truth value at one position.
    pub fn get(&self, idx: usize) -> (r: TruthValue)
        requires
            idx < self@.len(),
        ensures
            r == self@[idx as int],
    {
        self.v[idx]
    }

    /// Replaces the truth value at one position.
    pub fn set(&mut self, idx: usize, value: TruthValue)
        requires
            idx < old(self)@.len(),
        ensures
            final(self)@ == old(self)@.update(idx as int, value),
    {
        self.v.set(idx, value);
    }

    /// Pointwise conjunction of two rows of equal length.
    pub fn and(self, rhs: Self) -> (r: Self)
        requires
            self@.len() == rhs@.len(),
        ensures
            r@.len() == self@.len(),
            forall|i: int| 0 <= i < r@.len() ==> r@[i] == self@[i].and_spec(rhs@[i]),
    {
        let mut out: Vec<TruthValue> = Vec::new();
        let mut i: usize = 0;
        while i < self.v.len()
            invariant
                i <= self.v.len(),
                self@.len() == rhs@.len(),
                out@.len() == i,
                forall|j: int| 0 <= j < i ==> out@[j] == self@[j].and_spec(rhs@[j]),
            decreases self.v.len() - i,
        {
            out.push(self.v[i].and(rhs.v[i]));
            i = i + 1;
        }
        Minterm { v: out }
    }

    /// Pointwise disjunction of two rows of equal length.
    pub fn or(self, rhs: Self) -> (r: Self)
        requires
            self@.len() == rhs@.len(),
        ensures
            r@.len() == self@.len(),
            forall|i: int| 0 <= i < r@.len() ==> r@[i] == self@[i].or_spec(rhs@[i]),
    {
        let mut out: Vec<TruthValue> = Vec::new();
        let mut i: usize = 0;
        while i < self.v.len()
            invariant
                i <= self.v.len(),
                self@.len() == rhs@.len(),
                out@.len() == i,
                forall|j: int| 0 <= j < i ==> out@[j] == self@[j].or_spec(rhs@[j]),
            decreases self.v.len() - i,
        {
            out.push(self.v[i].or(rhs.v[i]));
            i = i + 1;
        }
        Minterm { v: out }
    }

    /// Pointwise negation of a row.
    pub fn negate(self) -> (r: Self)
        ensures
            r@.len() == self@.len(),
            forall|i: int| 0 <= i < r@.len() ==> r@[i] == self@[i].negate_spec(),
    {
        let mut out: Vec<TruthValue> = Vec::new();
        let mut i: usize = 0;
        while i < self.v.len()
            invariant
                i <= self.v.len(),
                out@.len() == i,
                forall|j: int| 0 <= j < i ==> out@[j] == self@[j].negate_spec(),
            decreases self.v.len() - i,
        {
            out.push(self.v[i].negate());
            i = i + 1;
        }
        Minterm { v: out }
    }

    /// Pointwise implication between two rows of equal length.
    pub fn implication(self, rhs: Self) -> (r: Self)
        requires
            self@.len() == rhs@.len(),
        ensures
            r@.len() == self@.len(),
            forall|i: int| 0 <= i < r@.len() ==> r@[i] == self@[i].implication_spec(rhs@[i]),
    {
        let mut out: Vec<TruthValue> = Vec::new();
        let mut i: usize = 0;
        while i < self.v.len()
            invariant
                i <= self.v.len(),
                self@.len() == rhs@.len(),
                out@.len() == i,
                forall|j: int| 0 <= j < i ==> out@[j] == self@[j].implication_spec(rhs@[j]),
            decreases self.v.len() - i,
        {
            out.push(self.v[i].implication(rhs.v[i]));
            i = i + 1;
        }
        Minterm { v: out }
    }

    /// In-place pointwise conjunction with another row of equal length.
    pub fn and_assign(&mut self, rhs: &Minterm)
        requires
            old(self)@.len() == rhs@.len(),
        ensures
            final(self)@.len() == old(self)@.len(),
            forall|i: int|
                0 <= i < final(self)@.len() ==> final(self)@[i] == old(self)@[i].and_spec(rhs@[i]),
    {
        let mut i: usize = 0;
        while i < self.v.len()
            invariant
                i <= self.v.len(),
                self@.len() == old(self)@.len() == rhs@.len(),
                forall|j: int| 0 <= j < i ==> self@[j] == old(self)@[j].and_spec(rhs@[j]),
                forall|j: int| i <= j < self@.len() ==> self@[j] == old(self)@[j],
            decreases self.v.len() - i,
        {
            let combined = self.v[i].and(rhs.v[i]);
            self.v.set(i, combined);
            i = i + 1;
        }
    }

    /// In-place pointwise disjunction with another row of equal length.
    pub fn or_assign(&mut self, rhs: &Minterm)
        requires
            old(self)@.len() == rhs@.len(),
        ensures
            final(self)@.len() == old(self)@.len(),
            forall|i: int|
                0 <= i < final(self)@.len() ==> final(self)@[i] == old(self)@[i].or_spec(rhs@[i]),
    {
        let mut i: usize = 0;
        while i < self.v.len()
            invariant
                i <= self.v.len(),
                self@.len() == old(self)@.len() == rhs@.len(),
                forall|j: int| 0 <= j < i ==> self@[j] == old(self)@[j].or_spec(rhs@[j]),
                forall|j: int| i <= j < self@.len() ==> self@[j] == old(self)@[j],
            decreases self.v.len() - i,
        {
            let combined = self.v[i].or(rhs.v[i]);
            self.v.set(i, combined);
            i = i + 1;
        }
    }

    /// In-place pointwise implication with another row of equal length.
    pub fn implication_assign(&mut self, rhs: &Minterm)
        requires
            old(self)@.len() == rhs@.len(),
        ensures
            final(self)@.len() == old(self)@.len(),
            forall|i: int|
                0 <= i < final(self)@.len() ==> final(self)@[i] == old(self)@[
                    i
                ].implication_spec(rhs@[i]),
    {
        let mut i: usize = 0;
        while i < self.v.len()
            invariant
                i <= self.v.len(),
                self@.len() == old(self)@.len() == rhs@.len(),
                forall|j: int| 0 <= j < i ==> self@[j] == old(self)@[j].implication_spec(rhs@[j]),
                forall|j: int| i <= j < self@.len() ==> self@[j] == old(self)@[j],
            decreases self.v.len() - i,
        {
            let combined = self.v[i].implication(rhs.v[i]);
            self.v.set(i, combined);
            i = i + 1;
        }
    }
}

} // verus!
