//! The operator model: the unary and infix boolean operators, their
//! semantics, and the precedence/associativity attributes the parser uses.

use vstd::prelude::*;

verus! {

/// Associativity of an operator, consulted while parsing flat operator
/// chains into a tree.
#[derive(Debug, Clone, Copy, PartialEq, Eq, Structural)]
pub enum Assoc {
    Right,
    Left,
    NotApplicable,
}

/// The unary operators: logical negation.
#[derive(Debug, Clone, Copy, PartialEq, Eq, Structural)]
pub enum UnaryOperator {
    Not,
}

/// The infix operators: conjunction, disjunction and implication.
#[derive(Debug, Clone, Copy, PartialEq, Eq, Structural)]
pub enum InfixOperator {
    And,
    Or,
    Implication,
}

impl UnaryOperator {
    /// The boolean meaning of a unary operator.
    pub open spec fn apply_spec(self, value: bool) -> bool {
        match self {
            UnaryOperator::Not => !value,
        }
    }

    /// Applies the operator to a boolean value.
    pub fn apply(&self, value: bool) -> (r: bool)
        ensures
            r == self.apply_spec(value),
    {
        match self {
            UnaryOperator::Not => !value,
        }
    }

    /// The textual symbol of a unary operator.
    pub open spec fn symbol_view(self) -> Seq<char> {
        match self {
            UnaryOperator::Not => "!"@,
        }
    }

    /// The textual symbol of the operator, as the renderers print it.
    pub fn symbol(&self) -> (r: &'static str)
        ensures
            r@ == self.symbol_view(),
    {
        match self {
            UnaryOperator::Not => "!",
        }
    }

    /// The name of the operator's variant, as the debug renderer prints it.
    pub open spec fn variant_name_view(self) -> Seq<char> {
        match self {
            UnaryOperator::Not => "Not"@,
        }
    }

    /// The name of the operator's variant, as the debug renderer prints it.
    pub fn variant_name(&self) -> (r: &'static str)
        ensures
            r@ == self.variant_name_view(),
    {
        match self {
            UnaryOperator::Not => "Not",
        }
    }

    /// Unary operators take part in no infix chain, so associativity does
    /// not apply to them.
    pub fn assoc(&self) -> (r: Assoc)
        ensures
            r == Assoc::NotApplicable,
    {
        Assoc::NotApplicable
    }

    /// Unary operators take part in no infix chain, so they carry no
    /// meaningful precedence.
    pub fn precedence(&self) -> (r: usize)
        ensures
            r == 0,
    {
        0
    }
}

impl InfixOperator {
    /// The boolean meaning of an infix operator: `And` is conjunction,
    /// `Or` is disjunction, and `Implication` is material implication.
    pub open spec fn apply_spec(self, lhs: bool, rhs: bool) -> bool {
        match self {
            InfixOperator::And => lhs && rhs,
            InfixOperator::Or => lhs || rhs,
            InfixOperator::Implication => !lhs || rhs,
        }
    }

    /// Applies the operator to two boolean values.
    pub fn apply(&self, lhs: bool, rhs: bool) -> (r: bool)
        ensures
            r == self.apply_spec(lhs, rhs),
    {
        match self {
            InfixOperator::And => lhs && rhs,
            InfixOperator::Or => lhs || rhs,
            InfixOperator::Implication => !lhs || rhs,
        }
    }

    /// The textual symbol of an infix operator.
    pub open spec fn symbol_view(self) -> Seq<char> {
        match self {
            InfixOperator::And => "&"@,
            InfixOperator::Or => "|"@,
            InfixOperator::Implication => "->"@,
        }
    }

    /// The textual symbol of the operator, as the renderers print it.
    pub fn symbol(&self) -> (r: &'static str)
        ensures
            r@ == self.symbol_view(),
    {
        match self {
            InfixOperator::And => "&",
            InfixOperator::Or => "|",
            InfixOperator::Implication => "->",
        }
    }

    /// The name of the operator's variant, as the debug renderer prints it.
    pub open spec fn variant_name_view(self) -> Seq<char> {
        match self {
            InfixOperator::And => "And"@,
            InfixOperator::Or => "Or"@,
            InfixOperator::Implication => "Implication"@,
        }
    }

    /// The name of the operator's variant, as the debug renderer prints it.
    pub fn variant_name(&self) -> (r: &'static str)
        ensures
            r@ == self.variant_name_view(),
    {
        match self {
            InfixOperator::And => "And",
            InfixOperator::Or => "Or",
            InfixOperator::Implication => "Implication",
        }
    }

    /// `And` and `Or` chains fold to the left; `Implication` chains fold
    /// to the right.
    pub fn assoc(&self) -> (r: Assoc)
        ensures
            r == (match self {
                InfixOperator::And | InfixOperator::Or => Assoc::Left,
                InfixOperator::Implication => Assoc::Right,
            }),
    {
        match self {
            InfixOperator::And | InfixOperator::Or => Assoc::Left,
            InfixOperator::Implication => Assoc::Right,
        }
    }

    /// `And` and `Or` bind tighter than `Implication`.
    pub fn precedence(&self) -> (r: usize)
        ensures
            r == (match self {
                InfixOperator::And | InfixOperator::Or => 2usize,
                InfixOperator::Implication => 1usize,
            }),
    {
        match self {
            InfixOperator::And | InfixOperator::Or => 2,
            InfixOperator::Implication => 1,
        }
    }
}

} // verus!
