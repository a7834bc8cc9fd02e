//! The expression tree: a tagged union over the operator model, with
//! evaluation against variable bindings, single-step negation, and
//! bottom-up algebraic simplification.

use vstd::prelude::*;
use vstd::string::StringExecFns;

use crate::operators::InfixOperator;
use crate::operators::UnaryOperator;

verus! {

/// One node of a parsed boolean expression. `Identifier` carries a dense
/// zero-based index into the variable name table assembled during parsing.
#[derive(Debug, PartialEq, Eq)]
pub enum ASTNode {
    InfixOperation { op: InfixOperator, lhs: Box<ASTNode>, rhs: Box<ASTNode> },
    UnaryOperation { op: UnaryOperator, expr: Box<ASTNode> },
    Identifier(usize),
    Literal(bool),
}

/// A binding sequence is sorted when its identifier ids are strictly
/// increasing, which also makes every id occur at most once.
pub open spec fn binding_sorted(b: Seq<(usize, bool)>) -> bool {
    forall|i: int, j: int| 0 <= i < j < b.len() ==> b[i].0 < b[j].0
}

/// Whether the binding sequence assigns a value to the identifier `id`.
pub open spec fn binding_has(b: Seq<(usize, bool)>, id: usize) -> bool {
    exists|k: int| 0 <= k < b.len() && b[k].0 == id
}

/// The value the binding sequence assigns to `id`; meaningful when the
/// sequence is sorted and contains `id`.
pub open spec fn binding_lookup(b: Seq<(usize, bool)>, id: usize) -> bool {
    b[choose|k: int| 0 <= k < b.len() && b[k].0 == id].1
}

/// The local simplification table for one infix operation whose operands
/// are already simplified: fold two literals through the operator, apply
/// the absorption/identity laws when one operand is a literal, collapse an
/// operation on twice the same identifier, and otherwise rebuild the node.
pub open spec fn simplify_step_infix(op: InfixOperator, lhs: ASTNode, rhs: ASTNode) -> ASTNode {
    match (lhs, rhs) {
        (ASTNode::Literal(l1), ASTNode::Literal(l2)) => ASTNode::Literal(op.apply_spec(l1, l2)),
        (a1, ASTNode::Literal(l2)) => match (op, l2) {
            (InfixOperator::And, true)
            | (InfixOperator::Or, false)
            | (InfixOperator::Implication, false) => a1,
            (InfixOperator::And, false) => ASTNode::Literal(false),
            (InfixOperator::Or, true) | (InfixOperator::Implication, true) => ASTNode::Literal(
                true,
            ),
        },
        (ASTNode::Literal(l1), a2) => match (op, l1) {
            (InfixOperator::And, true)
            | (InfixOperator::Or, false)
            | (InfixOperator::Implication, true) => a2,
            (InfixOperator::And, false) => ASTNode::Literal(false),
            (InfixOperator::Or, true) | (InfixOperator::Implication, false) => ASTNode::Literal(
                true,
            ),
        },
        (ASTNode::Identifier(i1), ASTNode::Identifier(i2)) => {
            if i1 == i2 {
                match op {
                    InfixOperator::And => ASTNode::Identifier(i1),
                    InfixOperator::Or | InfixOperator::Implication => ASTNode::Literal(true),
                }
            } else {
                ASTNode::InfixOperation {
                    op,
                    lhs: Box::new(ASTNode::Identifier(i1)),
                    rhs: Box::new(ASTNode::Identifier(i2)),
                }
            }
        },
        (l, r) => ASTNode::InfixOperation { op, lhs: Box::new(l), rhs: Box::new(r) },
    }
}

impl ASTNode {
    /// Whether the binding sequence assigns a value to every identifier
    /// that occurs in the expression.
    pub open spec fn covered_by(self, b: Seq<(usize, bool)>) -> bool
        decreases self,
    {
        match self {
            ASTNode::InfixOperation { op, lhs, rhs } => lhs.covered_by(b) && rhs.covered_by(b),
            ASTNode::UnaryOperation { op, expr } => expr.covered_by(b),
            ASTNode::Identifier(i) => binding_has(b, i),
            ASTNode::Literal(_) => true,
        }
    }

    /// The boolean value of the expression under a binding.
    pub open spec fn eval(self, b: Seq<(usize, bool)>) -> bool
        decreases self,
    {
        match self {
            ASTNode::InfixOperation { op, lhs, rhs } => op.apply_spec(lhs.eval(b), rhs.eval(b)),
            ASTNode::UnaryOperation { op, expr } => op.apply_spec(expr.eval(b)),
            ASTNode::Identifier(i) => binding_lookup(b, i),
            ASTNode::Literal(l) => l,
        }
    }

    /// Single-step structural negation: complement a literal, strip one
    /// `Not`, and otherwise wrap the expression in a `Not`.
    pub open spec fn negate_spec(self) -> ASTNode {
        match self {
            ASTNode::Literal(v) => ASTNode::Literal(!v),
            ASTNode::UnaryOperation { op: UnaryOperator::Not, expr } => *expr,
            _ => ASTNode::UnaryOperation { op: UnaryOperator::Not, expr: Box::new(self) },
        }
    }

    /// Bottom-up simplification: simplify the operands first, then fold a
    /// unary operation on a literal, cancel a double negation, and apply
    /// the infix table of [`simplify_step_infix`].
    pub open spec fn simplify_spec(self) -> ASTNode
        decreases self,
    {
        match self {
            ASTNode::UnaryOperation { op, expr } => {
                let se = expr.simplify_spec();
                match se {
                    ASTNode::Literal(l) => ASTNode::Literal(op.apply_spec(l)),
                    ASTNode::UnaryOperation { op: op2, expr: inner } => {
                        if op == UnaryOperator::Not && op2 == UnaryOperator::Not {
                            *inner
                        } else {
                            ASTNode::UnaryOperation { op, expr: Box::new(se) }
                        }
                    },
                    _ => ASTNode::UnaryOperation { op, expr: Box::new(se) },
                }
            },
            ASTNode::InfixOperation { op, lhs, rhs } => simplify_step_infix(
                op,
                lhs.simplify_spec(),
                rhs.simplify_spec(),
            ),
            _ => self,
        }
    }

    /// Whether every identifier index in the expression is below `n`.
    pub open spec fn ids_below(self, n: int) -> bool
        decreases self,
    {
        match self {
            ASTNode::InfixOperation { op, lhs, rhs } => lhs.ids_below(n) && rhs.ids_below(n),
            ASTNode::UnaryOperation { op, expr } => expr.ids_below(n),
            ASTNode::Identifier(i) => i < n,
            ASTNode::Literal(_) => true,
        }
    }

    /// Whether the identifier index `id` occurs somewhere in the expression.
    pub open spec fn uses_id(self, id: int) -> bool
        decreases self,
    {
        match self {
            ASTNode::InfixOperation { op, lhs, rhs } => lhs.uses_id(id) || rhs.uses_id(id),
            ASTNode::UnaryOperation { op, expr } => expr.uses_id(id),
            ASTNode::Identifier(i) => i == id,
            ASTNode::Literal(_) => false,
        }
    }

    /// A normal form for [`Self::simplify_spec`]: no unary operation wraps
    /// a literal or another unary operation, and no infix operation has a
    /// literal operand or twice the same identifier as its operands.
    pub open spec fn is_simplified(self) -> bool
        decreases self,
    {
        match self {
            ASTNode::InfixOperation { op, lhs, rhs } => {
                &&& lhs.is_simplified()
                &&& rhs.is_simplified()
                &&& !(*lhs is Literal)
                &&& !(*rhs is Literal)
                &&& !(*lhs is Identifier && *lhs == *rhs)
            },
            ASTNode::UnaryOperation { op, expr } => {
                &&& expr.is_simplified()
                &&& !(*expr is Literal)
                &&& !(*expr is UnaryOperation)
            },
            _ => true,
        }
    }

    /// Two of the rewrite rules are deliberate strengthenings rather than
    /// equivalences: an implication whose consequent simplifies to the
    /// literal `false` is replaced by its antecedent, and a disjunction of
    /// twice the same identifier collapses to the literal `true`. This
    /// predicate excludes the expressions on which either rule fires, so
    /// that simplification provably preserves the expression's value.
    pub open spec fn simplify_safe(self) -> bool
        decreases self,
    {
        match self {
            ASTNode::InfixOperation { op, lhs, rhs } => {
                &&& lhs.simplify_safe()
                &&& rhs.simplify_safe()
                &&& !(op == InfixOperator::Implication && rhs.simplify_spec() == ASTNode::Literal(
                    false,
                ))
                &&& !(op == InfixOperator::Or && lhs.simplify_spec() is Identifier
                    && lhs.simplify_spec() == rhs.simplify_spec())
            },
            ASTNode::UnaryOperation { op, expr } => expr.simplify_safe(),
            _ => true,
        }
    }

    /// Negates the expression structurally, cancelling one enclosing `Not`
    /// instead of stacking a second one.
    pub fn negate(self) -> (r: Self)
        ensures
            r == self.negate_spec(),
    {
        match self {
            ASTNode::Literal(v) => ASTNode::Literal(!v),
            ASTNode::UnaryOperation { op: UnaryOperator::Not, expr } => *expr,
            e => ASTNode::UnaryOperation { op: UnaryOperator::Not, expr: Box::new(e) },
        }
    }

    /// Evaluates the expression against a binding sorted by identifier id
    /// that covers every identifier occurring in the expression.
    pub fn evaluate(&self, binding: &Vec<(usize, bool)>) -> (r: bool)
        requires
            binding_sorted(binding@),
            self.covered_by(binding@),
        ensures
            r == self.eval(binding@),
        decreases *self,
    {
        match self {
            ASTNode::Literal(l) => *l,
            ASTNode::Identifier(i) => lookup_value(binding, *i),
            ASTNode::UnaryOperation { op, expr } => op.apply(expr.evaluate(binding)),
            ASTNode::InfixOperation { op, lhs, rhs } => {
                let vl = lhs.evaluate(binding);
                let vr = rhs.evaluate(binding);
                op.apply(vl, vr)
            },
        }
    }

    /// Simplifies the whole expression bottom-up. The result is the
    /// [`Self::simplify_spec`] normal form; simplification is total and
    /// never fails.
    pub fn try_simplify(self) -> (r: Self)
        ensures
            r == self.simplify_spec(),
        decreases self,
    {
        match self {
            ASTNode::UnaryOperation { op, expr } => {
                let se = (*expr).try_simplify();
                match se {
                    ASTNode::Literal(l) => ASTNode::Literal(op.apply(l)),
                    ASTNode::UnaryOperation { op: op2, expr: inner } => {
                        if op == UnaryOperator::Not && op2 == UnaryOperator::Not {
                            *inner
                        } else {
                            ASTNode::UnaryOperation {
                                op,
                                expr: Box::new(ASTNode::UnaryOperation { op: op2, expr: inner }),
                            }
                        }
                    },
                    e => ASTNode::UnaryOperation { op, expr: Box::new(e) },
                }
            },
            ASTNode::InfixOperation { op, lhs, rhs } => {
                let sl = (*lhs).try_simplify();
                let sr = (*rhs).try_simplify();
                apply_infix_rules(op, sl, sr)
            },
            e => e,
        }
    }
}

/// Ordered (binary) search for `id` in a binding sorted by identifier id.
fn lookup_value(binding: &Vec<(usize, bool)>, id: usize) -> (r: bool)
    requires
        binding_sorted(binding@),
        binding_has(binding@, id),
    ensures
        r == binding_lookup(binding@, id),
{
    let mut lo: usize = 0;
    let mut hi: usize = binding.len();
    loop
        invariant
            lo <= hi <= binding.len(),
            binding_sorted(binding@),
            binding_has(binding@, id),
            forall|k: int| 0 <= k < binding@.len() && binding@[k].0 == id ==> lo <= k < hi,
        decreases hi - lo,
    {
        if lo >= hi {
            // Unreachable: the id is guaranteed to lie in the remaining range.
            assert(false);
            return false;
        }
        let mid: usize = lo + (hi - lo) / 2;
        let (k, v) = binding[mid];
        if k == id {
            proof {
                let c = choose|j: int| 0 <= j < binding@.len() && binding@[j].0 == id;
                assert(c == mid);
            }
            return v;
        } else if k < id {
            lo = mid + 1;
        } else {
            hi = mid;
        }
    }
}

/// The executable form of the [`simplify_step_infix`] table, applied to
/// operands that the caller has already simplified.
fn apply_infix_rules(op: InfixOperator, lhs: ASTNode, rhs: ASTNode) -> (r: ASTNode)
    ensures
        r == simplify_step_infix(op, lhs, rhs),
{
    match (lhs, rhs) {
        (ASTNode::Literal(l1), ASTNode::Literal(l2)) => ASTNode::Literal(op.apply(l1, l2)),
        (a1, ASTNode::Literal(l2)) => match (op, l2) {
            (InfixOperator::And, true)
            | (InfixOperator::Or, false)
            | (InfixOperator::Implication, false) => a1,
            (InfixOperator::And, false) => ASTNode::Literal(false),
            (InfixOperator::Or, true) | (InfixOperator::Implication, true) => ASTNode::Literal(
                true,
            ),
        },
        (ASTNode::Literal(l1), a2) => match (op, l1) {
            (InfixOperator::And, true)
            | (InfixOperator::Or, false)
            | (InfixOperator::Implication, true) => a2,
            (InfixOperator::And, false) => ASTNode::Literal(false),
            (InfixOperator::Or, true) | (InfixOperator::Implication, false) => ASTNode::Literal(
                true,
            ),
        },
        (ASTNode::Identifier(i1), ASTNode::Identifier(i2)) => {
            if i1 == i2 {
                match op {
                    InfixOperator::And => ASTNode::Identifier(i1),
                    InfixOperator::Or | InfixOperator::Implication => ASTNode::Literal(true),
                }
            } else {
                ASTNode::InfixOperation {
                    op,
                    lhs: Box::new(ASTNode::Identifier(i1)),
                    rhs: Box::new(ASTNode::Identifier(i2)),
                }
            }
        },
        (l, r) => ASTNode::InfixOperation { op, lhs: Box::new(l), rhs: Box::new(r) },
    }
}

impl InfixOperator {
    /// Simplifies both operands, then applies the local infix table to the
    /// simplified operands.
    pub fn simplify(self, lhs: ASTNode, rhs: ASTNode) -> (r: ASTNode)
        ensures
            r == simplify_step_infix(self, lhs.simplify_spec(), rhs.simplify_spec()),
    {
        let sl = lhs.try_simplify();
        let sr = rhs.try_simplify();
        apply_infix_rules(self, sl, sr)
    }
}


impl ASTNode {
    /// The algebraic rendering of the expression, with parentheses around
    /// every infix operation and names substituted for identifier ids; an
    /// id outside the table renders as nothing.
    pub open spec fn display_view(self, names: Seq<Seq<char>>) -> Seq<char>
        decreases self,
    {
        match self {
            ASTNode::InfixOperation { op, lhs, rhs } => "("@ + lhs.display_view(names) + " "@
                + op.symbol_view() + " "@ + rhs.display_view(names) + ")"@,
            ASTNode::UnaryOperation { op, expr } => op.symbol_view() + expr.display_view(names),
            ASTNode::Identifier(i) => if i < names.len() {
                names[i as int]
            } else {
                Seq::empty()
            },
            ASTNode::Literal(l) => if l {
                "true"@
            } else {
                "false"@
            },
        }
    }

    /// The braced rendering: like [`Self::display_view`] at the leaves and
    /// one level down, but the outermost infix operation prints without
    /// spaces around its operator.
    pub open spec fn binary_view(self, names: Seq<Seq<char>>) -> Seq<char> {
        match self {
            ASTNode::InfixOperation { op, lhs, rhs } => "("@ + lhs.display_view(names)
                + op.symbol_view() + rhs.display_view(names) + ")"@,
            ASTNode::UnaryOperation { op, expr } => op.symbol_view() + expr.display_view(names),
            _ => self.display_view(names),
        }
    }

    /// The debug rendering, naming the tagged-union variants and quoting
    /// identifier names.
    pub open spec fn debug_view(self, names: Seq<Seq<char>>) -> Seq<char>
        decreases self,
    {
        match self {
            ASTNode::InfixOperation { op, lhs, rhs } => "InfixOperation {op: "@
                + op.variant_name_view() + ", lhs: "@ + lhs.debug_view(names) + ", rhs: "@
                + rhs.debug_view(names) + "}"@,
            ASTNode::UnaryOperation { op, expr } => op.variant_name_view() + expr.debug_view(
                names,
            ),
            ASTNode::Identifier(i) => "\""@ + (if i < names.len() {
                names[i as int]
            } else {
                Seq::empty()
            }) + "\""@,
            ASTNode::Literal(l) => if l {
                "true"@
            } else {
                "false"@
            },
        }
    }

    /// Renders the expression algebraically, looking identifier ids up in
    /// the given name table.
    pub fn fmt_display_names(&self, names: &Vec<String>) -> (r: String)
        ensures
            r@ == self.display_view(names.deep_view()),
        decreases *self,
    {
        match self {
            ASTNode::InfixOperation { op, lhs, rhs } => {
                let mut s = "(".to_owned();
                let ls = lhs.fmt_display_names(names);
                s.append(ls.as_str());
                s.append(" ");
                s.append(op.symbol());
                s.append(" ");
                let rs = rhs.fmt_display_names(names);
                s.append(rs.as_str());
                s.append(")");
                s
            },
            ASTNode::UnaryOperation { op, expr } => {
                let mut s = op.symbol().to_owned();
                let es = expr.fmt_display_names(names);
                s.append(es.as_str());
                s
            },
            ASTNode::Identifier(i) => {
                if *i < names.len() {
                    names[*i].as_str().to_owned()
                } else {
                    String::new()
                }
            },
            ASTNode::Literal(l) => {
                if *l {
                    "true".to_owned()
                } else {
                    "false".to_owned()
                }
            },
        }
    }

    /// Renders the expression in the braced form.
    pub fn fmt_binary_names(&self, names: &Vec<String>) -> (r: String)
        ensures
            r@ == self.binary_view(names.deep_view()),
    {
        match self {
            ASTNode::InfixOperation { op, lhs, rhs } => {
                let mut s = "(".to_owned();
                let ls = lhs.fmt_display_names(names);
                s.append(ls.as_str());
                s.append(op.symbol());
                let rs = rhs.fmt_display_names(names);
                s.append(rs.as_str());
                s.append(")");
                s
            },
            ASTNode::UnaryOperation { op, expr } => {
                let mut s = op.symbol().to_owned();
                let es = expr.fmt_display_names(names);
                s.append(es.as_str());
                s
            },
            ASTNode::Identifier(i) => {
                if *i < names.len() {
                    names[*i].as_str().to_owned()
                } else {
                    String::new()
                }
            },
            ASTNode::Literal(l) => {
                if *l {
                    "true".to_owned()
                } else {
                    "false".to_owned()
                }
            },
        }
    }

    /// Renders the expression in the debug form.
    pub fn fmt_debug_names(&self, names: &Vec<String>) -> (r: String)
        ensures
            r@ == self.debug_view(names.deep_view()),
        decreases *self,
    {
        match self {
            ASTNode::InfixOperation { op, lhs, rhs } => {
                let mut s = "InfixOperation {op: ".to_owned();
                s.append(op.variant_name());
                s.append(", lhs: ");
                let ls = lhs.fmt_debug_names(names);
                s.append(ls.as_str());
                s.append(", rhs: ");
                let rs = rhs.fmt_debug_names(names);
                s.append(rs.as_str());
                s.append("}");
                s
            },
            ASTNode::UnaryOperation { op, expr } => {
                let mut s = op.variant_name().to_owned();
                let es = expr.fmt_debug_names(names);
                s.append(es.as_str());
                s
            },
            ASTNode::Identifier(i) => {
                let mut s = "\"".to_owned();
                if *i < names.len() {
                    s.append(names[*i].as_str());
                }
                s.append("\"");
                s
            },
            ASTNode::Literal(l) => {
                if *l {
                    "true".to_owned()
                } else {
                    "false".to_owned()
                }
            },
        }
    }
}

/// Bounds on identifier indices weaken monotonically.
pub proof fn lemma_ids_below_mono(e: ASTNode, n1: int, n2: int)
    requires
        e.ids_below(n1),
        n1 <= n2,
    ensures
        e.ids_below(n2),
    decreases e,
{
    match e {
        ASTNode::UnaryOperation { op, expr } => {
            lemma_ids_below_mono(*expr, n1, n2);
        },
        ASTNode::InfixOperation { op, lhs, rhs } => {
            lemma_ids_below_mono(*lhs, n1, n2);
            lemma_ids_below_mono(*rhs, n1, n2);
        },
        _ => {},
    }
}

/// Simplification never invents identifier indices: whatever bound the
/// input's indices respect, the simplified tree's indices respect too.
pub proof fn lemma_simplify_ids_below(e: ASTNode, n: int)
    requires
        e.ids_below(n),
    ensures
        e.simplify_spec().ids_below(n),
    decreases e,
{
    match e {
        ASTNode::UnaryOperation { op, expr } => {
            lemma_simplify_ids_below(*expr, n);
        },
        ASTNode::InfixOperation { op, lhs, rhs } => {
            lemma_simplify_ids_below(*lhs, n);
            lemma_simplify_ids_below(*rhs, n);
        },
        _ => {},
    }
}

/// Law: simplification preserves the expression's value. For every
/// expression free of the two strengthening rewrites (see
/// [`ASTNode::simplify_safe`]) and every sorted binding that covers its
/// identifiers, the simplified expression is still covered and evaluates
/// to the same value.
pub proof fn lemma_simplify_preserves_eval(e: ASTNode, b: Seq<(usize, bool)>)
    requires
        e.simplify_safe(),
        e.covered_by(b),
    ensures
        e.simplify_spec().covered_by(b),
        e.simplify_spec().eval(b) == e.eval(b),
    decreases e,
{
    match e {
        ASTNode::UnaryOperation { op, expr } => {
            lemma_simplify_preserves_eval(*expr, b);
        },
        ASTNode::InfixOperation { op, lhs, rhs } => {
            lemma_simplify_preserves_eval(*lhs, b);
            lemma_simplify_preserves_eval(*rhs, b);
        },
        _ => {},
    }
}

/// Simplification always yields the [`ASTNode::is_simplified`] normal form.
pub proof fn lemma_simplify_is_simplified(e: ASTNode)
    ensures
        e.simplify_spec().is_simplified(),
    decreases e,
{
    match e {
        ASTNode::UnaryOperation { op, expr } => {
            lemma_simplify_is_simplified(*expr);
        },
        ASTNode::InfixOperation { op, lhs, rhs } => {
            lemma_simplify_is_simplified(*lhs);
            lemma_simplify_is_simplified(*rhs);
        },
        _ => {},
    }
}

/// Simplification leaves an expression already in normal form unchanged.
pub proof fn lemma_simplify_fixes_simplified(e: ASTNode)
    requires
        e.is_simplified(),
    ensures
        e.simplify_spec() == e,
    decreases e,
{
    match e {
        ASTNode::UnaryOperation { op, expr } => {
            lemma_simplify_fixes_simplified(*expr);
        },
        ASTNode::InfixOperation { op, lhs, rhs } => {
            lemma_simplify_fixes_simplified(*lhs);
            lemma_simplify_fixes_simplified(*rhs);
        },
        _ => {},
    }
}

/// Law: simplification is idempotent. Simplifying a second time yields a
/// structurally identical expression.
pub proof fn lemma_simplify_idempotent(e: ASTNode)
    ensures
        e.simplify_spec().simplify_spec() == e.simplify_spec(),
{
    lemma_simplify_is_simplified(e);
    lemma_simplify_fixes_simplified(e.simplify_spec());
}

/// Law: double negation is semantically the identity. For every
/// expression and every sorted binding covering its identifiers,
/// negating twice preserves coverage and the evaluated value (the result
/// need not be structurally identical to the input).
pub proof fn lemma_double_negate_eval(e: ASTNode, b: Seq<(usize, bool)>)
    requires
        e.covered_by(b),
    ensures
        e.negate_spec().negate_spec().covered_by(b),
        e.negate_spec().negate_spec().eval(b) == e.eval(b),
{
    match e {
        ASTNode::Literal(v) => {
            assert(e.negate_spec().negate_spec() == ASTNode::Literal(v));
        },
        ASTNode::UnaryOperation { op: UnaryOperator::Not, expr } => {
            // The first negation strips the `Not`; the second negates the
            // operand, which splits into the same three shapes again.
            assert(e.eval(b) == !(expr.eval(b)));
            match *expr {
                ASTNode::Literal(v) => {
                    assert((*expr).eval(b) == v);
                    assert(e.negate_spec().negate_spec() == ASTNode::Literal(!v));
                    assert(ASTNode::Literal(!v).eval(b) == !v);
                },
                ASTNode::UnaryOperation { op: UnaryOperator::Not, expr: inner } => {
                    assert((*expr).eval(b) == !(inner.eval(b)));
                    assert((*expr).covered_by(b));
                    assert((*inner).covered_by(b));
                    assert(e.negate_spec().negate_spec() == *inner);
                },
                _ => {
                    assert(e.negate_spec().negate_spec() == ASTNode::UnaryOperation {
                        op: UnaryOperator::Not,
                        expr: expr,
                    });
                },
            }
        },
        _ => {
            assert(e.negate_spec() == ASTNode::UnaryOperation {
                op: UnaryOperator::Not,
                expr: Box::new(e),
            });
            assert(e.negate_spec().negate_spec() == e);
        },
    }
}

} // verus!

