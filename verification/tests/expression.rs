use boolexpr::ASTNode;
use boolexpr::Assoc;
use boolexpr::InfixOperator;
use boolexpr::Parsed;
use boolexpr::UnaryOperator;

fn ident(i: usize) -> ASTNode {
    ASTNode::Identifier(i)
}

fn lit(b: bool) -> ASTNode {
    ASTNode::Literal(b)
}

fn infix(op: InfixOperator, lhs: ASTNode, rhs: ASTNode) -> ASTNode {
    ASTNode::InfixOperation {
        op,
        lhs: Box::new(lhs),
        rhs: Box::new(rhs),
    }
}

fn not(e: ASTNode) -> ASTNode {
    ASTNode::UnaryOperation {
        op: UnaryOperator::Not,
        expr: Box::new(e),
    }
}

fn parse(s: &str) -> Parsed {
    Parsed::new(s).expect("expression should parse")
}

#[test]
fn unary_apply_truth_table() {
    assert_eq!(UnaryOperator::Not.apply(true), false);
    assert_eq!(UnaryOperator::Not.apply(false), true);
}

#[test]
fn infix_apply_truth_tables() {
    for &(l, r) in &[(false, false), (false, true), (true, false), (true, true)] {
        assert_eq!(InfixOperator::And.apply(l, r), l && r);
        assert_eq!(InfixOperator::Or.apply(l, r), l || r);
        assert_eq!(InfixOperator::Implication.apply(l, r), !l || r);
    }
}

#[test]
fn operator_attributes() {
    assert_eq!(InfixOperator::And.assoc(), Assoc::Left);
    assert_eq!(InfixOperator::Or.assoc(), Assoc::Left);
    assert_eq!(InfixOperator::Implication.assoc(), Assoc::Right);
    assert_eq!(InfixOperator::And.precedence(), 2);
    assert_eq!(InfixOperator::Or.precedence(), 2);
    assert_eq!(InfixOperator::Implication.precedence(), 1);
    assert_eq!(UnaryOperator::Not.assoc(), Assoc::NotApplicable);
    assert_eq!(UnaryOperator::Not.precedence(), 0);
}

#[test]
fn parse_implication_is_right_associative() {
    let chained = parse("A -> B -> C");
    let explicit = parse("A -> (B -> C)");
    assert_eq!(chained.expression, explicit.expression);
    assert_eq!(
        chained.expression,
        infix(
            InfixOperator::Implication,
            ident(0),
            infix(InfixOperator::Implication, ident(1), ident(2)),
        )
    );
}

#[test]
fn parse_and_is_left_associative() {
    let chained = parse("A & B & C");
    let explicit = parse("(A & B) & C");
    assert_eq!(chained.expression, explicit.expression);
    assert_eq!(
        chained.expression,
        infix(
            InfixOperator::And,
            infix(InfixOperator::And, ident(0), ident(1)),
            ident(2),
        )
    );
}

#[test]
fn parse_interns_identifiers_densely() {
    let p = parse("(!!A & B) | (A & B)");
    assert_eq!(p.num_variables(), 2);
    assert_eq!(p.var_bindings[0], "A");
    assert_eq!(p.var_bindings[1], "B");
    assert_eq!(
        p.expression,
        infix(
            InfixOperator::Or,
            infix(InfixOperator::And, not(not(ident(0))), ident(1)),
            infix(InfixOperator::And, ident(0), ident(1)),
        )
    );
}

#[test]
fn scenario_double_negation_expression() {
    let p = parse("(!!A & B) | (A & B)");
    assert!(p.evaluate(&vec![(0, true), (1, true)]));
    assert!(!p.evaluate(&vec![(0, false), (1, true)]));
    let simplified = parse("(!!A & B) | (A & B)").try_simplify();
    // The double negation on A is gone after simplification.
    assert_eq!(
        simplified.expression,
        infix(
            InfixOperator::Or,
            infix(InfixOperator::And, ident(0), ident(1)),
            infix(InfixOperator::And, ident(0), ident(1)),
        )
    );
    for &a in &[false, true] {
        for &b in &[false, true] {
            let binding = vec![(0, a), (1, b)];
            assert_eq!(p.evaluate(&binding), simplified.evaluate(&binding));
        }
    }
}

#[test]
fn scenario_self_implication_simplifies_to_true() {
    let simplified = parse("A -> A").try_simplify();
    assert_eq!(simplified.expression, lit(true));
}

#[test]
fn scenario_and_true_simplifies_to_identifier() {
    let simplified = parse("A & true").try_simplify();
    assert_eq!(simplified.expression, ident(0));
}

#[test]
fn scenario_or_of_same_identifier_simplifies_to_true() {
    // The stated rule collapses `A | A` to the literal `true`, not to `A`.
    let simplified = parse("A | A").try_simplify();
    assert_eq!(simplified.expression, lit(true));
}

#[test]
fn simplify_preserves_semantics_exhaustively() {
    let sources = [
        "(!!A & B) | (A & B)",
        "A -> B -> C",
        "!(A & B) | (C & true)",
        "(A | false) & (B -> C) & !!D",
        "!(!A | !B) -> (C | D | E)",
        "A & B | C -> D & !E | F",
    ];
    for src in &sources {
        let original = parse(src);
        let simplified = parse(src).try_simplify();
        let n = original.num_variables();
        assert!(n <= 6);
        for bits in 0..(1u32 << n) {
            let binding: Vec<(usize, bool)> =
                (0..n).map(|i| (i, bits & (1 << i) != 0)).collect();
            assert_eq!(
                original.evaluate(&binding),
                simplified.evaluate(&binding),
                "mismatch for {} under {:?}",
                src,
                binding
            );
        }
    }
}

#[test]
fn simplify_is_idempotent() {
    let sources = [
        "(!!A & B) | (A & B)",
        "A -> B -> C",
        "A & true",
        "A | A",
        "!(A & B) | (C & true)",
        "!!!!A",
        "true -> false",
    ];
    for src in &sources {
        let once = parse(src).try_simplify();
        let twice = parse(src).try_simplify().try_simplify();
        assert_eq!(once.expression, twice.expression);
    }
}

#[test]
fn double_negate_evaluates_identically() {
    let sources = ["A & B", "!A", "A -> B", "true", "false", "A | !B"];
    for src in &sources {
        let original = parse(src);
        let doubled = parse(src).expression.negate().negate();
        let n = original.num_variables();
        for bits in 0..(1u32 << n) {
            let binding: Vec<(usize, bool)> =
                (0..n).map(|i| (i, bits & (1 << i) != 0)).collect();
            assert_eq!(original.evaluate(&binding), doubled.evaluate(&binding));
        }
    }
}

#[test]
fn negate_rules() {
    assert_eq!(lit(true).negate(), lit(false));
    assert_eq!(lit(false).negate(), lit(true));
    // One enclosing Not is cancelled rather than stacked.
    assert_eq!(not(ident(0)).negate(), ident(0));
    assert_eq!(ident(0).negate(), not(ident(0)));
    let conj = infix(InfixOperator::And, ident(0), ident(1));
    assert_eq!(conj.negate(), not(infix(InfixOperator::And, ident(0), ident(1))));
}

#[test]
fn evaluate_literals_and_operators() {
    assert!(parse("true").evaluate(&vec![]));
    assert!(!parse("false").evaluate(&vec![]));
    assert!(parse("TRUE").evaluate(&vec![]));
    assert!(!parse("False").evaluate(&vec![]));
    assert!(parse("!false").evaluate(&vec![]));
    assert!(parse("~false").evaluate(&vec![]));
    let b = vec![(0, true), (1, false)];
    assert!(!parse("A & B").evaluate(&b));
    assert!(!parse("A and B").evaluate(&b));
    assert!(!parse("A AND B").evaluate(&b));
    assert!(!parse("a * b").evaluate(&vec![(0, true), (1, false)]));
    assert!(parse("A | B").evaluate(&b));
    assert!(parse("A or B").evaluate(&b));
    assert!(parse("A OR B").evaluate(&b));
    assert!(parse("A + B").evaluate(&b));
    assert!(!parse("A -> B").evaluate(&b));
    // In "B -> A" the first-seen variable B receives id 0.
    assert!(parse("B -> A").evaluate(&vec![(0, false), (1, true)]));
}

#[test]
fn infix_simplify_entry_point() {
    let r = InfixOperator::And.simplify(ident(0), lit(true));
    assert_eq!(r, ident(0));
    let r = InfixOperator::Or.simplify(not(not(ident(1))), lit(false));
    assert_eq!(r, ident(1));
    let r = InfixOperator::Implication.simplify(lit(false), ident(0));
    assert_eq!(r, lit(true));
}

#[test]
fn simplify_literal_folding() {
    assert_eq!(parse("true & false").try_simplify().expression, lit(false));
    assert_eq!(parse("true | false").try_simplify().expression, lit(true));
    assert_eq!(parse("true -> false").try_simplify().expression, lit(false));
    assert_eq!(parse("!true").try_simplify().expression, lit(false));
    assert_eq!(parse("A & false").try_simplify().expression, lit(false));
    assert_eq!(parse("false & A").try_simplify().expression, lit(false));
    assert_eq!(parse("A | true").try_simplify().expression, lit(true));
    assert_eq!(parse("false | A").try_simplify().expression, ident(0));
    assert_eq!(parse("true -> A").try_simplify().expression, ident(0));
    assert_eq!(parse("false -> A").try_simplify().expression, lit(true));
    assert_eq!(parse("A -> true").try_simplify().expression, lit(true));
}

#[test]
fn parse_errors_are_reported() {
    assert!(Parsed::new("").is_err());
    assert!(Parsed::new("A &").is_err());
    assert!(Parsed::new("(A").is_err());
    assert!(Parsed::new(")").is_err());
    assert!(Parsed::new("A -").is_err());
    assert!(Parsed::new("A @ B").is_err());
    assert!(Parsed::new("A B").is_err());
    assert!(Parsed::new("& A").is_err());
    assert!(Parsed::new("A -> -> B").is_err());
}

#[test]
fn renderers_reconstruct_text() {
    let p = parse("!A & (B | true)");
    let display = p.expression.fmt_display_names(&p.var_bindings);
    assert_eq!(display, "(!A & (B | true))");
    let binary = p.expression.fmt_binary_names(&p.var_bindings);
    assert_eq!(binary, "(!A&(B | true))");
    let simple = parse("A & B");
    let debug = simple.expression.fmt_debug_names(&simple.var_bindings);
    assert_eq!(debug, "InfixOperation {op: And, lhs: \"A\", rhs: \"B\"}");
    let negated = parse("!A");
    assert_eq!(
        negated.expression.fmt_debug_names(&negated.var_bindings),
        "Not\"A\""
    );
}

#[test]
fn whitespace_only_input_is_an_error() {
    assert!(Parsed::new("   ").is_err());
    assert!(Parsed::new("\t\n").is_err());
}

#[test]
fn nested_parentheses_vanish_in_the_tree() {
    assert_eq!(parse("((A))").expression, ident(0));
    assert_eq!(parse("(((true)))").expression, lit(true));
}

#[test]
fn renderer_with_missing_name_prints_nothing_for_it() {
    // An identifier index outside the table renders as empty text.
    let names = vec!["A".to_string()];
    assert_eq!(ident(5).fmt_display_names(&names), "");
    assert_eq!(not(ident(5)).fmt_display_names(&names), "!");
}

#[test]
fn repeated_identifier_keeps_one_table_entry() {
    let p = parse("x & x & y & x");
    assert_eq!(p.num_variables(), 2);
    assert_eq!(p.var_bindings[0], "x");
    assert_eq!(p.var_bindings[1], "y");
}
