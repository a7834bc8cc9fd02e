use boolexpr::Minterm;
use boolexpr::TruthValue;

use TruthValue::DontCare;
use TruthValue::False;
use TruthValue::True;

const ALL: [TruthValue; 3] = [DontCare, True, False];

#[test]
fn truth_value_and_table() {
    // False dominates, True is the identity, everything else is DontCare.
    for &x in &ALL {
        assert_eq!(False.and(x), False);
        assert_eq!(x.and(False), False);
        assert_eq!(True.and(x), x);
        assert_eq!(x.and(True), x);
    }
    assert_eq!(DontCare.and(DontCare), DontCare);
}

#[test]
fn truth_value_or_table() {
    // True dominates, False is the identity, everything else is DontCare.
    for &x in &ALL {
        assert_eq!(True.or(x), True);
        assert_eq!(x.or(True), True);
        assert_eq!(False.or(x), x);
        assert_eq!(x.or(False), x);
    }
    assert_eq!(DontCare.or(DontCare), DontCare);
}

#[test]
fn truth_value_negate_table() {
    assert_eq!(True.negate(), False);
    assert_eq!(False.negate(), True);
    assert_eq!(DontCare.negate(), DontCare);
}

#[test]
fn truth_value_implication_table() {
    for &x in &ALL {
        // A false antecedent or a true consequent forces True.
        assert_eq!(False.implication(x), True);
        assert_eq!(x.implication(True), True);
    }
    // A true antecedent passes the consequent through.
    assert_eq!(True.implication(False), False);
    assert_eq!(True.implication(DontCare), DontCare);
    // The remaining combinations are DontCare.
    assert_eq!(DontCare.implication(False), DontCare);
    assert_eq!(DontCare.implication(DontCare), DontCare);
}

#[test]
fn truth_value_bool_conversions() {
    assert_eq!(TruthValue::from_bool(true), True);
    assert_eq!(TruthValue::from_bool(false), False);
    assert!(True.to_bool());
    assert!(!False.to_bool());
    // An unconstrained position counts as satisfiable.
    assert!(DontCare.to_bool());
}

#[test]
fn truth_value_assign_operations() {
    let mut v = True;
    v.and_assign(False);
    assert_eq!(v, False);
    let mut v = DontCare;
    v.or_assign(True);
    assert_eq!(v, True);
    let mut v = True;
    v.implication_assign(DontCare);
    assert_eq!(v, DontCare);
}

#[test]
fn minterm_pointwise_operations() {
    let a = Minterm::from_values(vec![True, False, DontCare, True]);
    let b = Minterm::from_values(vec![DontCare, DontCare, DontCare, False]);
    let c = a.and(b);
    assert_eq!(c.len(), 4);
    assert_eq!(c.get(0), DontCare);
    assert_eq!(c.get(1), False);
    assert_eq!(c.get(2), DontCare);
    assert_eq!(c.get(3), False);

    let a = Minterm::from_values(vec![True, False, DontCare]);
    let b = Minterm::from_values(vec![False, False, True]);
    let c = a.or(b);
    assert_eq!(c.get(0), True);
    assert_eq!(c.get(1), False);
    assert_eq!(c.get(2), True);

    let a = Minterm::from_values(vec![True, False, DontCare]);
    let c = a.negate();
    assert_eq!(c.get(0), False);
    assert_eq!(c.get(1), True);
    assert_eq!(c.get(2), DontCare);

    let a = Minterm::from_values(vec![True, False, DontCare, True]);
    let b = Minterm::from_values(vec![False, DontCare, False, True]);
    let c = a.implication(b);
    assert_eq!(c.get(0), False);
    assert_eq!(c.get(1), True);
    assert_eq!(c.get(2), DontCare);
    assert_eq!(c.get(3), True);
}

#[test]
fn minterm_assign_operations() {
    let mut a = Minterm::from_values(vec![True, DontCare]);
    a.and_assign(&Minterm::from_values(vec![False, True]));
    assert_eq!(a.get(0), False);
    assert_eq!(a.get(1), DontCare);

    let mut a = Minterm::from_values(vec![False, DontCare]);
    a.or_assign(&Minterm::from_values(vec![True, False]));
    assert_eq!(a.get(0), True);
    assert_eq!(a.get(1), DontCare);

    let mut a = Minterm::from_values(vec![True, False]);
    a.implication_assign(&Minterm::from_values(vec![False, False]));
    assert_eq!(a.get(0), False);
    assert_eq!(a.get(1), True);
}

#[test]
fn minterm_set_and_len() {
    let mut a = Minterm::from_values(vec![True, True]);
    assert_eq!(a.len(), 2);
    a.set(1, DontCare);
    assert_eq!(a.get(0), True);
    assert_eq!(a.get(1), DontCare);
}

#[test]
fn empty_minterm_operations() {
    let a = Minterm::from_values(vec![]);
    let b = Minterm::from_values(vec![]);
    assert_eq!(a.and(b).len(), 0);
    let a = Minterm::from_values(vec![]);
    assert_eq!(a.negate().len(), 0);
}
